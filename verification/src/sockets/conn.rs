//! One KV connection: the handshake, and a request/response pair.
//!
//! A connection here is what the protocol needs to remember between frames. It
//! hands out frames to write and takes in the bytes that arrive; moving them
//! over a socket is the caller's part.
//!
//! The protocol is pipelined in principle (requests carry an opaque that the
//! response echoes), but a connection issues one request at a time, so the
//! opaque is a consistency check rather than a demultiplexing key.

use vstd::prelude::*;
use vstd::slice::*;
use vstd::string::*;
use vstd::utf8::*;

use crate::number;
use crate::sockets::config::{Binding, BindingView};
use crate::sockets::feature;
use crate::sockets::op;
use crate::sockets::proto;
use crate::sockets::proto::ResponseHeader;
use crate::sockets::status;
use crate::text;
use crate::wire;

verus! {

/// What a connection remembers.
pub struct Connection {
    /// Bytes that arrived past the end of the last response.
    pub pending: Vec<u8>,
    /// How many vbuckets the bucket has, for routing.
    pub vbuckets: u16,
    /// The collection this binding addresses.
    pub collection_id: u32,
    /// The opaque of the last request.
    pub opaque: u32,
}

/// One response, header and body separated.
pub struct Reply {
    pub header: ResponseHeader,
    pub extras: Vec<u8>,
    pub key: Vec<u8>,
    pub value: Vec<u8>,
}

/// The contents of a [`Reply`].
pub struct ReplyView {
    pub header: ResponseHeader,
    pub extras: Seq<u8>,
    pub key: Seq<u8>,
    pub value: Seq<u8>,
}

impl View for Reply {
    type V = ReplyView;

    open spec fn view(&self) -> ReplyView {
        ReplyView {
            header: self.header,
            extras: self.extras@,
            key: self.key@,
            value: self.value@,
        }
    }
}

impl Reply {
    /// Whether the server accepted the request.
    pub fn ok(&self) -> (b: bool)
        ensures
            b == (self.header.status == status::OK),
    {
        self.header.status == status::OK
    }
}

/// The response at the front of bytes that hold a whole one.
pub open spec fn reply_in(bytes: Seq<u8>) -> ReplyView {
    let h = proto::header_of(bytes);
    let body = bytes.subrange(24, 24 + h.body_len);
    ReplyView {
        header: h,
        extras: body.take(h.extras_len as int),
        key: body.subrange(h.extras_len as int, h.extras_len + h.key_len),
        value: body.skip(h.extras_len + h.key_len),
    }
}

/// What the bytes that arrived say to a request: nothing yet, an error, or the
/// response.
pub open spec fn answer(pending: Seq<u8>, opaque: u32) -> Option<Result<ReplyView, Seq<char>>> {
    let h = proto::header_of(pending);
    if pending.len() < 24 {
        None
    } else if pending[0] != proto::MAGIC_RESPONSE {
        Some(Err(proto::header_error(pending.take(24))))
    } else if pending.len() < 24 + h.body_len {
        None
    } else if h.opaque != opaque {
        Some(
            Err(
                "response out of order: expected opaque "@ + number::decimal(opaque as nat)
                    + ", got "@ + number::decimal(h.opaque as nat),
            ),
        )
    } else {
        Some(Ok(reply_in(pending)))
    }
}

/// How many of the bytes that arrived an answer uses up.
pub open spec fn used(pending: Seq<u8>, opaque: u32) -> int {
    if answer(pending, opaque) is None {
        0
    } else if pending[0] != proto::MAGIC_RESPONSE {
        24
    } else {
        24 + proto::header_of(pending).body_len
    }
}

/// Whether the extras and key of a response lie within its body.
pub open spec fn well_framed(pending: Seq<u8>, opaque: u32) -> bool {
    answer(pending, opaque) matches Some(Ok(reply)) ==> reply.header.extras_len
        + reply.header.key_len <= reply.header.body_len
}

/// Where the handshake stands.
#[derive(Debug, Clone, Copy, PartialEq, Eq, Structural)]
pub enum Stage {
    Hello,
    Authenticate,
    SelectBucket,
    ClusterConfig,
    CollectionId,
    Ready,
}

/// The path of a binding's collection.
pub open spec fn collection_path(b: BindingView) -> Seq<char> {
    b.scope + "."@ + b.collection
}

/// The frame that a stage of the handshake sends.
pub open spec fn open_frame(stage: Stage, b: BindingView, opaque: u32) -> Seq<u8> {
    let none = Seq::<u8>::empty();
    match stage {
        Stage::Hello => proto::request_frame(
            op::HELLO,
            0,
            encode_utf8("wasmcloud-couchbase"@),
            none,
            proto::features_asked(),
            opaque,
            0,
        ),
        Stage::Authenticate => proto::request_frame(
            op::SASL_AUTH,
            0,
            encode_utf8("PLAIN"@),
            none,
            proto::plain_payload(b.username, b.password),
            opaque,
            0,
        ),
        Stage::SelectBucket => proto::request_frame(
            op::SELECT_BUCKET,
            0,
            encode_utf8(b.bucket),
            none,
            none,
            opaque,
            0,
        ),
        Stage::ClusterConfig => proto::request_frame(
            op::GET_CLUSTER_CONFIG,
            0,
            none,
            none,
            none,
            opaque,
            0,
        ),
        Stage::CollectionId | Stage::Ready => proto::request_frame(
            op::GET_COLLECTION_ID,
            0,
            encode_utf8(collection_path(b)),
            none,
            none,
            opaque,
            0,
        ),
    }
}

/// A status code as messages show it.
pub open spec fn status_text(code: u16) -> Seq<char> {
    number::hex_padded(code as nat, 4)
}

/// What a reply means for the handshake: the next stage and what is known by
/// then of the vbucket count and the collection id, or why it fails.
pub open spec fn open_step(
    stage: Stage,
    b: BindingView,
    known: (u16, u32),
    reply: ReplyView,
) -> Result<(Stage, u16, u32), Seq<char>> {
    let code = reply.header.status;
    match stage {
        Stage::Hello => if code != status::OK {
            Err("HELLO refused: status 0x"@ + status_text(code))
        } else if !proto::features_in(reply.value).contains(feature::COLLECTIONS) {
            Err("the cluster did not agree to COLLECTIONS, which this plugin requires"@)
        } else {
            Ok((Stage::Authenticate, known.0, known.1))
        },
        Stage::Authenticate => if code == status::AUTH_ERROR {
            Err("authentication failed"@)
        } else if code != status::OK {
            Err("SASL PLAIN refused: status 0x"@ + status_text(code))
        } else {
            Ok((Stage::SelectBucket, known.0, known.1))
        },
        Stage::SelectBucket => if code != status::OK {
            Err("could not select bucket `"@ + b.bucket + "`: status 0x"@ + status_text(code))
        } else {
            Ok((Stage::ClusterConfig, known.0, known.1))
        },
        Stage::ClusterConfig => if code != status::OK {
            Err("could not read the cluster config: status 0x"@ + status_text(code))
        } else {
            match proto::vbucket_count_in(reply.value) {
                Ok(n) => Ok((Stage::CollectionId, n as u16, known.1)),
                Err(e) => Err(e),
            }
        },
        Stage::CollectionId => if code == status::UNKNOWN_COLLECTION {
            Err("no such scope or collection: `"@ + collection_path(b) + "`"@)
        } else if code != status::OK {
            Err(
                "could not resolve `"@ + collection_path(b) + "`: status 0x"@ + status_text(code),
            )
        } else if reply.extras.len() < 12 {
            Err("collection-id extras too short: "@ + number::decimal(reply.extras.len()))
        } else {
            Ok((Stage::Ready, known.0, proto::field(reply.extras, 8, 12) as u32))
        },
        Stage::Ready => Ok((Stage::Ready, known.0, known.1)),
    }
}

/// Where the handshake stands after a number of replies.
pub open spec fn open_run(b: BindingView, replies: Seq<ReplyView>) -> Result<
    (Stage, u16, u32),
    Seq<char>,
>
    decreases replies.len(),
{
    if replies.len() == 0 {
        Ok((Stage::Hello, 0, 0))
    } else {
        match open_run(b, replies.drop_last()) {
            Ok((stage, vbuckets, collection_id)) => open_step(
                stage,
                b,
                (vbuckets, collection_id),
                replies.last(),
            ),
            Err(e) => Err(e),
        }
    }
}

/// A handshake is complete only after five accepted replies, in which the
/// server agreed to collections, took the credential, selected the bucket, gave
/// its vbucket count and resolved the collection; and then the connection
/// routes and prefixes keys by what it was told.
pub proof fn lemma_ready_means_accepted(b: BindingView, replies: Seq<ReplyView>)
    requires
        replies.len() == 5,
        open_run(b, replies) matches Ok((stage, _, _)) && stage == Stage::Ready,
    ensures
        forall|i: int| 0 <= i < 5 ==> (#[trigger] replies[i]).header.status == status::OK,
        proto::features_in(replies[0].value).contains(feature::COLLECTIONS),
        ({
            let (_, vbuckets, collection_id) = open_run(b, replies)->Ok_0;
            &&& proto::vbucket_count_in(replies[3].value) matches Ok(n) && n as u16 == vbuckets
            &&& proto::field(replies[4].extras, 8, 12) as u32 == collection_id
        }),
{
    let r4 = replies.drop_last();
    let r3 = r4.drop_last();
    let r2 = r3.drop_last();
    let r1 = r2.drop_last();
    let r0 = r1.drop_last();
    assert(r0.len() == 0);
    assert(open_run(b, r0) == Ok::<(Stage, u16, u32), Seq<char>>((Stage::Hello, 0, 0)));
    assert(r1.last() == replies[0]);
    assert(r2.last() == replies[1]);
    assert(r3.last() == replies[2]);
    assert(r4.last() == replies[3]);
    assert(replies.last() == replies[4]);
    assert(open_run(b, r1) is Ok);
    assert(open_run(b, r2) is Ok);
    assert(open_run(b, r3) is Ok);
    assert(open_run(b, r4) is Ok);
}

/// How many replies it takes to come to a stage.
pub open spec fn rank(stage: Stage) -> nat {
    match stage {
        Stage::Hello => 0,
        Stage::Authenticate => 1,
        Stage::SelectBucket => 2,
        Stage::ClusterConfig => 3,
        Stage::CollectionId => 4,
        Stage::Ready => 5,
    }
}

/// Each accepted reply moves the handshake on by one stage; no shorter exchange
/// completes it.
pub proof fn lemma_one_stage_for_each_reply(b: BindingView, replies: Seq<ReplyView>)
    requires
        replies.len() <= 5,
    ensures
        open_run(b, replies) matches Ok((stage, _, _)) ==> rank(stage) == replies.len(),
    decreases replies.len(),
{
    if replies.len() > 0 {
        lemma_one_stage_for_each_reply(b, replies.drop_last());
    }
}

impl Connection {
    /// A connection on which nothing has been sent.
    pub fn new() -> (c: Self)
        ensures
            c.pending@ == Seq::<u8>::empty(),
            c.vbuckets == 0,
            c.collection_id == 0,
            c.opaque == 0,
    {
        Connection { pending: Vec::new(), vbuckets: 0, collection_id: 0, opaque: 0 }
    }

    /// The frame of the next request. Each request has an opaque of its own.
    pub fn call(
        &mut self,
        opcode: u8,
        vbucket: u16,
        key: &[u8],
        extras: &[u8],
        value: &[u8],
        cas: u64,
    ) -> (frame: Vec<u8>)
        ensures
            final(self).opaque == old(self).opaque.wrapping_add(1),
            frame@ == proto::request_frame(
                opcode,
                vbucket,
                key@,
                extras@,
                value@,
                final(self).opaque,
                cas,
            ),
            final(self).pending@ == old(self).pending@,
            final(self).vbuckets == old(self).vbuckets,
            final(self).collection_id == old(self).collection_id,
    {
        self.opaque = self.opaque.wrapping_add(1);
        proto::request(opcode, vbucket, key, extras, value, self.opaque, cas)
    }

    /// Take in bytes that arrived. An empty read means that the stream ended,
    /// and no more of the response is coming.
    pub fn receive(&mut self, buffer: &[u8]) -> (r: Result<(), String>)
        ensures
            match r {
                Ok(_) => buffer@.len() > 0 && final(self).pending@ == old(self).pending@ + buffer@,
                Err(e) => buffer@.len() == 0 && e@ == "the cluster closed the connection"@
                    && final(self).pending@ == old(self).pending@,
            },
            final(self).vbuckets == old(self).vbuckets,
            final(self).collection_id == old(self).collection_id,
            final(self).opaque == old(self).opaque,
    {
        if buffer.len() == 0 {
            return Err("the cluster closed the connection".to_string());
        }
        wire::push_bytes(&mut self.pending, buffer);
        Ok(())
    }

    /// Take exactly `want` of the bytes that arrived, if there are as many.
    /// What came past them stays.
    pub fn read_exactly(&mut self, want: usize) -> (r: Option<Vec<u8>>)
        ensures
            match r {
                Some(bytes) => want <= old(self).pending@.len() && bytes@ == old(
                    self,
                ).pending@.take(want as int) && final(self).pending@ == old(self).pending@.skip(
                    want as int,
                ),
                None => want > old(self).pending@.len() && final(self).pending@ == old(
                    self,
                ).pending@,
            },
            final(self).vbuckets == old(self).vbuckets,
            final(self).collection_id == old(self).collection_id,
            final(self).opaque == old(self).opaque,
    {
        if self.pending.len() < want {
            return None;
        }
        let all = self.pending.as_slice();
        let front = wire::copy_bytes(slice_subrange(all, 0, want));
        let rest = wire::copy_bytes(slice_subrange(all, want, all.len()));
        self.pending = rest;
        Some(front)
    }

    /// Whether the response that arrived can be taken apart.
    pub fn is_well_framed(&self) -> (b: bool)
        ensures
            b == well_framed(self.pending@, self.opaque),
    {
        let bytes = self.pending.as_slice();
        if bytes.len() < proto::HEADER_LEN {
            return true;
        }
        match ResponseHeader::parse(bytes) {
            Ok(header) => {
                if bytes.len() - proto::HEADER_LEN < header.body_len {
                    return true;
                }
                header.opaque != self.opaque || header.extras_len + header.key_len
                    <= header.body_len
            },
            Err(_) => true,
        }
    }

    /// The answer to the last request, once all of it has arrived.
    ///
    /// An opaque that does not match means that the stream has desynchronized;
    /// going on would attribute one call's answer to another.
    pub fn reply(&mut self) -> (r: Option<Result<Reply, String>>)
        requires
            well_framed(old(self).pending@, old(self).opaque),
        ensures
            match r {
                Some(Ok(reply)) => answer(old(self).pending@, old(self).opaque) == Some(
                    Ok::<ReplyView, Seq<char>>(reply@),
                ),
                Some(Err(e)) => answer(old(self).pending@, old(self).opaque) == Some(
                    Err::<ReplyView, Seq<char>>(e@),
                ),
                None => answer(old(self).pending@, old(self).opaque) is None,
            },
            final(self).pending@ == old(self).pending@.skip(
                used(old(self).pending@, old(self).opaque),
            ),
            final(self).vbuckets == old(self).vbuckets,
            final(self).collection_id == old(self).collection_id,
            final(self).opaque == old(self).opaque,
    {
        let ghost before = self.pending@;
        assert(before.skip(0) =~= before);
        if self.pending.len() < proto::HEADER_LEN {
            return None;
        }
        let head = wire::copy_bytes(slice_subrange(self.pending.as_slice(), 0, proto::HEADER_LEN));
        proof {
            lemma_header_prefix(before);
        }
        let header = match ResponseHeader::parse(head.as_slice()) {
            Ok(header) => header,
            Err(e) => {
                let _ = self.read_exactly(proto::HEADER_LEN);
                return Some(Err(e));
            },
        };
        if self.pending.len() - proto::HEADER_LEN < header.body_len {
            return None;
        }
        let _ = self.read_exactly(proto::HEADER_LEN);
        let body = match self.read_exactly(header.body_len) {
            Some(body) => body,
            None => Vec::new(),
        };
        proof {
            assert(body@ =~= before.subrange(24, 24 + header.body_len));
            assert(self.pending@ =~= before.skip(24 + header.body_len));
        }
        if header.opaque != self.opaque {
            let mut e = "response out of order: expected opaque ".to_string();
            e.append(number::decimal_text(self.opaque as u64).as_str());
            e.append(", got ");
            e.append(number::decimal_text(header.opaque as u64).as_str());
            return Some(Err(e));
        }
        let value_at = header.value_offset();
        let all = body.as_slice();
        let extras = wire::copy_bytes(slice_subrange(all, 0, header.extras_len));
        let key = wire::copy_bytes(slice_subrange(all, header.extras_len, value_at));
        let value = wire::copy_bytes(slice_subrange(all, value_at, all.len()));
        Some(Ok(Reply { header, extras, key, value }))
    }

    /// The frame that a stage of the handshake sends:
    /// `HELLO`, `SASL_AUTH`, `SELECT_BUCKET`, cluster config, collection id.
    pub fn open(&mut self, stage: Stage, binding: &Binding) -> (frame: Vec<u8>)
        requires
            stage != Stage::Ready,
        ensures
            final(self).opaque == old(self).opaque.wrapping_add(1),
            frame@ == open_frame(stage, binding@, final(self).opaque),
            final(self).pending@ == old(self).pending@,
            final(self).vbuckets == old(self).vbuckets,
            final(self).collection_id == old(self).collection_id,
    {
        let none: Vec<u8> = Vec::new();
        assert(none@ =~= Seq::<u8>::empty());
        match stage {
            Stage::Hello => {
                let features = proto::hello_features();
                self.call(
                    op::HELLO,
                    0,
                    "wasmcloud-couchbase".as_bytes(),
                    none.as_slice(),
                    features.as_slice(),
                    0,
                )
            },
            Stage::Authenticate => {
                let payload = proto::sasl_plain(
                    binding.username.as_str(),
                    binding.password.as_str(),
                );
                self.call(
                    op::SASL_AUTH,
                    0,
                    "PLAIN".as_bytes(),
                    none.as_slice(),
                    payload.as_slice(),
                    0,
                )
            },
            Stage::SelectBucket => self.call(
                op::SELECT_BUCKET,
                0,
                binding.bucket.as_str().as_bytes(),
                none.as_slice(),
                none.as_slice(),
                0,
            ),
            Stage::ClusterConfig => self.call(
                op::GET_CLUSTER_CONFIG,
                0,
                none.as_slice(),
                none.as_slice(),
                none.as_slice(),
                0,
            ),
            Stage::CollectionId | Stage::Ready => {
                let path = text::joined3(
                    binding.scope.as_str(),
                    ".",
                    binding.collection.as_str(),
                );
                self.call(
                    op::GET_COLLECTION_ID,
                    0,
                    path.as_str().as_bytes(),
                    none.as_slice(),
                    none.as_slice(),
                    0,
                )
            },
        }
    }

    /// Take in the reply to a stage of the handshake, and say which stage comes
    /// next.
    pub fn opened(&mut self, stage: Stage, binding: &Binding, reply: &Reply) -> (r: Result<
        Stage,
        String,
    >)
        ensures
            match r {
                Ok(next) => open_step(
                    stage,
                    binding@,
                    (old(self).vbuckets, old(self).collection_id),
                    reply@,
                ) == Ok::<(Stage, u16, u32), Seq<char>>(
                    (next, final(self).vbuckets, final(self).collection_id),
                ),
                Err(e) => open_step(
                    stage,
                    binding@,
                    (old(self).vbuckets, old(self).collection_id),
                    reply@,
                ) == Err::<(Stage, u16, u32), Seq<char>>(e@) && final(self).vbuckets == old(
                    self,
                ).vbuckets && final(self).collection_id == old(self).collection_id,
            },
            final(self).pending@ == old(self).pending@,
            final(self).opaque == old(self).opaque,
    {
        let code = reply.header.status;
        match stage {
            Stage::Hello => {
                if code != status::OK {
                    return Err(with_status("HELLO refused: status 0x", code));
                }
                let agreed = proto::parse_hello_response(reply.value.as_slice());
                if !holds(agreed.as_slice(), feature::COLLECTIONS) {
                    return Err(
                        "the cluster did not agree to COLLECTIONS, which this plugin requires".to_string(),
                    );
                }
                Ok(Stage::Authenticate)
            },
            Stage::Authenticate => {
                if code == status::AUTH_ERROR {
                    return Err("authentication failed".to_string());
                }
                if code != status::OK {
                    return Err(with_status("SASL PLAIN refused: status 0x", code));
                }
                Ok(Stage::SelectBucket)
            },
            Stage::SelectBucket => {
                if code != status::OK {
                    let front = text::joined3(
                        "could not select bucket `",
                        binding.bucket.as_str(),
                        "`: status 0x",
                    );
                    return Err(with_status(front.as_str(), code));
                }
                Ok(Stage::ClusterConfig)
            },
            Stage::ClusterConfig => {
                if code != status::OK {
                    return Err(with_status("could not read the cluster config: status 0x", code));
                }
                match proto::parse_vbucket_count(reply.value.as_slice()) {
                    Ok(n) => {
                        self.vbuckets = n;
                        Ok(Stage::CollectionId)
                    },
                    Err(e) => Err(e),
                }
            },
            Stage::CollectionId => {
                let path = text::joined3(
                    binding.scope.as_str(),
                    ".",
                    binding.collection.as_str(),
                );
                if code == status::UNKNOWN_COLLECTION {
                    return Err(
                        text::joined3("no such scope or collection: `", path.as_str(), "`"),
                    );
                }
                if code != status::OK {
                    let front = text::joined3(
                        "could not resolve `",
                        path.as_str(),
                        "`: status 0x",
                    );
                    return Err(with_status(front.as_str(), code));
                }
                match proto::parse_collection_id(reply.extras.as_slice()) {
                    Ok(id) => {
                        self.collection_id = id;
                        Ok(Stage::Ready)
                    },
                    Err(e) => Err(e),
                }
            },
            Stage::Ready => Ok(Stage::Ready),
        }
    }

    /// The vbucket a document id routes to on this connection.
    pub fn vbucket_for(&self, key: &str) -> (v: u16)
        ensures
            v == proto::vbucket_of(key@, self.vbuckets),
    {
        proto::vbucket_for(key, self.vbuckets)
    }

    /// The wire form of a document id for this connection's collection.
    pub fn wire_key(&self, key: &str) -> (out: Vec<u8>)
        ensures
            out@ == proto::wire_key(self.collection_id, key@),
    {
        proto::encode_key(self.collection_id, key)
    }
}

fn with_status(front: &str, code: u16) -> (s: String)
    ensures
        s@ == front@ + status_text(code),
{
    let code = number::hex_text(code as u64, 4);
    text::joined(front, code.as_str())
}

fn holds(s: &[u16], x: u16) -> (b: bool)
    ensures
        b == s@.contains(x),
{
    let mut i: usize = 0;
    while i < s.len()
        invariant
            i <= s@.len(),
            forall|j: int| 0 <= j < i ==> s@[j] != x,
        decreases s@.len() - i,
    {
        if s[i] == x {
            return true;
        }
        i += 1;
    }
    false
}

proof fn lemma_header_prefix(bytes: Seq<u8>)
    requires
        bytes.len() >= 24,
    ensures
        proto::header_of(bytes.take(24)) == proto::header_of(bytes),
        proto::is_response(bytes.take(24)) == proto::is_response(bytes),
{
    let t = bytes.take(24);
    assert(t.subrange(2, 4) =~= bytes.subrange(2, 4));
    assert(t.subrange(6, 8) =~= bytes.subrange(6, 8));
    assert(t.subrange(8, 12) =~= bytes.subrange(8, 12));
    assert(t.subrange(12, 16) =~= bytes.subrange(12, 16));
    assert(t.subrange(16, 24) =~= bytes.subrange(16, 24));
}

/// A response that was taken leaves exactly the bytes that came after it, so a
/// response that arrives together with the next one does not disturb it.
pub proof fn lemma_answer_ignores_what_follows(
    h: ResponseHeader,
    body: Seq<u8>,
    rest: Seq<u8>,
)
    requires
        h.fits(),
        body.len() == h.body_len,
        h.extras_len + h.key_len <= h.body_len,
    ensures
        ({
            let bytes = proto::header_bytes(h) + body + rest;
            &&& answer(bytes, h.opaque) == Some(
                Ok::<ReplyView, Seq<char>>(
                    ReplyView {
                        header: h,
                        extras: body.take(h.extras_len as int),
                        key: body.subrange(h.extras_len as int, h.extras_len + h.key_len),
                        value: body.skip(h.extras_len + h.key_len),
                    },
                ),
            )
            &&& bytes.skip(used(bytes, h.opaque)) == rest
        }),
{
    let front = proto::header_bytes(h);
    let bytes = front + body + rest;
    proto::lemma_header_round_trip(h, body + rest);
    assert(bytes =~= front + (body + rest));
    assert(bytes.subrange(24, 24 + h.body_len) =~= body);
    assert(bytes.skip(24 + h.body_len) =~= rest);
}

/// A reply to another request is refused, never taken for this one's.
pub proof fn lemma_other_opaque_is_refused(pending: Seq<u8>, opaque: u32)
    requires
        proto::is_response(pending),
        proto::header_of(pending).opaque != opaque,
    ensures
        !(answer(pending, opaque) matches Some(Ok(_))),
{
}

} // verus!
