//! The configuration of a workload that reaches its cluster through the SDK.

use vstd::prelude::*;
use vstd::string::*;

use crate::address;
use crate::settings;
use crate::text;

verus! {

/// A validated Couchbase binding for one workload.
#[derive(Debug, PartialEq, Eq)]
pub struct Binding {
    /// The connection string handed to the SDK, e.g.
    /// `couchbases://cb.abc.cloud.couchbase.com`.
    pub connection_string: String,
    pub username: String,
    pub password: String,
    pub bucket: String,
    pub scope: String,
    pub collection: String,
    pub timeout_ms: u32,
}

/// The contents of a [`Binding`].
pub struct BindingView {
    pub connection_string: Seq<char>,
    pub username: Seq<char>,
    pub password: Seq<char>,
    pub bucket: Seq<char>,
    pub scope: Seq<char>,
    pub collection: Seq<char>,
    pub timeout_ms: u32,
}

impl View for Binding {
    type V = BindingView;

    open spec fn view(&self) -> BindingView {
        BindingView {
            connection_string: self.connection_string@,
            username: self.username@,
            password: self.password@,
            bucket: self.bucket@,
            scope: self.scope@,
            collection: self.collection@,
            timeout_ms: self.timeout_ms,
        }
    }
}

/// The connection string that an endpoint means. A bare host means TLS.
pub open spec fn connection_string(raw: Seq<char>) -> Result<Seq<char>, Seq<char>> {
    let raw = text::trimmed(raw);
    match text::split_first(raw, "://"@) {
        Some((scheme, rest)) => if scheme == "couchbases"@ || scheme == "couchbase"@ {
            if rest.len() == 0 {
                Err("config key `endpoint` has no host"@)
            } else {
                Ok(raw)
            }
        } else if scheme == "http"@ || scheme == "https"@ {
            Err(
                "config key `endpoint` is an HTTP URL; that is the Data API, served by the `couchbase` plugin. This plugin speaks the KV protocol and wants `couchbases://host`"@,
            )
        } else {
            Err(
                "config key `endpoint` must use couchbases:// or couchbase://, got scheme `"@
                    + scheme + "`"@,
            )
        },
        None => if raw.len() == 0 {
            Err("config key `endpoint` has no host"@)
        } else {
            Ok("couchbases://"@ + raw)
        },
    }
}

/// Accept the connection-string forms a Couchbase user would reach for, and
/// reject the ones that belong to the sibling Data API plugin.
///
/// A bare host is promoted to `couchbases://` rather than `couchbase://`:
/// defaulting the other way would silently downgrade a misconfigured deployment
/// to plaintext.
pub fn normalize_connection_string(raw: &str) -> (r: Result<String, String>)
    ensures
        match r {
            Ok(s) => connection_string(raw@) == Ok::<Seq<char>, Seq<char>>(s@),
            Err(e) => connection_string(raw@) == Err::<Seq<char>, Seq<char>>(e@),
        },
{
    let cs = text::chars_of(raw);
    let raw = text::trim(cs.as_slice());
    match text::split_once(raw, "://") {
        Some((scheme, rest)) => {
            if text::is_text(scheme, "couchbases") || text::is_text(scheme, "couchbase") {
                if rest.len() == 0 {
                    Err("config key `endpoint` has no host".to_string())
                } else {
                    Ok(text::string_of(raw))
                }
            } else if text::is_text(scheme, "http") || text::is_text(scheme, "https") {
                Err(
                    "config key `endpoint` is an HTTP URL; that is the Data API, served by the `couchbase` plugin. This plugin speaks the KV protocol and wants `couchbases://host`".to_string(),
                )
            } else {
                let scheme = text::string_of(scheme);
                Err(
                    text::joined3(
                        "config key `endpoint` must use couchbases:// or couchbase://, got scheme `",
                        scheme.as_str(),
                        "`",
                    ),
                )
            }
        },
        None => {
            if raw.len() == 0 {
                Err("config key `endpoint` has no host".to_string())
            } else {
                let host = text::string_of(raw);
                Ok(text::joined("couchbases://", host.as_str()))
            }
        },
    }
}

/// An endpoint without a scheme always becomes a TLS connection string.
pub proof fn lemma_bare_host_is_tls(raw: Seq<char>)
    requires
        text::split_first(text::trimmed(raw), "://"@) is None,
    ensures
        connection_string(raw) matches Ok(s) ==> s == "couchbases://"@ + text::trimmed(raw),
{
}

/// A connection string comes out plaintext only when the endpoint asked for it.
pub proof fn lemma_plaintext_is_explicit(raw: Seq<char>)
    ensures
        connection_string(raw) matches Ok(s) ==> s == "couchbases://"@ + text::trimmed(raw) || (s
            == text::trimmed(raw) && text::split_first(s, "://"@) is Some),
{
}

/// The parts of a connection string: scheme, host, and the port as written.
pub open spec fn connection_parts(raw: Seq<char>) -> (Seq<char>, Seq<char>, Seq<char>) {
    let (scheme, rest) = match text::split_first(raw, "://"@) {
        Some(parts) => parts,
        None => ("couchbases"@, raw),
    };
    let bracket = if rest.len() > 0 && rest[0] == '[' {
        text::find(rest, "]"@)
    } else {
        None
    };
    match bracket {
        Some(close) => (scheme, rest.take(close + 1), rest.skip(close + 1)),
        None => match text::find(rest, ":"@) {
            Some(i) => (scheme, rest.take(i), rest.skip(i)),
            None => (scheme, rest, Seq::empty()),
        },
    }
}

/// Split a connection string into `(scheme, host, port_suffix)`.
///
/// The host is returned bare so that it can be resolved; `port_suffix` keeps
/// the `:port` exactly as written, or is empty, so that the string can be
/// rebuilt without inventing a default port. An IPv6 literal in brackets keeps
/// its brackets: it needs no resolution and must keep them to be parsed again.
pub fn split_connection_string(raw: &str) -> (r: (&str, &str, &str))
    ensures
        (r.0@, r.1@, r.2@) == connection_parts(raw@),
{
    let cs = text::chars_of(raw);
    let n: usize = cs.len();
    proof {
        reveal_strlit("://");
        reveal_strlit("]");
        reveal_strlit(":");
        text::lemma_find_in_range(raw@, "://"@);
    }
    let mark = text::chars_of("://");
    let (scheme, start) = match text::position(cs.as_slice(), mark.as_slice()) {
        Some(i) => (raw.substring_char(0, i), i + 3),
        None => ("couchbases", 0),
    };
    let rest = text::tail(cs.as_slice(), start);
    let ghost rest_view = rest@;
    assert(raw@.skip(0) =~= raw@);
    assert(rest_view == (match text::split_first(raw@, "://"@) {
        Some(parts) => parts.1,
        None => raw@,
    }));
    proof {
        text::lemma_find_in_range(rest_view, "]"@);
        text::lemma_find_in_range(rest_view, ":"@);
    }
    let close = text::chars_of("]");
    if rest.len() > 0 && rest[0] == '[' {
        match text::position(rest, close.as_slice()) {
            Some(i) => {
                let cut: usize = start + i + 1;
                assert(raw@.subrange(start as int, cut as int) =~= rest_view.take(i + 1));
                assert(raw@.subrange(cut as int, n as int) =~= rest_view.skip(i + 1));
                return (scheme, raw.substring_char(start, cut), raw.substring_char(cut, n));
            },
            None => {},
        }
    }
    let colon = text::chars_of(":");
    match text::position(rest, colon.as_slice()) {
        Some(i) => {
            let cut: usize = start + i;
            assert(raw@.subrange(start as int, cut as int) =~= rest_view.take(i as int));
            assert(raw@.subrange(cut as int, n as int) =~= rest_view.skip(i as int));
            (scheme, raw.substring_char(start, cut), raw.substring_char(cut, n))
        },
        None => {
            assert(raw@.subrange(start as int, n as int) =~= rest_view);
            assert(raw@.subrange(n as int, n as int) =~= Seq::<char>::empty());
            (scheme, raw.substring_char(start, n), raw.substring_char(n, n))
        },
    }
}

/// The parts of a connection string put together again are that string.
pub proof fn lemma_parts_rebuild(raw: Seq<char>)
    ensures
        ({
            let (scheme, host, port) = connection_parts(raw);
            &&& text::split_first(raw, "://"@) is Some ==> scheme + "://"@ + host + port == raw
            &&& text::split_first(raw, "://"@) is None ==> scheme == "couchbases"@ && host + port
                == raw
        }),
{
    text::lemma_find_in_range(raw, "://"@);
    let rest = match text::split_first(raw, "://"@) {
        Some(parts) => parts.1,
        None => raw,
    };
    text::lemma_find_in_range(rest, "]"@);
    text::lemma_find_in_range(rest, ":"@);
    reveal_strlit("]");
    let (scheme, host, port) = connection_parts(raw);
    assert(host + port =~= rest);
    match text::find(raw, "://"@) {
        Some(i) => {
            let mark = "://"@;
            assert(raw =~= raw.take(i) + raw.subrange(i, i + mark.len()) + raw.skip(
                i + mark.len(),
            ));
            assert(scheme + mark + host + port =~= scheme + mark + (host + port));
        },
        None => {},
    }
}

/// The scheme of a connection string is kept when another host and port stand
/// behind it.
pub proof fn lemma_scheme_is_kept(raw: Seq<char>, rest: Seq<char>)
    ensures
        text::split_first(connection_parts(raw).0 + "://"@ + rest, "://"@) == Some(
            (connection_parts(raw).0, rest),
        ),
{
    let scheme = connection_parts(raw).0;
    let mark = "://"@;
    let s = scheme + mark + rest;
    let n = scheme.len() as int;
    reveal_strlit("://");
    match text::find(raw, mark) {
        Some(i) => {
            text::lemma_find_in_range(raw, mark);
            assert(scheme =~= raw.take(i));
            assert(raw.take(i + 3) =~= raw.take(i) + raw.subrange(i, i + 3));
            assert(s.take(i + 3) =~= scheme + mark);
            text::lemma_find_same_front(raw, s, mark, i);
        },
        None => {
            reveal_strlit("couchbases");
            assert(s.take(n) =~= "couchbases"@);
            assert(!scheme.contains(':'));
            lemma_find_mark(scheme, rest);
        },
    }
    assert(s.take(n) =~= scheme);
    assert(s.skip(n + 3) =~= rest);
}

proof fn lemma_find_mark(a: Seq<char>, b: Seq<char>)
    requires
        !a.contains(':'),
    ensures
        text::find(a + "://"@ + b, "://"@) == Some(a.len() as int),
    decreases a.len(),
{
    reveal_strlit("://");
    let s = a + "://"@ + b;
    if a.len() == 0 {
        assert(s.take(3) =~= "://"@);
    } else {
        assert(a[0] != ':');
        assert(s.take(3)[0] == a[0]);
        assert("://"@[0] == ':');
        assert(s.drop_first() =~= a.drop_first() + "://"@ + b);
        assert(!a.drop_first().contains(':')) by {
            if a.drop_first().contains(':') {
                let k = choose|k: int| 0 <= k < a.len() - 1 && a.drop_first()[k] == ':';
                assert(a[k + 1] == ':');
            }
        }
        lemma_find_mark(a.drop_first(), b);
    }
}

/// What follows a host that is not in brackets is empty, or begins with a
/// colon.
pub proof fn lemma_port_form(raw: Seq<char>)
    ensures
        ({
            let (_, host, port) = connection_parts(raw);
            host.len() > 0 && host[0] != '[' ==> port.len() == 0 || port[0] == ':'
        }),
{
    let rest = match text::split_first(raw, "://"@) {
        Some(parts) => parts.1,
        None => raw,
    };
    reveal_strlit(":");
    reveal_strlit("]");
    text::lemma_find_in_range(rest, ":"@);
    text::lemma_find_in_range(rest, "]"@);
    if let Some(i) = text::find(rest, ":"@) {
        assert(rest.subrange(i, i + 1)[0] == ':');
        assert(rest.skip(i)[0] == rest[i]);
    }
}

/// An IPv4 literal in front of a port is the host.
pub proof fn lemma_host_before_port(
    scheme: Seq<char>,
    host: Seq<char>,
    port: Seq<char>,
    s: Seq<char>,
)
    requires
        address::is_ipv4(host),
        port.len() == 0 || port[0] == ':',
        text::split_first(s, "://"@) == Some((scheme, host + port)),
    ensures
        connection_parts(s) == (scheme, host, port),
{
    address::lemma_ipv4_chars(host);
    reveal_strlit(":");
    let rest = host + port;
    assert(rest[0] == host[0]);
    assert(!host.contains(':')) by {
        if host.contains(':') {
            let k = choose|k: int| 0 <= k < host.len() && host[k] == ':';
            assert(host[k] == ':');
        }
    }
    assert(":"@ =~= seq![':']);
    if port.len() > 0 {
        assert(rest =~= host + ":"@ + port.drop_first());
        text::lemma_find_char(host, ':', port.drop_first(), ":"@);
        assert(rest.take(host.len() as int) =~= host);
        assert(rest.skip(host.len() as int) =~= port);
    } else {
        assert(rest =~= host);
        text::lemma_find_absent(host, ':', ":"@);
    }
}

/// Whether a host is a name that has to be looked up.
pub open spec fn is_name(host: Seq<char>) -> bool {
    &&& !host.contains(',')
    &&& host.len() > 0
    &&& host[0] != '['
    &&& !address::is_address(host)
}

/// Whether `host` has to be resolved before the SDK sees it.
///
/// An IP literal, and anything naming more than one node, is left alone: the
/// first is already an address, and the second is the SDK's job to spread
/// across nodes.
pub fn needs_resolution(host: &str) -> (b: bool)
    ensures
        b == is_name(host@),
{
    let cs = text::chars_of(host);
    let s = cs.as_slice();
    if s.len() == 0 || text::has_char(s, ',') || s[0] == '[' {
        return false;
    }
    !address::is_address_text(s)
}

/// The binding that a configuration describes, or what is wrong with it.
pub open spec fn binding_in(config: Seq<(Seq<char>, Seq<char>)>) -> Result<
    BindingView,
    Seq<char>,
> {
    match settings::setting(config, "endpoint"@) {
        None => Err(settings::missing("endpoint"@)),
        Some(raw) => match connection_string(raw) {
            Err(e) => Err(e),
            Ok(connection_string) => match settings::timeout_in(config) {
                Err(e) => Err(e),
                Ok(timeout_ms) => match (
                    settings::setting(config, "username"@),
                    settings::setting(config, "password"@),
                    settings::setting(config, "bucket"@),
                ) {
                    (None, _, _) => Err(settings::missing("username"@)),
                    (Some(_), None, _) => Err(settings::missing("password"@)),
                    (Some(_), Some(_), None) => Err(settings::missing("bucket"@)),
                    (Some(username), Some(password), Some(bucket)) => Ok(
                        BindingView {
                            connection_string,
                            username,
                            password,
                            bucket,
                            scope: settings::setting_or(config, "scope"@, "_default"@),
                            collection: settings::setting_or(config, "collection"@, "_default"@),
                            timeout_ms,
                        },
                    ),
                },
            },
        },
    }
}

/// The contents of a validated configuration.
pub open spec fn binding_view(r: Result<Binding, String>) -> Result<BindingView, Seq<char>> {
    match r {
        Ok(b) => Ok(b@),
        Err(e) => Err(e@),
    }
}

impl BindingView {
    /// What decides which cluster and identity a connection belongs to: three
    /// parts between bars, with a bar inside a part masked.
    pub open spec fn key(self) -> Seq<char> {
        text::masked(self.connection_string, '|') + "|"@ + text::masked(self.username, '|') + "|"@
            + text::masked(self.bucket, '|')
    }
}

impl Binding {
    /// Validate one workload's interface config into a binding.
    ///
    /// The error names the key at fault.
    pub fn from_config(config: &[(String, String)]) -> (r: Result<Self, String>)
        ensures
            binding_view(r) == binding_in(settings::pairs(config@)),
    {
        let raw = match settings::require(config, "endpoint") {
            Ok(raw) => raw,
            Err(e) => return Err(e),
        };
        let connection_string = match normalize_connection_string(raw.as_str()) {
            Ok(s) => s,
            Err(e) => return Err(e),
        };
        let timeout_ms = match settings::timeout_ms(config) {
            Ok(ms) => ms,
            Err(e) => return Err(e),
        };
        let username = match settings::require(config, "username") {
            Ok(v) => v,
            Err(e) => return Err(e),
        };
        let password = match settings::require(config, "password") {
            Ok(v) => v,
            Err(e) => return Err(e),
        };
        let bucket = match settings::require(config, "bucket") {
            Ok(v) => v,
            Err(e) => return Err(e),
        };
        Ok(
            Self {
                connection_string,
                username,
                password,
                bucket,
                scope: settings::get_or(config, "scope", "_default"),
                collection: settings::get_or(config, "collection", "_default"),
                timeout_ms,
            },
        )
    }

    /// Key for the connection cache: everything that decides which cluster and
    /// identity a connection belongs to. Two workloads sharing all of these
    /// share a connection; differing in any of them do not.
    pub fn connection_key(&self) -> (s: String)
        ensures
            s@ == self@.key(),
    {
        let cluster = text::mask(self.connection_string.as_str(), '|');
        let user = text::mask(self.username.as_str(), '|');
        let bucket = text::mask(self.bucket.as_str(), '|');
        let mut s = text::joined3(cluster.as_str(), "|", user.as_str());
        s.append("|");
        s.append(bucket.as_str());
        s
    }
}

/// Two bindings share a connection exactly when cluster, user and bucket are the
/// same.
pub proof fn lemma_key_is_identity(a: BindingView, b: BindingView)
    ensures
        a.key() == b.key() <==> a.connection_string == b.connection_string && a.username
            == b.username && a.bucket == b.bucket,
{
    if a.key() == b.key() {
        reveal_strlit("|");
        assert("|"@ =~= seq!['|']);
        let bar = seq!['|'];
        let ca = text::masked(a.connection_string, '|');
        let cb = text::masked(b.connection_string, '|');
        let ua = text::masked(a.username, '|');
        let ub = text::masked(b.username, '|');
        let ra = ua + bar + text::masked(a.bucket, '|');
        let rb = ub + bar + text::masked(b.bucket, '|');
        assert(a.key() =~= ca + bar + ra);
        assert(b.key() =~= cb + bar + rb);
        text::lemma_masked_clear(a.connection_string, '|');
        text::lemma_masked_clear(b.connection_string, '|');
        text::lemma_masked_clear(a.username, '|');
        text::lemma_masked_clear(b.username, '|');
        text::lemma_cut_unique(ca, ra, cb, rb, '|');
        text::lemma_cut_unique(
            ua,
            text::masked(a.bucket, '|'),
            ub,
            text::masked(b.bucket, '|'),
            '|',
        );
        text::lemma_masked_injective(a.connection_string, b.connection_string, '|');
        text::lemma_masked_injective(a.username, b.username, '|');
        text::lemma_masked_injective(a.bucket, b.bucket, '|');
    }
}

/// A key of parts that hold neither bar nor percent sign shows them as they are.
pub proof fn lemma_key_is_readable(b: BindingView)
    requires
        !b.connection_string.contains('|') && !b.connection_string.contains('%'),
        !b.username.contains('|') && !b.username.contains('%'),
        !b.bucket.contains('|') && !b.bucket.contains('%'),
    ensures
        b.key() == b.connection_string + "|"@ + b.username + "|"@ + b.bucket,
{
    text::lemma_masked_same(b.connection_string, '|');
    text::lemma_masked_same(b.username, '|');
    text::lemma_masked_same(b.bucket, '|');
}

/// A configuration that lacks a required key is refused, whatever else it says;
/// and where nothing else is wrong with it, the message is the one that names
/// the key.
pub proof fn lemma_missing_key_is_named(config: Seq<(Seq<char>, Seq<char>)>, key: Seq<char>)
    requires
        settings::setting(config, key) is None,
        key == "endpoint"@ || key == "username"@ || key == "password"@ || key == "bucket"@,
    ensures
        binding_in(config) is Err,
        (forall|k: Seq<char>|
            k != key && (k == "endpoint"@ || k == "username"@ || k == "password"@ || k == "bucket"@)
                ==> settings::setting(config, k) is Some) && (settings::setting(
            config,
            "endpoint"@,
        ) matches Some(raw) ==> connection_string(raw) is Ok) && settings::timeout_in(config) is Ok
            ==> binding_in(config) == Err::<BindingView, Seq<char>>(settings::missing(key)),
{
}

} // verus!
