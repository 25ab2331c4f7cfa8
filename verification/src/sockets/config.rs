//! The configuration of a workload that reaches one node over a socket.

use vstd::prelude::*;
use vstd::string::*;

use crate::number;
use crate::settings;
use crate::text;

verus! {

/// The KV port a Couchbase node listens on.
pub const DEFAULT_KV_PORT: u16 = 11210;

/// The query service's HTTP port, for SQL++.
pub const DEFAULT_QUERY_PORT: u16 = 8093;

/// A validated binding for one workload.
#[derive(Debug, PartialEq, Eq)]
pub struct Binding {
    /// Host of the cluster node, without a port.
    pub host: String,
    /// KV port.
    pub port: u16,
    /// Query service port, for the SQL++ passthrough.
    pub query_port: u16,
    pub username: String,
    pub password: String,
    pub bucket: String,
    pub scope: String,
    pub collection: String,
    pub timeout_ms: u32,
}

/// The contents of a [`Binding`].
pub struct BindingView {
    pub host: Seq<char>,
    pub port: u16,
    pub query_port: u16,
    pub username: Seq<char>,
    pub password: Seq<char>,
    pub bucket: Seq<char>,
    pub scope: Seq<char>,
    pub collection: Seq<char>,
    pub timeout_ms: u32,
}

impl View for Binding {
    type V = BindingView;

    open spec fn view(&self) -> BindingView {
        BindingView {
            host: self.host@,
            port: self.port,
            query_port: self.query_port,
            username: self.username@,
            password: self.password@,
            bucket: self.bucket@,
            scope: self.scope@,
            collection: self.collection@,
            timeout_ms: self.timeout_ms,
        }
    }
}

/// The host and port that an authority names. Only the last colon separates a
/// port, and none inside the brackets of an IPv6 literal does.
pub open spec fn host_and_port(rest: Seq<char>) -> Result<(Seq<char>, u16), Seq<char>> {
    if rest.len() == 0 {
        Err("config key `endpoint` has no host"@)
    } else {
        match text::split_last(rest, ':') {
            Some((host, port)) => if host.len() > 0 && rest.last() != ']' {
                match number::unsigned(port, 10, u16::MAX as nat) {
                    Some(p) => Ok((host, p as u16)),
                    None => Err("config key `endpoint` has an invalid port: `"@ + port + "`"@),
                }
            } else {
                Ok((rest, DEFAULT_KV_PORT))
            },
            None => Ok((rest, DEFAULT_KV_PORT)),
        }
    }
}

/// What an endpoint means. A TLS endpoint is refused.
pub open spec fn endpoint(raw: Seq<char>) -> Result<(Seq<char>, u16), Seq<char>> {
    match text::split_first(raw, "://"@) {
        Some((scheme, rest)) => if scheme == "couchbase"@ {
            host_and_port(rest)
        } else if scheme == "couchbases"@ {
            Err(
                "config key `endpoint` uses couchbases://, and this plugin has no TLS yet; use the `couchbase` (Data API) plugin for a TLS endpoint, or couchbase:// on a trusted network"@,
            )
        } else if scheme == "http"@ || scheme == "https"@ {
            Err(
                "config key `endpoint` is an HTTP URL; that is the Data API, served by the `couchbase` plugin. This one speaks the KV protocol and wants `couchbase://host`"@,
            )
        } else {
            Err("config key `endpoint` must use couchbase://, got scheme `"@ + scheme + "`"@)
        },
        None => host_and_port(raw),
    }
}

/// The contents of a parsed endpoint.
pub open spec fn endpoint_view(r: Result<(String, u16), String>) -> Result<
    (Seq<char>, u16),
    Seq<char>,
> {
    match r {
        Ok((host, port)) => Ok((host@, port)),
        Err(e) => Err(e@),
    }
}

fn parse_host_and_port(rest: &[char]) -> (r: Result<(String, u16), String>)
    ensures
        endpoint_view(r) == host_and_port(rest@),
{
    if rest.len() == 0 {
        return Err("config key `endpoint` has no host".to_string());
    }
    match text::rsplit_once(rest, ':') {
        Some((host, port)) => {
            if host.len() > 0 && rest[rest.len() - 1] != ']' {
                match number::parse_unsigned(port, 10, u16::MAX as u64) {
                    Some(p) => Ok((text::string_of(host), p as u16)),
                    None => {
                        let port = text::string_of(port);
                        Err(
                            text::joined3(
                                "config key `endpoint` has an invalid port: `",
                                port.as_str(),
                                "`",
                            ),
                        )
                    },
                }
            } else {
                Ok((text::string_of(rest), DEFAULT_KV_PORT))
            }
        },
        None => Ok((text::string_of(rest), DEFAULT_KV_PORT)),
    }
}

/// Split `couchbase://host[:port]` into its host and port.
///
/// `couchbases://` is refused rather than silently downgraded: there is no TLS
/// here, and quietly sending credentials in the clear because the scheme was
/// misread would be the worst possible reading of it.
pub fn parse_endpoint(raw: &str) -> (r: Result<(String, u16), String>)
    ensures
        endpoint_view(r) == endpoint(raw@),
{
    let cs = text::chars_of(raw);
    match text::split_once(cs.as_slice(), "://") {
        Some((scheme, rest)) => {
            if text::is_text(scheme, "couchbase") {
                parse_host_and_port(rest)
            } else if text::is_text(scheme, "couchbases") {
                Err(
                    "config key `endpoint` uses couchbases://, and this plugin has no TLS yet; use the `couchbase` (Data API) plugin for a TLS endpoint, or couchbase:// on a trusted network".to_string(),
                )
            } else if text::is_text(scheme, "http") || text::is_text(scheme, "https") {
                Err(
                    "config key `endpoint` is an HTTP URL; that is the Data API, served by the `couchbase` plugin. This one speaks the KV protocol and wants `couchbase://host`".to_string(),
                )
            } else {
                let scheme = text::string_of(scheme);
                Err(
                    text::joined3(
                        "config key `endpoint` must use couchbase://, got scheme `",
                        scheme.as_str(),
                        "`",
                    ),
                )
            }
        },
        None => parse_host_and_port(cs.as_slice()),
    }
}

/// An endpoint that asks for TLS is never served without it.
pub proof fn lemma_tls_is_never_downgraded(raw: Seq<char>, rest: Seq<char>)
    requires
        text::split_first(raw, "://"@) == Some(("couchbases"@, rest)) || text::split_first(
            raw,
            "://"@,
        ) == Some(("https"@, rest)),
    ensures
        endpoint(raw) is Err,
{
    reveal_strlit("couchbase");
    reveal_strlit("couchbases");
    reveal_strlit("https");
    assert("couchbase"@.len() == 9 && "couchbases"@.len() == 10 && "https"@.len() == 5);
}

/// An explicit port is kept, whatever the host in front of it holds.
pub proof fn lemma_explicit_port_is_kept(raw: Seq<char>, host: Seq<char>, port: u16)
    requires
        host.len() > 0,
        text::split_first(raw, "://"@) == Some(
            ("couchbase"@, host + seq![':'] + number::decimal(port as nat)),
        ),
    ensures
        endpoint(raw) == Ok::<(Seq<char>, u16), Seq<char>>((host, port)),
{
    let digits = number::decimal(port as nat);
    let rest = host + seq![':'] + digits;
    number::lemma_digits_round_trip(port as nat, 10);
    number::lemma_digits_chars(port as nat, 10);
    number::lemma_decimal_has_no_mark(port as nat, ':');
    text::lemma_split_last(host, digits, ':');
    assert(number::digit_value(digits[digits.len() - 1], 10) is Some);
    assert(number::digit_value(digits[0], 10) is Some);
    assert(rest.last() == digits[digits.len() - 1]);
}

/// A host in brackets that no port follows is kept whole.
pub proof fn lemma_bracketed_host_is_whole(raw: Seq<char>, host: Seq<char>)
    requires
        host.len() > 0,
        host.last() == ']',
        text::split_first(raw, "://"@) == Some(("couchbase"@, host)),
    ensures
        endpoint(raw) == Ok::<(Seq<char>, u16), Seq<char>>((host, DEFAULT_KV_PORT)),
{
}

/// The query port that a configuration sets.
pub open spec fn query_port_in(config: Seq<(Seq<char>, Seq<char>)>) -> Result<u16, Seq<char>> {
    match settings::setting(config, "query-port"@) {
        Some(raw) => match number::unsigned(raw, 10, u16::MAX as nat) {
            Some(p) => Ok(p as u16),
            None => Err("config key `query-port` must be a port number, got `"@ + raw + "`"@),
        },
        None => Ok(DEFAULT_QUERY_PORT),
    }
}

fn query_port(config: &[(String, String)]) -> (r: Result<u16, String>)
    ensures
        match r {
            Ok(p) => query_port_in(settings::pairs(config@)) == Ok::<u16, Seq<char>>(p),
            Err(e) => query_port_in(settings::pairs(config@)) == Err::<u16, Seq<char>>(e@),
        },
{
    match settings::get(config, "query-port") {
        Some(raw) => {
            let cs = text::chars_of(raw.as_str());
            match number::parse_unsigned(cs.as_slice(), 10, u16::MAX as u64) {
                Some(p) => Ok(p as u16),
                None => Err(
                    text::joined3(
                        "config key `query-port` must be a port number, got `",
                        raw.as_str(),
                        "`",
                    ),
                ),
            }
        },
        None => Ok(DEFAULT_QUERY_PORT),
    }
}

/// The binding that a configuration describes, or what is wrong with it.
pub open spec fn binding_in(config: Seq<(Seq<char>, Seq<char>)>) -> Result<
    BindingView,
    Seq<char>,
> {
    match settings::setting(config, "endpoint"@) {
        None => Err(settings::missing("endpoint"@)),
        Some(raw) => match endpoint(raw) {
            Err(e) => Err(e),
            Ok((host, port)) => match settings::timeout_in(config) {
                Err(e) => Err(e),
                Ok(timeout_ms) => match query_port_in(config) {
                    Err(e) => Err(e),
                    Ok(query_port) => match (
                        settings::setting(config, "username"@),
                        settings::setting(config, "password"@),
                        settings::setting(config, "bucket"@),
                    ) {
                        (None, _, _) => Err(settings::missing("username"@)),
                        (Some(_), None, _) => Err(settings::missing("password"@)),
                        (Some(_), Some(_), None) => Err(settings::missing("bucket"@)),
                        (Some(username), Some(password), Some(bucket)) => Ok(
                            BindingView {
                                host,
                                port,
                                query_port,
                                username,
                                password,
                                bucket,
                                scope: settings::setting_or(config, "scope"@, "_default"@),
                                collection: settings::setting_or(
                                    config,
                                    "collection"@,
                                    "_default"@,
                                ),
                                timeout_ms,
                            },
                        ),
                    },
                },
            },
        },
    }
}

/// The contents of a validated configuration.
pub open spec fn binding_view(r: Result<Binding, String>) -> Result<BindingView, Seq<char>> {
    match r {
        Ok(b) => Ok(b@),
        Err(e) => Err(e@),
    }
}

impl BindingView {
    /// Everything that decides which cluster, identity and keyspace a
    /// connection serves. The mark that ends a part is masked inside it.
    pub open spec fn key(self) -> Seq<char> {
        text::masked(self.host, '|') + ":"@ + number::decimal(self.port as nat) + "|"@
            + text::masked(self.username, '|') + "|"@ + text::masked(self.bucket, '|') + "|"@
            + text::masked(self.scope, '.') + "."@ + self.collection
    }
}

impl Binding {
    /// Validate one workload's interface config.
    ///
    /// The error names the key at fault.
    pub fn from_config(config: &[(String, String)]) -> (r: Result<Self, String>)
        ensures
            binding_view(r) == binding_in(settings::pairs(config@)),
    {
        let raw = match settings::require(config, "endpoint") {
            Ok(raw) => raw,
            Err(e) => return Err(e),
        };
        let (host, port) = match parse_endpoint(raw.as_str()) {
            Ok(parts) => parts,
            Err(e) => return Err(e),
        };
        let timeout_ms = match settings::timeout_ms(config) {
            Ok(ms) => ms,
            Err(e) => return Err(e),
        };
        let query_port = match query_port(config) {
            Ok(p) => p,
            Err(e) => return Err(e),
        };
        let username = match settings::require(config, "username") {
            Ok(v) => v,
            Err(e) => return Err(e),
        };
        let password = match settings::require(config, "password") {
            Ok(v) => v,
            Err(e) => return Err(e),
        };
        let bucket = match settings::require(config, "bucket") {
            Ok(v) => v,
            Err(e) => return Err(e),
        };
        Ok(
            Self {
                host,
                port,
                query_port,
                username,
                password,
                bucket,
                scope: settings::get_or(config, "scope", "_default"),
                collection: settings::get_or(config, "collection", "_default"),
                timeout_ms,
            },
        )
    }

    /// Everything that decides which cluster and identity a connection serves.
    /// Two workloads matching on all of it share a connection.
    pub fn connection_key(&self) -> (s: String)
        ensures
            s@ == self@.key(),
    {
        let port = number::decimal_text(self.port as u64);
        let host = text::mask(self.host.as_str(), '|');
        let user = text::mask(self.username.as_str(), '|');
        let bucket = text::mask(self.bucket.as_str(), '|');
        let scope = text::mask(self.scope.as_str(), '.');
        let mut s = text::joined3(host.as_str(), ":", port.as_str());
        s.append("|");
        s.append(user.as_str());
        s.append("|");
        s.append(bucket.as_str());
        s.append("|");
        s.append(scope.as_str());
        s.append(".");
        s.append(self.collection.as_str());
        s
    }
}

/// Two bindings share a connection exactly when node, user and keyspace are the
/// same.
pub proof fn lemma_key_is_identity(a: BindingView, b: BindingView)
    ensures
        a.key() == b.key() <==> a.host == b.host && a.port == b.port && a.username == b.username
            && a.bucket == b.bucket && a.scope == b.scope && a.collection == b.collection,
{
    if a.key() == b.key() {
        reveal_strlit("|");
        reveal_strlit(":");
        reveal_strlit(".");
        assert("|"@ =~= seq!['|']);
        assert(":"@ =~= seq![':']);
        assert("."@ =~= seq!['.']);
        let bar = seq!['|'];
        let dot = seq!['.'];
        let colon = seq![':'];
        let pa = number::decimal(a.port as nat);
        let pb = number::decimal(b.port as nat);
        number::lemma_decimal_has_no_mark(a.port as nat, '|');
        number::lemma_decimal_has_no_mark(b.port as nat, '|');
        number::lemma_decimal_has_no_mark(a.port as nat, ':');
        number::lemma_decimal_has_no_mark(b.port as nat, ':');
        let ha = text::masked(a.host, '|');
        let hb = text::masked(b.host, '|');
        let ua = text::masked(a.username, '|');
        let ub = text::masked(b.username, '|');
        let ba = text::masked(a.bucket, '|');
        let bb = text::masked(b.bucket, '|');
        let sa = text::masked(a.scope, '.');
        let sb = text::masked(b.scope, '.');
        text::lemma_masked_clear(a.host, '|');
        text::lemma_masked_clear(b.host, '|');
        text::lemma_masked_clear(a.username, '|');
        text::lemma_masked_clear(b.username, '|');
        text::lemma_masked_clear(a.bucket, '|');
        text::lemma_masked_clear(b.bucket, '|');
        text::lemma_masked_clear(a.scope, '.');
        text::lemma_masked_clear(b.scope, '.');
        let na = ha + colon + pa;
        let nb = hb + colon + pb;
        let ka = sa + dot + a.collection;
        let kb = sb + dot + b.collection;
        let ra = ba + bar + ka;
        let rb = bb + bar + kb;
        let ta = ua + bar + ra;
        let tb = ub + bar + rb;
        assert(a.key() =~= na + bar + ta);
        assert(b.key() =~= nb + bar + tb);
        assert(!na.contains('|'));
        assert(!nb.contains('|'));
        text::lemma_cut_unique(na, ta, nb, tb, '|');
        text::lemma_cut_unique(ua, ra, ub, rb, '|');
        text::lemma_cut_unique(ba, ka, bb, kb, '|');
        text::lemma_cut_unique(sa, a.collection, sb, b.collection, '.');
        text::lemma_last_cut_unique(ha, pa, hb, pb, ':');
        text::lemma_masked_injective(a.host, b.host, '|');
        text::lemma_masked_injective(a.username, b.username, '|');
        text::lemma_masked_injective(a.bucket, b.bucket, '|');
        text::lemma_masked_injective(a.scope, b.scope, '.');
        number::lemma_digits_round_trip(a.port as nat, 10);
        number::lemma_digits_round_trip(b.port as nat, 10);
    }
}

/// A configuration that lacks a required key is refused, whatever else it says;
/// and where nothing else is wrong with it, the message is the one that names
/// the key.
pub proof fn lemma_missing_key_is_named(config: Seq<(Seq<char>, Seq<char>)>, key: Seq<char>)
    requires
        settings::setting(config, key) is None,
        key == "endpoint"@ || key == "username"@ || key == "password"@ || key == "bucket"@,
    ensures
        binding_in(config) is Err,
        (forall|k: Seq<char>|
            k != key && (k == "endpoint"@ || k == "username"@ || k == "password"@ || k == "bucket"@)
                ==> settings::setting(config, k) is Some) && (settings::setting(
            config,
            "endpoint"@,
        ) matches Some(raw) ==> endpoint(raw) is Ok) && settings::timeout_in(config) is Ok && query_port_in(
            config,
        ) is Ok
            ==> binding_in(config) == Err::<BindingView, Seq<char>>(settings::missing(key)),
{
}

} // verus!
