//! The configuration of a workload that reaches its cluster over HTTP.

use vstd::prelude::*;
use vstd::string::*;

use crate::credentials;
use crate::number;
use crate::settings;
use crate::text;

verus! {

/// A validated Couchbase binding for one workload.
#[derive(Debug, PartialEq, Eq)]
pub struct Binding {
    /// `true` when the endpoint is HTTPS. Plain HTTP is allowed so that the
    /// plugin can be pointed at a local cluster.
    pub secure: bool,
    /// `host[:port]` of the Data API endpoint.
    pub authority: String,
    /// Path that the Data API is mounted under, without a trailing slash. Empty
    /// for the usual case where it sits at the root.
    pub base_path: String,
    /// A ready-to-send `Authorization` header value.
    pub authorization: String,
    /// The one bucket this binding may reach.
    pub bucket: String,
    /// Scope used when a call names none.
    pub scope: String,
    /// Collection used when a call names none.
    pub collection: String,
    /// Per-request time limit in milliseconds.
    pub timeout_ms: u32,
}

/// The contents of a [`Binding`].
pub struct BindingView {
    pub secure: bool,
    pub authority: Seq<char>,
    pub base_path: Seq<char>,
    pub authorization: Seq<char>,
    pub bucket: Seq<char>,
    pub scope: Seq<char>,
    pub collection: Seq<char>,
    pub timeout_ms: u32,
}

impl View for Binding {
    type V = BindingView;

    open spec fn view(&self) -> BindingView {
        BindingView {
            secure: self.secure,
            authority: self.authority@,
            base_path: self.base_path@,
            authorization: self.authorization@,
            bucket: self.bucket@,
            scope: self.scope@,
            collection: self.collection@,
            timeout_ms: self.timeout_ms,
        }
    }
}

/// Where an endpoint points: whether to use TLS, the authority, and the path
/// that the service is mounted under.
pub open spec fn mount(secure: bool, rest: Seq<char>) -> Result<
    (bool, Seq<char>, Seq<char>),
    Seq<char>,
> {
    let (authority, path) = match text::split_first(rest, "/"@) {
        Some((authority, path)) => (authority, text::drop_back(path, '/')),
        None => (rest, Seq::empty()),
    };
    if authority.len() == 0 {
        Err("config key `endpoint` has no host"@)
    } else {
        Ok(
            (
                secure,
                authority,
                if path.len() == 0 {
                    Seq::empty()
                } else {
                    "/"@ + path
                },
            ),
        )
    }
}

/// What an endpoint means. Without a scheme it is HTTPS.
pub open spec fn endpoint(raw: Seq<char>) -> Result<(bool, Seq<char>, Seq<char>), Seq<char>> {
    match text::split_first(raw, "://"@) {
        Some((scheme, rest)) => if scheme == "https"@ {
            mount(true, rest)
        } else if scheme == "http"@ {
            mount(false, rest)
        } else {
            Err("config key `endpoint` must use http or https, got scheme `"@ + scheme + "`"@)
        },
        None => mount(true, raw),
    }
}

/// The contents of a parsed endpoint.
pub open spec fn endpoint_view(r: Result<(bool, String, String), String>) -> Result<
    (bool, Seq<char>, Seq<char>),
    Seq<char>,
> {
    match r {
        Ok((secure, authority, base_path)) => Ok((secure, authority@, base_path@)),
        Err(e) => Err(e@),
    }
}

fn parse_mount(secure: bool, rest: &[char]) -> (r: Result<(bool, String, String), String>)
    ensures
        endpoint_view(r) == mount(secure, rest@),
{
    let (authority, path) = match text::split_once(rest, "/") {
        Some((authority, path)) => (authority, text::trim_end_char(path, '/')),
        None => (rest, text::tail(rest, rest.len())),
    };
    assert(rest@.skip(rest@.len() as int) =~= Seq::<char>::empty());
    if authority.len() == 0 {
        return Err("config key `endpoint` has no host".to_string());
    }
    let base_path = if path.len() == 0 {
        String::new()
    } else {
        let path = text::string_of(path);
        text::joined("/", path.as_str())
    };
    Ok((secure, text::string_of(authority), base_path))
}

/// Split an endpoint into `(secure, authority, base_path)`.
///
/// Accepts `https://host`, `http://host:port/prefix`, or a bare `host:port`. A
/// bare authority is HTTPS: defaulting the other way would silently downgrade a
/// misconfigured deployment to plaintext.
pub fn parse_endpoint(raw: &str) -> (r: Result<(bool, String, String), String>)
    ensures
        endpoint_view(r) == endpoint(raw@),
{
    let cs = text::chars_of(raw);
    match text::split_once(cs.as_slice(), "://") {
        Some((scheme, rest)) => {
            if text::is_text(scheme, "https") {
                parse_mount(true, rest)
            } else if text::is_text(scheme, "http") {
                parse_mount(false, rest)
            } else {
                let scheme = text::string_of(scheme);
                Err(
                    text::joined3(
                        "config key `endpoint` must use http or https, got scheme `",
                        scheme.as_str(),
                        "`",
                    ),
                )
            }
        },
        None => parse_mount(true, cs.as_slice()),
    }
}

/// An endpoint without a scheme never means plaintext.
pub proof fn lemma_bare_endpoint_is_secure(raw: Seq<char>)
    requires
        text::split_first(raw, "://"@) is None,
    ensures
        endpoint(raw) matches Ok((secure, _, _)) ==> secure,
{
}

/// The binding that a configuration describes, or what is wrong with it.
pub open spec fn binding_in(config: Seq<(Seq<char>, Seq<char>)>) -> Result<
    BindingView,
    Seq<char>,
> {
    match settings::setting(config, "endpoint"@) {
        None => Err(settings::missing("endpoint"@)),
        Some(raw) => match endpoint(raw) {
            Err(e) => Err(e),
            Ok((secure, authority, base_path)) => match (
                settings::setting(config, "username"@),
                settings::setting(config, "password"@),
            ) {
                (None, _) => Err(settings::missing("username"@)),
                (Some(_), None) => Err(settings::missing("password"@)),
                (Some(username), Some(password)) => match settings::timeout_in(config) {
                    Err(e) => Err(e),
                    Ok(timeout_ms) => match settings::setting(config, "bucket"@) {
                        None => Err(settings::missing("bucket"@)),
                        Some(bucket) => Ok(
                            BindingView {
                                secure,
                                authority,
                                base_path,
                                authorization: credentials::basic(username, password),
                                bucket,
                                scope: settings::setting_or(config, "scope"@, "_default"@),
                                collection: settings::setting_or(
                                    config,
                                    "collection"@,
                                    "_default"@,
                                ),
                                timeout_ms,
                            },
                        ),
                    },
                },
            },
        },
    }
}

/// The contents of a validated configuration.
pub open spec fn binding_view(r: Result<Binding, String>) -> Result<BindingView, Seq<char>> {
    match r {
        Ok(b) => Ok(b@),
        Err(e) => Err(e@),
    }
}

/// The time limit of a call, in milliseconds: the caller's, rounded up, or the
/// binding's when the caller sets none.
pub open spec fn call_timeout(own: u32, timeout_ns: Option<u64>) -> u32 {
    match timeout_ns {
        Some(ns) => if ns == 0 {
            own
        } else {
            number::at_most(number::ceil_div(ns as nat, 1_000_000), u32::MAX as nat) as u32
        },
        None => own,
    }
}

impl Binding {
    /// Validate one workload's interface config into a binding.
    ///
    /// The error names the key at fault.
    pub fn from_config(config: &[(String, String)]) -> (r: Result<Self, String>)
        ensures
            binding_view(r) == binding_in(settings::pairs(config@)),
    {
        let raw = match settings::require(config, "endpoint") {
            Ok(raw) => raw,
            Err(e) => return Err(e),
        };
        let (secure, authority, base_path) = match parse_endpoint(raw.as_str()) {
            Ok(parts) => parts,
            Err(e) => return Err(e),
        };
        let username = match settings::require(config, "username") {
            Ok(v) => v,
            Err(e) => return Err(e),
        };
        let password = match settings::require(config, "password") {
            Ok(v) => v,
            Err(e) => return Err(e),
        };
        let timeout_ms = match settings::timeout_ms(config) {
            Ok(ms) => ms,
            Err(e) => return Err(e),
        };
        let bucket = match settings::require(config, "bucket") {
            Ok(v) => v,
            Err(e) => return Err(e),
        };
        Ok(
            Self {
                secure,
                authority,
                base_path,
                authorization: credentials::basic_authorization(
                    username.as_str(),
                    password.as_str(),
                ),
                bucket,
                scope: settings::get_or(config, "scope", "_default"),
                collection: settings::get_or(config, "collection", "_default"),
                timeout_ms,
            },
        )
    }

    /// The scope a call addresses, falling back to this binding's default.
    pub fn scope_or_default<'a>(&'a self, requested: Option<&'a str>) -> (s: &'a str)
        ensures
            s@ == (match requested {
                Some(r) => if r@.len() > 0 {
                    r@
                } else {
                    self.scope@
                },
                None => self.scope@,
            }),
    {
        match requested {
            Some(r) => {
                let cs = text::chars_of(r);
                if cs.len() > 0 {
                    r
                } else {
                    self.scope.as_str()
                }
            },
            None => self.scope.as_str(),
        }
    }

    /// The collection a call addresses, falling back to this binding's default.
    pub fn collection_or_default<'a>(&'a self, requested: Option<&'a str>) -> (s: &'a str)
        ensures
            s@ == (match requested {
                Some(r) => if r@.len() > 0 {
                    r@
                } else {
                    self.collection@
                },
                None => self.collection@,
            }),
    {
        match requested {
            Some(r) => {
                let cs = text::chars_of(r);
                if cs.len() > 0 {
                    r
                } else {
                    self.collection.as_str()
                }
            },
            None => self.collection.as_str(),
        }
    }

    /// A copy of this binding with a call's own time limit, where the call sets
    /// one.
    pub fn with_timeout_ns(&self, timeout_ns: Option<u64>) -> (b: Self)
        ensures
            b@ == (BindingView { timeout_ms: call_timeout(self.timeout_ms, timeout_ns), ..self@ }),
    {
        let timeout_ms = match timeout_ns {
            Some(ns) => if ns == 0 {
                self.timeout_ms
            } else {
                number::milliseconds(ns)
            },
            None => self.timeout_ms,
        };
        self.with_timeout_ms(timeout_ms)
    }

    /// A copy of this binding with another time limit.
    pub fn with_timeout_ms(&self, timeout_ms: u32) -> (b: Self)
        ensures
            b@ == (BindingView { timeout_ms, ..self@ }),
    {
        Binding {
            secure: self.secure,
            authority: self.authority.clone(),
            base_path: self.base_path.clone(),
            authorization: self.authorization.clone(),
            bucket: self.bucket.clone(),
            scope: self.scope.clone(),
            collection: self.collection.clone(),
            timeout_ms,
        }
    }
}

/// A configuration that lacks a required key is refused, whatever else it says;
/// and where nothing else is wrong with it, the message is the one that names
/// the key.
pub proof fn lemma_missing_key_is_named(config: Seq<(Seq<char>, Seq<char>)>, key: Seq<char>)
    requires
        settings::setting(config, key) is None,
        key == "endpoint"@ || key == "username"@ || key == "password"@ || key == "bucket"@,
    ensures
        binding_in(config) is Err,
        (forall|k: Seq<char>|
            k != key && (k == "endpoint"@ || k == "username"@ || k == "password"@ || k == "bucket"@)
                ==> settings::setting(config, k) is Some) && (settings::setting(
            config,
            "endpoint"@,
        ) matches Some(raw) ==> endpoint(raw) is Ok) && settings::timeout_in(config) is Ok
            ==> binding_in(config) == Err::<BindingView, Seq<char>>(settings::missing(key)),
{
}

} // verus!
