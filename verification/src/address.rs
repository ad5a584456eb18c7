//! Addresses of servers: `host[:port]` with an assumed `nats` scheme, or
//! a URL with scheme `nats` (plain TCP) or `tls` (TLS required).
//!
//! The URL itself is taken apart by the `url` crate behind one trusted
//! wrapper that hands back plain parts; everything decided on those parts
//! — the accepted schemes, the TLS flag, the default port — is verified
//! here.

use vstd::prelude::*;
use vstd::string::{StrSliceExecFns, StringExecFns};
use crate::error::ClientError;

verus! {

/// The plain parts of a parsed URL.
pub struct UrlParts {
    /// The scheme, lower-cased by the parser.
    pub scheme: String,
    /// The host, if the URL has one.
    pub host: Option<String>,
    /// The port, if one was written.
    pub port: Option<u16>,
    /// The user name; empty when none was written.
    pub username: String,
    /// The password, if one was written.
    pub password: Option<String>,
}

/// The parts `url::Url::parse` extracts from a text, or `None` where the
/// text is not a valid URL.  The parse depends on the text alone, so its
/// result can be named, though not written out.
pub uninterp spec fn url_parts_of(s: Seq<char>) -> Option<UrlParts>;

/// Relies on `url::Url::parse` and the accessors `scheme`, `host_str`,
/// `port`, `username` and `password`: parses an absolute URL and hands
/// its parts back as plain values, or `None` where the text is not a
/// valid URL.
#[verifier::external_body]
fn url_parse(s: &str) -> (r: Option<UrlParts>)
    ensures
        r == url_parts_of(s@),
{
    let u = url::Url::parse(s).ok()?;
    Some(
        UrlParts {
            scheme: u.scheme().to_string(),
            host: u.host_str().map(|h| h.to_string()),
            port: u.port(),
            username: u.username().to_string(),
            password: u.password().map(|p| p.to_string()),
        },
    )
}

/// Byte-wise string equality, which for UTF-8 is character equality.
fn str_eq(a: &str, b: &str) -> (r: bool)
    ensures
        r == (a@ == b@),
{
    let av = StrSliceExecFns::as_bytes_vec(a);
    let bv = StrSliceExecFns::as_bytes_vec(b);
    if av.len() != bv.len() {
        proof {
            if a@ == b@ {
                assert(av@ == bv@);
            }
        }
        return false;
    }
    let mut i: usize = 0;
    while i < av.len()
        invariant
            0 <= i <= av@.len(),
            av@.len() == bv@.len(),
            av@ == vstd::utf8::encode_utf8(a@),
            bv@ == vstd::utf8::encode_utf8(b@),
            forall|j: int| 0 <= j < i ==> av@[j] == bv@[j],
        decreases av@.len() - i,
    {
        if av[i] != bv[i] {
            proof {
                if a@ == b@ {
                    assert(av@ == bv@);
                    assert(av@[i as int] == bv@[i as int]);
                }
            }
            return false;
        }
        i = i + 1;
    }
    proof {
        assert(av@ =~= bv@);
        vstd::utf8::encode_utf8_decode_utf8(a@);
        vstd::utf8::encode_utf8_decode_utf8(b@);
    }
    true
}

/// Whether the text contains `://` somewhere.
pub open spec fn has_scheme_sep(b: Seq<u8>) -> bool {
    exists|i: int|
        0 <= i && i + 3 <= b.len() && #[trigger] b[i] == 58 && b[i + 1] == 47 && b[i + 2] == 47
}

fn contains_scheme_sep(s: &str) -> (r: bool)
    ensures
        r == has_scheme_sep(vstd::utf8::encode_utf8(s@)),
{
    let b = StrSliceExecFns::as_bytes_vec(s);
    if b.len() < 3 {
        return false;
    }
    let n = b.len();
    let mut i: usize = 0;
    while i < n - 2
        invariant
            0 <= i <= n,
            n >= 3,
            n == b@.len(),
            b@ == vstd::utf8::encode_utf8(s@),
            forall|j: int| 0 <= j < i ==> !(#[trigger] b@[j] == 58 && b@[j + 1] == 47 && b@[j + 2]
                == 47),
        decreases n - i,
    {
        if b[i] == 58 && b[i + 1] == 47 && b[i + 2] == 47 {
            return true;
        }
        i = i + 1;
    }
    false
}

/// The text an address is parsed as: itself when it already carries a
/// scheme, else prefixed with `nats://`.
pub open spec fn addr_text(input: Seq<char>) -> Seq<char> {
    if has_scheme_sep(vstd::utf8::encode_utf8(input)) {
        input
    } else {
        "nats://"@ + input
    }
}

/// What `from_url` returns for given URL parts: an address carrying the
/// parts' host, port and credentials, with TLS demanded exactly by the
/// `tls` scheme; the one error, `AddressInvalid`, exactly when the scheme
/// is neither `nats` nor `tls` or the host is missing.
pub open spec fn from_url_post(parts: UrlParts, r: Result<ServerAddr, ClientError>) -> bool {
    match r {
        Ok(addr) => (parts.scheme@ == "nats"@ || parts.scheme@ == "tls"@) && match parts.host {
            Some(h) => addr.spec_host() == h@,
            None => false,
        } && addr.spec_tls() == (parts.scheme@ == "tls"@) && addr.spec_port() == parts.port
            && addr.spec_username() == parts.username@ && addr.spec_password() == parts.password,
        Err(e) => e == ClientError::AddressInvalid && !((parts.scheme@ == "nats"@ || parts.scheme@
            == "tls"@) && parts.host is Some),
    }
}

/// Address of a server: the TLS demand of its scheme, its host and
/// optional explicit port, and any credentials embedded in the URL.
#[derive(Clone, Debug)]
pub struct ServerAddr {
    tls: bool,
    host: String,
    port: Option<u16>,
    username: String,
    password: Option<String>,
}

impl ServerAddr {
    /// Whether the scheme was `tls`.
    pub closed spec fn spec_tls(&self) -> bool {
        self.tls
    }

    pub closed spec fn spec_host(&self) -> Seq<char> {
        self.host@
    }

    pub closed spec fn spec_port(&self) -> Option<u16> {
        self.port
    }

    pub closed spec fn spec_username(&self) -> Seq<char> {
        self.username@
    }

    pub closed spec fn spec_password(&self) -> Option<String> {
        self.password
    }

    /// Accepts the parts of a URL as a server address: the scheme must be
    /// `nats` or `tls` and a host must be present, else the address is
    /// invalid.
    pub fn from_url(parts: UrlParts) -> (r: Result<ServerAddr, ClientError>)
        ensures
            from_url_post(parts, r),
    {
        let is_nats = str_eq(parts.scheme.as_str(), "nats");
        let is_tls = str_eq(parts.scheme.as_str(), "tls");
        if !is_nats && !is_tls {
            return Err(ClientError::AddressInvalid);
        }
        match parts.host {
            None => Err(ClientError::AddressInvalid),
            Some(h) => Ok(
                ServerAddr {
                    tls: is_tls,
                    host: h,
                    port: parts.port,
                    username: parts.username,
                    password: parts.password,
                },
            ),
        }
    }

    /// Parses an address.  An input without `://` gets the plain scheme:
    /// it is read as `nats://` followed by the input, so a bare
    /// `host[:port]` defaults to scheme `nats` and (through `port`) to
    /// port 4222.  The text the URL parser accepts is its own affair —
    /// the named `url_parts_of` — and on its parts the scheme and host
    /// rules of `from_url` decide, preserving host, port, user name and
    /// password.
    pub fn from_str(input: &str) -> (r: Result<ServerAddr, ClientError>)
        ensures
            match url_parts_of(addr_text(input@)) {
                None => r == Err::<ServerAddr, _>(ClientError::AddressInvalid),
                Some(parts) => from_url_post(parts, r),
            },
    {
        let text = if contains_scheme_sep(input) {
            String::from_str(input)
        } else {
            let prefix = String::from_str("nats://");
            prefix.concat(input)
        };
        match url_parse(text.as_str()) {
            None => Err(ClientError::AddressInvalid),
            Some(parts) => ServerAddr::from_url(parts),
        }
    }

    /// Turns the address back into the plain parts of its URL.
    pub fn into_inner(self) -> (r: UrlParts)
        ensures
            r.scheme@ == (if self.spec_tls() {
                "tls"@
            } else {
                "nats"@
            }),
            r.host matches Some(h) && h@ == self.spec_host(),
            r.port == self.spec_port(),
            r.username@ == self.spec_username(),
            r.password == self.spec_password(),
    {
        UrlParts {
            scheme: if self.tls {
                String::from_str("tls")
            } else {
                String::from_str("nats")
            },
            host: Some(self.host),
            port: self.port,
            username: self.username,
            password: self.password,
        }
    }

    /// Whether the client must use TLS for this server.
    pub fn tls_required(&self) -> (r: bool)
        ensures
            r == self.spec_tls(),
    {
        self.tls
    }

    /// Whether the URL embedded a user name.
    pub fn has_user_pass(&self) -> (r: bool)
        ensures
            r == (self.spec_username().len() != 0),
    {
        self.username.as_str().unicode_len() != 0
    }

    /// The host.
    pub fn host(&self) -> (r: &str)
        ensures
            r@ == self.spec_host(),
    {
        self.host.as_str()
    }

    /// The port, defaulting to 4222.
    pub fn port(&self) -> (r: u16)
        ensures
            r == (match self.spec_port() {
                Some(p) => p,
                None => 4222u16,
            }),
    {
        match self.port {
            Some(p) => p,
            None => 4222,
        }
    }

    /// The user name embedded in the URL, if any.
    pub fn username(&self) -> (r: Option<String>)
        ensures
            match r {
                Some(u) => self.spec_username().len() != 0 && u@ == self.spec_username(),
                None => self.spec_username().len() == 0,
            },
    {
        if self.username.as_str().unicode_len() == 0 {
            None
        } else {
            Some(self.username.clone())
        }
    }

    /// The password embedded in the URL, if any.
    pub fn password(&self) -> (r: Option<String>)
        ensures
            r == self.spec_password(),
    {
        self.password.clone()
    }
}

} // verus!
