//! The server's handshake descriptor, read out of the JSON text of an INFO
//! frame.
//!
//! The JSON document itself is parsed by `serde_json`; the trusted items
//! below declare its `Value` type and the accessors this module calls.  A
//! `Value` is opaque here, but the parse and each accessor depend on their
//! arguments alone, so their results carry names (`json_doc_of`,
//! `json_member_of`, ...).  Over those names the decode is exact: a
//! missing field falls back to its default, a field of the wrong type
//! rejects the whole document — as a derived deserializer would — and
//! `info_post` pins every field of an accepted descriptor.

use vstd::prelude::*;

verus! {

/// Information sent by the server during the initial handshake, and
/// possibly again later.  The core acts on `tls_required` and `host`
/// alone; the rest is parsed and retained.
#[derive(Clone, Debug, PartialEq)]
pub struct ServerInfo {
    /// The unique identifier of the server.
    pub server_id: String,
    /// Generated server name.
    pub server_name: String,
    /// The host the server reports for itself; used as the TLS server name
    /// when valid.
    pub host: String,
    /// The port the server reports.
    pub port: u16,
    /// The server's version.
    pub version: String,
    /// Whether the client should try to authenticate upon connect.
    pub auth_required: bool,
    /// Whether the server requires TLS.
    pub tls_required: bool,
    /// Maximum payload size the server accepts.
    pub max_payload: u64,
    /// The protocol version in use.
    pub proto: i8,
    /// The server-assigned client identifier.
    pub client_id: u64,
    /// The version of golang the server was built with.
    pub go: String,
    /// The nonce used for nkeys.
    pub nonce: String,
    /// Server urls a client may connect to.
    pub connect_urls: Vec<String>,
    /// The client IP as known by the server.
    pub client_ip: String,
    /// Whether the server supports headers.
    pub headers: bool,
    /// Whether the server goes into lame duck mode.
    pub lame_duck_mode: bool,
}

#[verifier::external_type_specification]
#[verifier::external_body]
pub struct ExJsonValue(serde_json::Value);

/// What `serde_json::from_slice::<Value>` parses the bytes as, or `None`
/// where they are not valid UTF-8 JSON.
pub uninterp spec fn json_doc_of(b: Seq<u8>) -> Option<serde_json::Value>;

/// Whether `serde_json::Value::is_object` holds of the document.
pub uninterp spec fn json_is_object_of(v: serde_json::Value) -> bool;

/// What `serde_json::Value::get` finds at a key: `None` when the key is
/// absent or the value is not an object.
pub uninterp spec fn json_member_of(v: serde_json::Value, key: Seq<char>) -> Option<
    serde_json::Value,
>;

/// What `serde_json::Value::as_bool` reads out of a JSON boolean.
pub uninterp spec fn json_bool_of(v: serde_json::Value) -> Option<bool>;

/// What `serde_json::Value::as_u64` reads out of a JSON number that is a
/// non-negative integer fitting `u64`.
pub uninterp spec fn json_u64_of(v: serde_json::Value) -> Option<u64>;

/// What `serde_json::Value::as_i64` reads out of a JSON number that is an
/// integer fitting `i64`.
pub uninterp spec fn json_i64_of(v: serde_json::Value) -> Option<i64>;

/// What `serde_json::Value::as_str` reads out of a JSON string.
pub uninterp spec fn json_string_of(v: serde_json::Value) -> Option<Seq<char>>;

/// What `serde_json::Value::as_array` reads out of a JSON array.
pub uninterp spec fn json_array_of(v: serde_json::Value) -> Option<Seq<serde_json::Value>>;

/// Relies on `serde_json::from_slice::<Value>`: returns the parsed JSON
/// document, or `None` when the bytes are not valid UTF-8 JSON.
#[verifier::external_body]
fn json_parse(b: &Vec<u8>) -> (r: Option<serde_json::Value>)
    ensures
        r == json_doc_of(b@),
{
    serde_json::from_slice(b).ok()
}

/// Relies on `serde_json::Value::is_object`: whether the document is a
/// JSON object.
#[verifier::external_body]
fn json_is_object(v: &serde_json::Value) -> (r: bool)
    ensures
        r == json_is_object_of(*v),
{
    v.is_object()
}

/// Relies on `serde_json::Value::get`: the value at a key of an object, or
/// `None` when absent or when `v` is not an object.
#[verifier::external_body]
fn json_get<'a>(v: &'a serde_json::Value, key: &str) -> (r: Option<&'a serde_json::Value>)
    ensures
        match r {
            Some(x) => json_member_of(*v, key@) == Some(*x),
            None => json_member_of(*v, key@) is None,
        },
{
    v.get(key)
}

/// Relies on `serde_json::Value::as_bool`: the value of a JSON boolean.
#[verifier::external_body]
fn json_as_bool(v: &serde_json::Value) -> (r: Option<bool>)
    ensures
        r == json_bool_of(*v),
{
    v.as_bool()
}

/// Relies on `serde_json::Value::as_u64`: the value of a JSON number that
/// is a non-negative integer fitting `u64`.
#[verifier::external_body]
fn json_as_u64(v: &serde_json::Value) -> (r: Option<u64>)
    ensures
        r == json_u64_of(*v),
{
    v.as_u64()
}

/// Relies on `serde_json::Value::as_i64`: the value of a JSON number that
/// is an integer fitting `i64`.
#[verifier::external_body]
fn json_as_i64(v: &serde_json::Value) -> (r: Option<i64>)
    ensures
        r == json_i64_of(*v),
{
    v.as_i64()
}

/// Relies on `serde_json::Value::as_str`: the contents of a JSON string.
#[verifier::external_body]
fn json_as_string(v: &serde_json::Value) -> (r: Option<String>)
    ensures
        match r {
            Some(s) => json_string_of(*v) == Some(s@),
            None => json_string_of(*v) is None,
        },
{
    v.as_str().map(|s| s.to_string())
}

/// Relies on `serde_json::Value::as_array`: the elements of a JSON array.
#[verifier::external_body]
fn json_as_array(v: &serde_json::Value) -> (r: Option<Vec<serde_json::Value>>)
    ensures
        match r {
            Some(items) => json_array_of(*v) == Some(items@),
            None => json_array_of(*v) is None,
        },
{
    v.as_array().map(|a| a.clone())
}

// --- The decode, stated over the names ------------------------------------

/// A boolean field: its default when absent, its value when a boolean,
/// rejection otherwise.
pub open spec fn spec_get_bool(doc: serde_json::Value, key: Seq<char>, default: bool) -> Option<
    bool,
> {
    match json_member_of(doc, key) {
        None => Some(default),
        Some(x) => json_bool_of(x),
    }
}

/// An unsigned field, defaulting to zero.
pub open spec fn spec_get_u64(doc: serde_json::Value, key: Seq<char>) -> Option<u64> {
    match json_member_of(doc, key) {
        None => Some(0),
        Some(x) => json_u64_of(x),
    }
}

/// A signed field, defaulting to zero.
pub open spec fn spec_get_i64(doc: serde_json::Value, key: Seq<char>) -> Option<i64> {
    match json_member_of(doc, key) {
        None => Some(0),
        Some(x) => json_i64_of(x),
    }
}

/// A string field, defaulting to the empty string.
pub open spec fn spec_get_string(doc: serde_json::Value, key: Seq<char>) -> Option<Seq<char>> {
    match json_member_of(doc, key) {
        None => Some(Seq::empty()),
        Some(x) => json_string_of(x),
    }
}

/// The elements of an array read as strings; rejection if any is not a
/// string.
pub open spec fn strings_of(items: Seq<serde_json::Value>) -> Option<Seq<Seq<char>>>
    decreases items.len(),
{
    if items.len() == 0 {
        Some(Seq::empty())
    } else {
        match json_string_of(items[0]) {
            None => None,
            Some(s) => match strings_of(items.drop_first()) {
                None => None,
                Some(t) => Some(seq![s] + t),
            },
        }
    }
}

/// A string-list field, defaulting to the empty list.
pub open spec fn spec_get_strings(doc: serde_json::Value, key: Seq<char>) -> Option<
    Seq<Seq<char>>,
> {
    match json_member_of(doc, key) {
        None => Some(Seq::empty()),
        Some(x) => match json_array_of(x) {
            None => None,
            Some(items) => strings_of(items),
        },
    }
}

/// When the document is accepted as a descriptor: it is an object, every
/// present field has the right type, and port and proto fit their fields.
pub open spec fn spec_info_accepted(doc: serde_json::Value) -> bool {
    &&& json_is_object_of(doc)
    &&& spec_get_u64(doc, "port"@) matches Some(p) && p <= 65535
    &&& spec_get_i64(doc, "proto"@) matches Some(p) && -128 <= p <= 127
    &&& spec_get_string(doc, "server_id"@) is Some
    &&& spec_get_string(doc, "server_name"@) is Some
    &&& spec_get_string(doc, "host"@) is Some
    &&& spec_get_string(doc, "version"@) is Some
    &&& spec_get_bool(doc, "auth_required"@, false) is Some
    &&& spec_get_bool(doc, "tls_required"@, false) is Some
    &&& spec_get_u64(doc, "max_payload"@) is Some
    &&& spec_get_u64(doc, "client_id"@) is Some
    &&& spec_get_string(doc, "go"@) is Some
    &&& spec_get_string(doc, "nonce"@) is Some
    &&& spec_get_strings(doc, "connect_urls"@) is Some
    &&& spec_get_string(doc, "client_ip"@) is Some
    &&& spec_get_bool(doc, "headers"@, false) is Some
    &&& spec_get_bool(doc, "lame_duck_mode"@, false) is Some
}

/// The descriptor an accepted document decodes to, field by field.
pub open spec fn info_matches(doc: serde_json::Value, si: ServerInfo) -> bool {
    &&& spec_get_string(doc, "server_id"@) matches Some(s) && si.server_id@ == s
    &&& spec_get_string(doc, "server_name"@) matches Some(s) && si.server_name@ == s
    &&& spec_get_string(doc, "host"@) matches Some(s) && si.host@ == s
    &&& spec_get_u64(doc, "port"@) matches Some(p) && si.port == p as u16
    &&& spec_get_string(doc, "version"@) matches Some(s) && si.version@ == s
    &&& spec_get_bool(doc, "auth_required"@, false) matches Some(x) && si.auth_required == x
    &&& spec_get_bool(doc, "tls_required"@, false) matches Some(x) && si.tls_required == x
    &&& spec_get_u64(doc, "max_payload"@) matches Some(p) && si.max_payload == p
    &&& spec_get_i64(doc, "proto"@) matches Some(p) && si.proto == p as i8
    &&& spec_get_u64(doc, "client_id"@) matches Some(p) && si.client_id == p
    &&& spec_get_string(doc, "go"@) matches Some(s) && si.go@ == s
    &&& spec_get_string(doc, "nonce"@) matches Some(s) && si.nonce@ == s
    &&& spec_get_strings(doc, "connect_urls"@) matches Some(l) && si.connect_urls.deep_view() == l
    &&& spec_get_string(doc, "client_ip"@) matches Some(s) && si.client_ip@ == s
    &&& spec_get_bool(doc, "headers"@, false) matches Some(x) && si.headers == x
    &&& spec_get_bool(doc, "lame_duck_mode"@, false) matches Some(x) && si.lame_duck_mode == x
}

/// What decoding the INFO text yields: rejection exactly when the bytes
/// are not a JSON object or a field has the wrong type or range, and on
/// acceptance a descriptor whose every field matches the document.
pub open spec fn info_post(b: Seq<u8>, r: Option<ServerInfo>) -> bool {
    match json_doc_of(b) {
        None => r is None,
        Some(doc) => match r {
            None => !spec_info_accepted(doc),
            Some(si) => spec_info_accepted(doc) && info_matches(doc, si),
        },
    }
}

fn get_bool(v: &serde_json::Value, key: &str, default: bool) -> (r: Option<bool>)
    ensures
        r == spec_get_bool(*v, key@, default),
{
    match json_get(v, key) {
        None => Some(default),
        Some(x) => json_as_bool(x),
    }
}

fn get_u64(v: &serde_json::Value, key: &str) -> (r: Option<u64>)
    ensures
        r == spec_get_u64(*v, key@),
{
    match json_get(v, key) {
        None => Some(0),
        Some(x) => json_as_u64(x),
    }
}

fn get_i64(v: &serde_json::Value, key: &str) -> (r: Option<i64>)
    ensures
        r == spec_get_i64(*v, key@),
{
    match json_get(v, key) {
        None => Some(0),
        Some(x) => json_as_i64(x),
    }
}

fn get_string(v: &serde_json::Value, key: &str) -> (r: Option<String>)
    ensures
        match r {
            Some(s) => spec_get_string(*v, key@) == Some(s@),
            None => spec_get_string(*v, key@) is None,
        },
{
    match json_get(v, key) {
        None => {
            let empty = String::new();
            Some(empty)
        },
        Some(x) => json_as_string(x),
    }
}

fn get_string_list(v: &serde_json::Value, key: &str) -> (r: Option<Vec<String>>)
    ensures
        match r {
            Some(l) => spec_get_strings(*v, key@) == Some(l.deep_view()),
            None => spec_get_strings(*v, key@) is None,
        },
{
    match json_get(v, key) {
        None => {
            let out: Vec<String> = Vec::new();
            proof {
                assert(out.deep_view() =~= Seq::<Seq<char>>::empty());
            }
            Some(out)
        },
        Some(x) => match json_as_array(x) {
            None => None,
            Some(items) => {
                let mut out: Vec<String> = Vec::new();
                let mut i: usize = 0;
                proof {
                    assert(items@.skip(0) =~= items@);
                    assert(out.deep_view() =~= Seq::<Seq<char>>::empty());
                    match strings_of(items@) {
                        Some(t) => {
                            assert(Seq::<Seq<char>>::empty() + t =~~= t);
                        },
                        None => {},
                    }
                }
                while i < items.len()
                    invariant
                        0 <= i <= items@.len(),
                        json_member_of(*v, key@) matches Some(m) && m == *x,
                        json_array_of(*x) == Some(items@),
                        match strings_of(items@.skip(i as int)) {
                            Some(t) => strings_of(items@) == Some(out.deep_view() + t),
                            None => strings_of(items@) is None,
                        },
                    decreases items@.len() - i,
                {
                    proof {
                        assert(items@.skip(i as int)[0] == items@[i as int]);
                        assert(items@.skip(i as int).drop_first() =~= items@.skip(i + 1));
                    }
                    match json_as_string(&items[i]) {
                        None => {
                            proof {
                                assert(items@.skip(i as int).len() > 0);
                                assert(json_string_of(items@.skip(i as int)[0]) is None);
                                assert(strings_of(items@.skip(i as int)) is None);
                            }
                            return None;
                        },
                        Some(s) => {
                            let ghost prev = out.deep_view();
                            out.push(s);
                            proof {
                                assert(out.deep_view() =~~= prev.push(s@));
                                match strings_of(items@.skip(i + 1)) {
                                    Some(t) => {
                                        assert(strings_of(items@.skip(i as int)) == Some(
                                            seq![s@] + t,
                                        ));
                                        assert(prev + (seq![s@] + t) =~~= (prev.push(s@)) + t);
                                    },
                                    None => {},
                                }
                            }
                        },
                    }
                    i = i + 1;
                }
                proof {
                    assert(items@.skip(items@.len() as int) =~= Seq::<serde_json::Value>::empty());
                    assert(out.deep_view() + Seq::<Seq<char>>::empty() =~~= out.deep_view());
                }
                Some(out)
            },
        },
    }
}

/// Reads a `ServerInfo` out of the JSON text of an INFO line.  Absent
/// fields default; a document that is not an object, or a field of the
/// wrong type or range, rejects the whole text; an accepted descriptor's
/// fields are exactly what the named accessors give the document.
#[verifier::rlimit(50)]
pub(crate) fn parse_server_info(b: &Vec<u8>) -> (r: Option<ServerInfo>)
    ensures
        info_post(b@, r),
{
    let doc = match json_parse(b) {
        None => {
            return None;
        },
        Some(d) => d,
    };
    if !json_is_object(&doc) {
        return None;
    }
    let port64 = match get_u64(&doc, "port") {
        None => {
            return None;
        },
        Some(p) => p,
    };
    if port64 > 65535 {
        return None;
    }
    let proto64 = match get_i64(&doc, "proto") {
        None => {
            return None;
        },
        Some(p) => p,
    };
    if proto64 > 127 || proto64 < -128 {
        return None;
    }
    Some(
        ServerInfo {
            server_id: get_string(&doc, "server_id")?,
            server_name: get_string(&doc, "server_name")?,
            host: get_string(&doc, "host")?,
            port: port64 as u16,
            version: get_string(&doc, "version")?,
            auth_required: get_bool(&doc, "auth_required", false)?,
            tls_required: get_bool(&doc, "tls_required", false)?,
            max_payload: get_u64(&doc, "max_payload")?,
            proto: proto64 as i8,
            client_id: get_u64(&doc, "client_id")?,
            go: get_string(&doc, "go")?,
            nonce: get_string(&doc, "nonce")?,
            connect_urls: get_string_list(&doc, "connect_urls")?,
            client_ip: get_string(&doc, "client_ip")?,
            headers: get_bool(&doc, "headers", false)?,
            lame_duck_mode: get_bool(&doc, "lame_duck_mode", false)?,
        },
    )
}

} // verus!
