//! The CONNECT handshake payload and the connection options the core
//! consumes.

use vstd::prelude::*;
use vstd::string::StringExecFns;

verus! {

/// Protocol version announced in CONNECT.
#[derive(Clone, Copy, Debug, PartialEq, Eq, Structural)]
pub enum Protocol {
    /// Original protocol.
    Original,
    /// Protocol with dynamic reconfiguration of cluster topology and lame
    /// duck mode notifications.
    Dynamic,
}

/// The number a `Protocol` is written as in the CONNECT JSON payload.
pub open spec fn protocol_number(p: Protocol) -> int {
    match p {
        Protocol::Original => 0,
        Protocol::Dynamic => 1,
    }
}

/// Info to construct a CONNECT frame's JSON payload.
#[derive(Clone, Debug)]
pub struct ConnectInfo {
    /// Turns on +OK protocol acknowledgements.
    pub verbose: bool,
    /// Turns on additional strict format checking.
    pub pedantic: bool,
    /// User's JWT.
    pub user_jwt: Option<String>,
    /// Public nkey.
    pub nkey: Option<String>,
    /// Signed nonce.
    pub signature: Option<String>,
    /// Optional client name.
    pub name: Option<String>,
    /// Whether the server should echo this connection's messages back to
    /// its own subscriptions.
    pub echo: bool,
    /// The implementation language of the client.
    pub lang: String,
    /// The version of the client.
    pub version: String,
    /// Protocol version announced to the server.
    pub protocol: Protocol,
    /// Whether the client requires TLS.
    pub tls_required: bool,
    /// Connection username.
    pub user: Option<String>,
    /// Connection password.
    pub pass: Option<String>,
    /// Client authorization token.
    pub auth_token: Option<String>,
    /// Whether the client supports headers.
    pub headers: bool,
    /// Whether the client supports no_responders.
    pub no_responders: bool,
}

/// Already-validated connection options, as the core consumes them.
/// Intervals are in milliseconds; the tasks that sleep on them run outside
/// this crate.
#[derive(Clone, Debug)]
pub struct ConnectOptions {
    /// Force TLS even if neither the server nor the address demands it.
    pub tls_required: bool,
    /// How often a PING is enqueued.
    pub ping_interval_ms: u64,
    /// How often a TryFlush is enqueued.
    pub flush_interval_ms: u64,
    /// Optional client name, forwarded into CONNECT.
    pub name: Option<String>,
    /// Credentials, forwarded verbatim into CONNECT.
    pub user: Option<String>,
    /// Credentials, forwarded verbatim into CONNECT.
    pub pass: Option<String>,
    /// Credentials, forwarded verbatim into CONNECT.
    pub auth_token: Option<String>,
    /// Credentials, forwarded verbatim into CONNECT.
    pub user_jwt: Option<String>,
    /// Credentials, forwarded verbatim into CONNECT.
    pub nkey: Option<String>,
    /// Credentials, forwarded verbatim into CONNECT.
    pub signature: Option<String>,
}

impl Default for ConnectOptions {
    /// Plain TCP, a PING every minute, a TryFlush every tenth of a second,
    /// no name and no credentials.
    fn default() -> (r: ConnectOptions)
        ensures
            !r.tls_required,
            r.ping_interval_ms == 60000,
            r.flush_interval_ms == 100,
            r.name is None && r.user is None && r.pass is None && r.auth_token is None,
            r.user_jwt is None && r.nkey is None && r.signature is None,
    {
        ConnectOptions {
            tls_required: false,
            ping_interval_ms: 60000,
            flush_interval_ms: 100,
            name: None,
            user: None,
            pass: None,
            auth_token: None,
            user_jwt: None,
            nkey: None,
            signature: None,
        }
    }
}

/// The CONNECT payload announced for the given options: protocol
/// `Dynamic`, echo, header and no_responders support on, and the
/// caller's name, TLS demand and credentials forwarded verbatim.
pub fn connect_info_for(options: &ConnectOptions) -> (r: ConnectInfo)
    ensures
        !r.verbose && !r.pedantic,
        r.user_jwt == options.user_jwt,
        r.nkey == options.nkey,
        r.signature == options.signature,
        r.name == options.name,
        r.echo,
        r.lang@ == "rust"@,
        r.version@ == "0.1.0"@,
        r.protocol == Protocol::Dynamic,
        r.tls_required == options.tls_required,
        r.user == options.user,
        r.pass == options.pass,
        r.auth_token == options.auth_token,
        r.headers,
        r.no_responders,
{
    ConnectInfo {
        verbose: false,
        pedantic: false,
        user_jwt: options.user_jwt.clone(),
        nkey: options.nkey.clone(),
        signature: options.signature.clone(),
        name: options.name.clone(),
        echo: true,
        lang: String::from_str("rust"),
        version: String::from_str("0.1.0"),
        protocol: Protocol::Dynamic,
        tls_required: options.tls_required,
        user: options.user.clone(),
        pass: options.pass.clone(),
        auth_token: options.auth_token.clone(),
        headers: true,
        no_responders: true,
    }
}

/// Whether the connection must be upgraded to TLS: the caller forces it,
/// or the server reports it, or the address scheme implies it.
pub fn tls_upgrade_required(caller: bool, server: bool, addr: bool) -> (r: bool)
    ensures
        r == (caller || server || addr),
{
    caller || server || addr
}

/// The handshake's first rule: the first frame read after dialing must be
/// INFO.  Anything else — or the stream ending before any frame — fails
/// the connect.
pub fn expect_info(op: Option<crate::codec::ServerOp>) -> (r: Result<
    crate::info::ServerInfo,
    crate::error::ClientError,
>)
    ensures
        match op {
            Some(crate::codec::ServerOp::Info(si)) => r == Ok::<_, crate::error::ClientError>(si),
            _ => r == Err::<crate::info::ServerInfo, _>(
                crate::error::ClientError::HandshakeUnexpected,
            ),
        },
{
    match op {
        Some(crate::codec::ServerOp::Info(si)) => Ok(si),
        _ => Err(crate::error::ClientError::HandshakeUnexpected),
    }
}

/// An inbox subject: the fixed prefix `_INBOX.` with a unique suffix the
/// caller provides.
pub fn inbox_name(suffix: &str) -> (r: String)
    ensures
        r@ == "_INBOX."@ + suffix@,
{
    let prefix = String::from_str("_INBOX.");
    prefix.concat(suffix)
}

// --- The CONNECT frame's JSON payload -------------------------------------
//
// The payload is a single flat object whose fields appear in a fixed
// order.  Absent optionals are written as `null`.  String values are
// escaped as JSON demands: quote and backslash get a backslash, control
// bytes become `\u00XX`, everything else is copied through.

/// Lower-case hex digit of a value below 16.
pub open spec fn hex_digit(v: u8) -> u8 {
    if v < 10 {
        (48 + v) as u8
    } else {
        (87 + v) as u8
    }
}

/// How one byte of a string value is written inside a JSON string.
pub open spec fn esc_byte(x: u8) -> Seq<u8> {
    if x == 34 {
        seq![92u8, 34u8]
    } else if x == 92 {
        seq![92u8, 92u8]
    } else if x < 32 {
        seq![92u8, 117u8, 48u8, 48u8, hex_digit(x / 16), hex_digit(x % 16)]
    } else {
        seq![x]
    }
}

pub open spec fn json_escape(b: Seq<u8>) -> Seq<u8>
    decreases b.len(),
{
    if b.len() == 0 {
        Seq::empty()
    } else {
        esc_byte(b[0]) + json_escape(b.drop_first())
    }
}

pub proof fn lemma_json_escape_snoc(b: Seq<u8>, x: u8)
    ensures
        json_escape(b.push(x)) == json_escape(b) + esc_byte(x),
    decreases b.len(),
{
    if b.len() == 0 {
        assert(b.push(x).drop_first() =~= Seq::<u8>::empty());
        assert(b.push(x)[0] == x);
        assert(json_escape(b.push(x)) == esc_byte(x) + json_escape(Seq::<u8>::empty()));
        assert(esc_byte(x) + Seq::<u8>::empty() =~= esc_byte(x));
        assert(json_escape(b) + esc_byte(x) =~= esc_byte(x));
    } else {
        assert(b.push(x).drop_first() =~= b.drop_first().push(x));
        lemma_json_escape_snoc(b.drop_first(), x);
        assert(esc_byte(b[0]) + (json_escape(b.drop_first()) + esc_byte(x)) =~= (esc_byte(b[0])
            + json_escape(b.drop_first())) + esc_byte(x));
    }
}

/// A JSON string literal holding the UTF-8 bytes of `s`, escaped.
pub open spec fn json_string(s: Seq<char>) -> Seq<u8> {
    seq![34u8] + json_escape(vstd::utf8::encode_utf8(s)) + seq![34u8]
}

/// `true` or `false`.
pub open spec fn json_bool(b: bool) -> Seq<u8> {
    if b {
        seq![116u8, 114u8, 117u8, 101u8]
    } else {
        seq![102u8, 97u8, 108u8, 115u8, 101u8]
    }
}

/// A string value or `null`.
pub open spec fn json_opt_string(o: Option<Seq<char>>) -> Seq<u8> {
    match o {
        Some(s) => json_string(s),
        None => seq![110u8, 117u8, 108u8, 108u8],
    }
}

/// `"key":` — the keys of the CONNECT payload are plain ASCII names and
/// are written unescaped.
pub open spec fn key_colon(k: Seq<char>) -> Seq<u8> {
    seq![34u8] + vstd::utf8::encode_utf8(k) + seq![34u8, 58u8]
}

pub open spec fn view_opt_string(o: Option<String>) -> Option<Seq<char>> {
    match o {
        Some(s) => Some(s@),
        None => None,
    }
}

/// Fields `verbose` through `nkey`.
pub open spec fn connect_json_part1(ci: ConnectInfo) -> Seq<u8> {
    key_colon("verbose"@) + json_bool(ci.verbose) + seq![44u8] + key_colon("pedantic"@)
        + json_bool(ci.pedantic) + seq![44u8] + key_colon("user_jwt"@) + json_opt_string(
        view_opt_string(ci.user_jwt),
    ) + seq![44u8] + key_colon("nkey"@) + json_opt_string(view_opt_string(ci.nkey))
}

/// Fields `signature` through `lang`.
pub open spec fn connect_json_part2(ci: ConnectInfo) -> Seq<u8> {
    seq![44u8] + key_colon("signature"@) + json_opt_string(view_opt_string(ci.signature))
        + seq![44u8] + key_colon("name"@) + json_opt_string(view_opt_string(ci.name)) + seq![44u8]
        + key_colon("echo"@) + json_bool(ci.echo) + seq![44u8] + key_colon("lang"@) + json_string(
        ci.lang@,
    )
}

/// Fields `version` through `user`.
pub open spec fn connect_json_part3(ci: ConnectInfo) -> Seq<u8> {
    seq![44u8] + key_colon("version"@) + json_string(ci.version@) + seq![44u8] + key_colon(
        "protocol"@,
    ) + seq![(48 + protocol_number(ci.protocol)) as u8] + seq![44u8] + key_colon("tls_required"@)
        + json_bool(ci.tls_required) + seq![44u8] + key_colon("user"@) + json_opt_string(
        view_opt_string(ci.user),
    )
}

/// Fields `pass` through `no_responders`.
pub open spec fn connect_json_part4(ci: ConnectInfo) -> Seq<u8> {
    seq![44u8] + key_colon("pass"@) + json_opt_string(view_opt_string(ci.pass)) + seq![44u8]
        + key_colon("auth_token"@) + json_opt_string(view_opt_string(ci.auth_token)) + seq![44u8]
        + key_colon("headers"@) + json_bool(ci.headers) + seq![44u8] + key_colon("no_responders"@)
        + json_bool(ci.no_responders)
}

/// The whole CONNECT JSON payload, fields in their wire order.
pub open spec fn connect_json(ci: ConnectInfo) -> Seq<u8> {
    seq![123u8] + connect_json_part1(ci) + connect_json_part2(ci) + connect_json_part3(ci)
        + connect_json_part4(ci) + seq![125u8]
}

fn emit_str_bytes(out: &mut Vec<u8>, s: &str)
    ensures
        final(out)@ == old(out)@ + vstd::utf8::encode_utf8(s@),
{
    let bytes = vstd::string::StrSliceExecFns::as_bytes_vec(s);
    let mut i: usize = 0;
    while i < bytes.len()
        invariant
            0 <= i <= bytes@.len(),
            bytes@ == vstd::utf8::encode_utf8(s@),
            out@ =~= old(out)@ + bytes@.take(i as int),
        decreases bytes@.len() - i,
    {
        out.push(bytes[i]);
        proof {
            assert(old(out)@ + bytes@.take(i as int) + seq![bytes@[i as int]] =~= old(out)@
                + bytes@.take(i + 1));
        }
        i = i + 1;
    }
    proof {
        assert(bytes@.take(bytes@.len() as int) =~= bytes@);
    }
}

fn emit_key(out: &mut Vec<u8>, k: &str)
    ensures
        final(out)@ == old(out)@ + key_colon(k@),
{
    out.push(34);
    emit_str_bytes(out, k);
    out.push(34);
    out.push(58);
    proof {
        assert(final(out)@ =~= old(out)@ + key_colon(k@));
    }
}

fn emit_bool(out: &mut Vec<u8>, b: bool)
    ensures
        final(out)@ == old(out)@ + json_bool(b),
{
    if b {
        out.push(116);
        out.push(114);
        out.push(117);
        out.push(101);
    } else {
        out.push(102);
        out.push(97);
        out.push(108);
        out.push(115);
        out.push(101);
    }
    proof {
        assert(final(out)@ =~= old(out)@ + json_bool(b));
    }
}

fn emit_json_string(out: &mut Vec<u8>, s: &String)
    ensures
        final(out)@ == old(out)@ + json_string(s@),
{
    out.push(34);
    let bytes = vstd::string::StrSliceExecFns::as_bytes_vec(s.as_str());
    let ghost all = bytes@;
    let mut i: usize = 0;
    while i < bytes.len()
        invariant
            0 <= i <= bytes@.len(),
            bytes@ == all,
            all == vstd::utf8::encode_utf8(s@),
            out@ =~= old(out)@ + seq![34u8] + json_escape(all.take(i as int)),
        decreases bytes@.len() - i,
    {
        let x = bytes[i];
        proof {
            lemma_json_escape_snoc(all.take(i as int), x);
            assert(all.take(i as int).push(x) =~= all.take(i + 1));
        }
        if x == 34 {
            out.push(92);
            out.push(34);
        } else if x == 92 {
            out.push(92);
            out.push(92);
        } else if x < 32 {
            out.push(92);
            out.push(117);
            out.push(48);
            out.push(48);
            let hi = x / 16;
            let lo = x % 16;
            out.push(if hi < 10 { 48 + hi } else { 87 + hi });
            out.push(if lo < 10 { 48 + lo } else { 87 + lo });
        } else {
            out.push(x);
        }
        proof {
            assert(out@ =~= old(out)@ + seq![34u8] + json_escape(all.take(i + 1)));
        }
        i = i + 1;
    }
    out.push(34);
    proof {
        assert(all.take(all.len() as int) =~= all);
        assert(final(out)@ =~= old(out)@ + json_string(s@));
    }
}

fn emit_opt_string(out: &mut Vec<u8>, o: &Option<String>)
    ensures
        final(out)@ == old(out)@ + json_opt_string(match o {
            Some(s) => Some(s@),
            None => None,
        }),
{
    match o {
        Some(s) => emit_json_string(out, s),
        None => {
            out.push(110);
            out.push(117);
            out.push(108);
            out.push(108);
            proof {
                assert(final(out)@ =~= old(out)@ + seq![110u8, 117u8, 108u8, 108u8]);
            }
        },
    }
}

/// The CONNECT payload as bytes.
pub fn connect_json_bytes(ci: &ConnectInfo) -> (r: Vec<u8>)
    ensures
        r@ == connect_json(*ci),
{
    let mut out: Vec<u8> = Vec::new();
    out.push(123);
    emit_part1(&mut out, ci);
    emit_part2(&mut out, ci);
    emit_part3(&mut out, ci);
    emit_part4(&mut out, ci);
    out.push(125);
    proof {
        assert(out@ =~= connect_json(*ci));
    }
    out
}

#[verifier::rlimit(100)]
fn emit_part1(out: &mut Vec<u8>, ci: &ConnectInfo)
    ensures
        final(out)@ == old(out)@ + connect_json_part1(*ci),
{
    emit_key(out, "verbose");
    emit_bool(out, ci.verbose);
    emit_key_sep(out, "pedantic");
    emit_bool(out, ci.pedantic);
    emit_key_sep(out, "user_jwt");
    emit_opt_string(out, &ci.user_jwt);
    emit_key_sep(out, "nkey");
    emit_opt_string(out, &ci.nkey);
    proof {
        assert(final(out)@ =~= old(out)@ + connect_json_part1(*ci));
    }
}

#[verifier::rlimit(100)]
fn emit_part2(out: &mut Vec<u8>, ci: &ConnectInfo)
    ensures
        final(out)@ == old(out)@ + connect_json_part2(*ci),
{
    emit_key_sep(out, "signature");
    emit_opt_string(out, &ci.signature);
    emit_key_sep(out, "name");
    emit_opt_string(out, &ci.name);
    emit_key_sep(out, "echo");
    emit_bool(out, ci.echo);
    emit_key_sep(out, "lang");
    emit_json_string(out, &ci.lang);
    proof {
        assert(final(out)@ =~= old(out)@ + connect_json_part2(*ci));
    }
}

#[verifier::rlimit(100)]
fn emit_part3(out: &mut Vec<u8>, ci: &ConnectInfo)
    ensures
        final(out)@ == old(out)@ + connect_json_part3(*ci),
{
    emit_key_sep(out, "version");
    emit_json_string(out, &ci.version);
    emit_key_sep(out, "protocol");
    match ci.protocol {
        Protocol::Original => out.push(48),
        Protocol::Dynamic => out.push(49),
    }
    emit_key_sep(out, "tls_required");
    emit_bool(out, ci.tls_required);
    emit_key_sep(out, "user");
    emit_opt_string(out, &ci.user);
    proof {
        assert(final(out)@ =~= old(out)@ + connect_json_part3(*ci));
    }
}

#[verifier::rlimit(100)]
fn emit_part4(out: &mut Vec<u8>, ci: &ConnectInfo)
    ensures
        final(out)@ == old(out)@ + connect_json_part4(*ci),
{
    emit_key_sep(out, "pass");
    emit_opt_string(out, &ci.pass);
    emit_key_sep(out, "auth_token");
    emit_opt_string(out, &ci.auth_token);
    emit_key_sep(out, "headers");
    emit_bool(out, ci.headers);
    emit_key_sep(out, "no_responders");
    emit_bool(out, ci.no_responders);
    proof {
        assert(final(out)@ =~= old(out)@ + connect_json_part4(*ci));
    }
}

/// A comma, then `"key":`.
fn emit_key_sep(out: &mut Vec<u8>, k: &str)
    ensures
        final(out)@ == old(out)@ + seq![44u8] + key_colon(k@),
{
    out.push(44);
    emit_key(out, k);
}

} // verus!
