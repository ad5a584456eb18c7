//! The framed codec: reads server frames out of a streaming byte buffer
//! and writes client frames as bytes.
//!
//! `FrameReader::try_read_op` is proved against the grammar specification
//! `parse_frame`: it consumes exactly one complete frame from the front of
//! the buffer, asks for more bytes when no full frame is buffered, and
//! rejects malformed headers without consuming anything.

use vstd::prelude::*;
use crate::digits::{dec_digits, dec_val, parse_u64};
use crate::grammar::{
    find_crlf_from, info_lit, lemma_find_crlf_at, lemma_find_crlf_found, lemma_find_crlf_none,
    lemma_starts_with_index, lemma_tokens_first, msg_lit, ok_lit, parse_frame, ping_lit, pong_lit,
    starts_with, tokens_of, FrameStep, ParseError, ServerFrame,
};
use crate::grammar::{crlf, is_token, lemma_no_cr_concat, lemma_tokens_cons, lemma_tokens_single, no_cr};
use crate::info::{info_post, parse_server_info, ServerInfo};
use crate::connect::{connect_json, connect_json_bytes, ConnectInfo};
use crate::digits::{dec_of, format_u64, lemma_dec_of_digits, lemma_dec_roundtrip};

verus! {

/// One operation received from the server.
#[derive(Debug, PartialEq)]
pub enum ServerOp {
    /// `+OK`
    Okay,
    /// `INFO <json>`
    Info(ServerInfo),
    /// `PING`
    Ping,
    /// `PONG`
    Pong,
    /// `MSG <subject> <sid> [reply] <nbytes>` with its payload.
    Message { sid: u64, subject: Vec<u8>, reply: Option<Vec<u8>>, payload: Vec<u8> },
}

/// One operation sent on behalf of the client.
pub enum ClientOp {
    /// `CONNECT <json>`
    Connect(ConnectInfo),
    /// `PUB <subject> [reply] <nbytes>` with its payload.
    Publish { subject: Vec<u8>, payload: Vec<u8>, reply: Option<Vec<u8>> },
    /// `SUB <subject> <sid>`
    Subscribe { sid: u64, subject: Vec<u8> },
    /// `UNSUB <id>`; the identifier is user-facing and is resolved to a
    /// wire sid by the event loop.
    Unsubscribe { id: u64 },
    /// `PING`
    Ping,
    /// `PONG`
    Pong,
    /// Writes nothing; the event loop flushes its write buffer and reports
    /// the result through a completion the caller holds outside this crate.
    Flush,
    /// Writes nothing; the event loop flushes without reporting.
    TryFlush,
}

pub open spec fn opt_view(o: Option<Vec<u8>>) -> Option<Seq<u8>> {
    match o {
        Some(v) => Some(v@),
        None => None,
    }
}

/// The executable operation carries the same fields as the grammar-level
/// frame.  For `Info`, the frame holds the raw JSON text while the
/// operation holds the decoded descriptor, so only the variant is related.
pub open spec fn op_matches_frame(op: ServerOp, f: ServerFrame) -> bool {
    match f {
        ServerFrame::Okay => op is Okay,
        ServerFrame::Ping => op is Ping,
        ServerFrame::Pong => op is Pong,
        ServerFrame::Info { .. } => op is Info,
        ServerFrame::Msg { sid, subject, reply, payload } => match op {
            ServerOp::Message { sid: s, subject: su, reply: r, payload: p } => s == sid && su@
                == subject && opt_view(r) == reply && p@ == payload,
            _ => false,
        },
    }
}

/// What `try_read_op` guarantees, given the buffer before (`pre`) and
/// after (`post`) the call.  For an INFO frame the JSON text decides,
/// through the named decode of `info_post`: an accepted descriptor is
/// surfaced and the frame consumed, a rejected one is the error with the
/// buffer untouched.
pub open spec fn read_op_post(
    pre: Seq<u8>,
    post: Seq<u8>,
    r: Result<Option<ServerOp>, ParseError>,
) -> bool {
    match parse_frame(pre) {
        FrameStep::Incomplete => r == Ok::<Option<ServerOp>, ParseError>(None) && post == pre,
        FrameStep::Malformed { reason } => r == Err::<Option<ServerOp>, ParseError>(reason) && post
            == pre,
        FrameStep::Complete { frame, len } => match frame {
            ServerFrame::Info { json } => match r {
                Ok(op) => (op matches Some(o) && (o matches ServerOp::Info(si) && info_post(
                    json,
                    Some(si),
                ))) && post == pre.skip(len),
                Err(e) => e == ParseError::BadInfoJson && info_post(json, None::<ServerInfo>)
                    && post == pre,
            },
            _ => post == pre.skip(len) && match r {
                Ok(op) => op matches Some(o) && op_matches_frame(o, frame),
                Err(_) => false,
            },
        },
    }
}

/// A copy of `buf[a..b]`.
fn copy_range(buf: &Vec<u8>, a: usize, b: usize) -> (r: Vec<u8>)
    requires
        a <= b <= buf@.len(),
    ensures
        r@ == buf@.subrange(a as int, b as int),
{
    let mut r: Vec<u8> = Vec::new();
    let mut i: usize = a;
    while i < b
        invariant
            a <= i <= b <= buf@.len(),
            r@ =~= buf@.subrange(a as int, i as int),
        decreases b - i,
    {
        r.push(buf[i]);
        proof {
            assert(r@ =~= buf@.subrange(a as int, i + 1));
        }
        i = i + 1;
    }
    r
}

/// Position of the first `\r\n` in the buffer, if any.
fn find_crlf(buf: &Vec<u8>) -> (r: Option<usize>)
    ensures
        match r {
            Some(k) => find_crlf_from(buf@, 0) == Some(k as int) && k + 2 <= buf@.len(),
            None => find_crlf_from(buf@, 0) == None::<int>,
        },
{
    let n = buf.len();
    if n < 2 {
        proof {
            lemma_find_crlf_none(buf@, 0);
        }
        return None;
    }
    let mut i: usize = 0;
    while i < n - 1
        invariant
            0 <= i <= n,
            n == buf@.len(),
            n >= 2,
            forall|j: int| 0 <= j < i ==> !(#[trigger] buf@[j] == 13 && buf@[j + 1] == 10),
        decreases n - i,
    {
        if buf[i] == 13 && buf[i + 1] == 10 {
            proof {
                lemma_find_crlf_at(buf@, 0, i as int);
            }
            return Some(i);
        }
        i = i + 1;
    }
    proof {
        lemma_find_crlf_none(buf@, 0);
    }
    None
}

/// Splits `buf[start..end]` into its space-delimited fields.
fn split_line_tokens(buf: &Vec<u8>, start: usize, end: usize) -> (r: Vec<Vec<u8>>)
    requires
        start <= end <= buf@.len(),
    ensures
        r.deep_view() == tokens_of(buf@.subrange(start as int, end as int)),
{
    let mut r: Vec<Vec<u8>> = Vec::new();
    let mut i: usize = start;
    while i < end
        invariant
            start <= i <= end <= buf@.len(),
            r.deep_view() + tokens_of(buf@.subrange(i as int, end as int)) == tokens_of(
                buf@.subrange(start as int, end as int),
            ),
        decreases end - i,
    {
        if buf[i] == 32 {
            proof {
                let s = buf@.subrange(i as int, end as int);
                assert(s.drop_first() =~= buf@.subrange(i + 1, end as int));
            }
            i = i + 1;
        } else {
            let mut j: usize = i + 1;
            while j < end && buf[j] != 32
                invariant
                    i < j <= end <= buf@.len(),
                    forall|k: int| i <= k < j ==> buf@[k] != 32,
                decreases end - j,
            {
                j = j + 1;
            }
            let tok = copy_range(buf, i, j);
            let ghost prev = r.deep_view();
            proof {
                let s = buf@.subrange(i as int, end as int);
                lemma_tokens_first(s, j - i);
                assert(s.take(j - i) =~= buf@.subrange(i as int, j as int));
                assert(s.skip(j - i) =~= buf@.subrange(j as int, end as int));
            }
            r.push(tok);
            proof {
                assert(r.deep_view() =~~= prev + seq![tok@]);
                assert((prev + seq![tok@]) + tokens_of(buf@.subrange(j as int, end as int)) =~~= prev
                    + (seq![tok@] + tokens_of(buf@.subrange(j as int, end as int))));
            }
            i = j;
        }
    }
    proof {
        assert(buf@.subrange(i as int, end as int) =~= Seq::<u8>::empty());
        assert(r.deep_view() + Seq::<Seq<u8>>::empty() =~~= r.deep_view());
    }
    r
}

/// Relies on `std::str::from_utf8`: accepts exactly the valid UTF-8 byte
/// sequences.
#[verifier::external_body]
fn utf8_check(b: &Vec<u8>) -> (r: bool)
    ensures
        r == vstd::utf8::valid_utf8(b@),
{
    std::str::from_utf8(b).is_ok()
}

/// A sequence of ASCII bytes is valid UTF-8.
proof fn lemma_ascii_valid_utf8(s: Seq<u8>)
    requires
        forall|i: int| 0 <= i < s.len() ==> s[i] < 128,
    ensures
        vstd::utf8::valid_utf8(s),
{
    assert(s.subrange(0, 0) =~= Seq::<u8>::empty());
    vstd::utf8::partial_valid_utf8_extend_ascii_block(s, 0, s.len() as int);
    assert(s.subrange(0, s.len() as int) =~= s);
}

/// A copy of a byte vector.
pub fn dup_bytes(v: &Vec<u8>) -> (r: Vec<u8>)
    ensures
        r@ == v@,
{
    let r = copy_range(v, 0, v.len());
    proof {
        assert(v@.subrange(0, v@.len() as int) =~= v@);
    }
    r
}

/// The streaming read buffer of a framed connection.  Bytes read off the
/// wire are appended at the back; complete frames are consumed from the
/// front.
pub struct FrameReader {
    buffer: Vec<u8>,
}

impl View for FrameReader {
    type V = Seq<u8>;

    closed spec fn view(&self) -> Seq<u8> {
        self.buffer@
    }
}

impl FrameReader {
    /// An empty buffer.
    pub fn new() -> (r: FrameReader)
        ensures
            r@ == Seq::<u8>::empty(),
    {
        FrameReader { buffer: Vec::new() }
    }

    /// Appends bytes read off the wire.
    pub fn push_bytes(&mut self, chunk: &Vec<u8>)
        ensures
            final(self)@ == old(self)@ + chunk@,
    {
        let mut i: usize = 0;
        while i < chunk.len()
            invariant
                0 <= i <= chunk@.len(),
                self.buffer@ =~= old(self).buffer@ + chunk@.take(i as int),
            decreases chunk@.len() - i,
        {
            self.buffer.push(chunk[i]);
            proof {
                assert(old(self).buffer@ + chunk@.take(i as int) + seq![chunk@[i as int]] =~= old(
                    self,
                ).buffer@ + chunk@.take(i + 1));
            }
            i = i + 1;
        }
        proof {
            assert(chunk@.take(chunk@.len() as int) =~= chunk@);
        }
    }

    /// How many bytes are waiting.
    pub fn buffered_len(&self) -> (r: usize)
        ensures
            r == self@.len(),
    {
        self.buffer.len()
    }

    /// What a read of zero bytes means at this point: a clean end of
    /// stream when nothing is buffered, a reset in the middle of a frame
    /// otherwise.
    pub fn zero_read_outcome(&self) -> (r: Option<crate::error::ClientError>)
        ensures
            r == (if self@.len() == 0 {
                None::<crate::error::ClientError>
            } else {
                Some(crate::error::ClientError::ConnectionReset)
            }),
    {
        if self.buffer.len() == 0 {
            None
        } else {
            Some(crate::error::ClientError::ConnectionReset)
        }
    }

    /// Drops the first `n` bytes.
    fn consume(&mut self, n: usize)
        requires
            n <= old(self)@.len(),
        ensures
            final(self)@ == old(self)@.skip(n as int),
    {
        let len = self.buffer.len();
        let rest = copy_range(&self.buffer, n, len);
        proof {
            assert(self.buffer@.subrange(n as int, len as int) =~= self.buffer@.skip(n as int));
        }
        self.buffer = rest;
    }

    /// Takes one frame off the front of the buffer, if a complete one is
    /// there: the step the event loop makes on the read side.
    pub fn try_read_op(&mut self) -> (r: Result<Option<ServerOp>, ParseError>)
        ensures
            read_op_post(old(self)@, final(self)@, r),
    {
        let ghost pre = self.buffer@;
        let n = self.buffer.len();

        // +OK\r\n
        if n >= 5 && self.buffer[0] == 43 && self.buffer[1] == 79 && self.buffer[2] == 75
            && self.buffer[3] == 13 && self.buffer[4] == 10 {
            proof {
                assert(pre.take(5) =~= ok_lit());
            }
            self.consume(5);
            return Ok(Some(ServerOp::Okay));
        }
        proof {
            if starts_with(pre, ok_lit()) {
                lemma_starts_with_index(pre, ok_lit());
            }
        }

        // PING\r\n
        if n >= 6 && self.buffer[0] == 80 && self.buffer[1] == 73 && self.buffer[2] == 78
            && self.buffer[3] == 71 && self.buffer[4] == 13 && self.buffer[5] == 10 {
            proof {
                assert(pre.take(6) =~= ping_lit());
            }
            self.consume(6);
            return Ok(Some(ServerOp::Ping));
        }
        proof {
            if starts_with(pre, ping_lit()) {
                lemma_starts_with_index(pre, ping_lit());
            }
        }

        // PONG\r\n
        if n >= 6 && self.buffer[0] == 80 && self.buffer[1] == 79 && self.buffer[2] == 78
            && self.buffer[3] == 71 && self.buffer[4] == 13 && self.buffer[5] == 10 {
            proof {
                assert(pre.take(6) =~= pong_lit());
            }
            self.consume(6);
            return Ok(Some(ServerOp::Pong));
        }
        proof {
            if starts_with(pre, pong_lit()) {
                lemma_starts_with_index(pre, pong_lit());
            }
        }

        // INFO <json>\r\n
        if n >= 5 && self.buffer[0] == 73 && self.buffer[1] == 78 && self.buffer[2] == 70
            && self.buffer[3] == 79 && self.buffer[4] == 32 {
            proof {
                assert(pre.take(5) =~= info_lit());
            }
            match find_crlf(&self.buffer) {
                None => {
                    return Ok(None);
                },
                Some(e) => {
                    proof {
                        lemma_find_crlf_found(pre, 0, e as int);
                        assert(e >= 5);
                    }
                    let json = copy_range(&self.buffer, 5, e);
                    match parse_server_info(&json) {
                        None => {
                            return Err(ParseError::BadInfoJson);
                        },
                        Some(si) => {
                            self.consume(e + 2);
                            return Ok(Some(ServerOp::Info(si)));
                        },
                    }
                },
            }
        }
        proof {
            if starts_with(pre, info_lit()) {
                lemma_starts_with_index(pre, info_lit());
            }
        }

        // MSG <subject> <sid> [reply] <nbytes>\r\n<payload>\r\n
        if n >= 4 && self.buffer[0] == 77 && self.buffer[1] == 83 && self.buffer[2] == 71
            && self.buffer[3] == 32 {
            proof {
                assert(pre.take(4) =~= msg_lit());
            }
            match find_crlf(&self.buffer) {
                None => {
                    return Ok(None);
                },
                Some(e) => {
                    proof {
                        lemma_find_crlf_found(pre, 0, e as int);
                        assert(e >= 4);
                    }
                    let line = copy_range(&self.buffer, 4, e);
                    if !utf8_check(&line) {
                        return Err(ParseError::InvalidUtf8);
                    }
                    let args = split_line_tokens(&self.buffer, 4, e);
                    let argc = args.len();
                    proof {
                        assert(args.deep_view().len() == argc);
                    }
                    if argc != 3 && argc != 4 {
                        return Err(ParseError::BadArgCount);
                    }
                    proof {
                        assert(args.deep_view()[1] == args@[1]@);
                        assert(args.deep_view()[argc - 1] == args@[argc - 1]@);
                        assert(args.deep_view()[0] == args@[0]@);
                        if argc == 4 {
                            assert(args.deep_view()[2] == args@[2]@);
                        }
                    }
                    let sid_v = match parse_u64(&args[1]) {
                        None => {
                            return Err(ParseError::BadInteger);
                        },
                        Some(v) => v,
                    };
                    let nb = match parse_u64(&args[argc - 1]) {
                        None => {
                            return Err(ParseError::BadInteger);
                        },
                        Some(v) => v,
                    };
                    let avail = n - (e + 2);
                    if avail < 2 || nb > (avail - 2) as u64 {
                        return Ok(None);
                    }
                    let plen = nb as usize;
                    let payload = copy_range(&self.buffer, e + 2, e + 2 + plen);
                    let subject = dup_bytes(&args[0]);
                    let reply = if argc == 4 {
                        Some(dup_bytes(&args[2]))
                    } else {
                        None
                    };
                    self.consume(e + 2 + plen + 2);
                    return Ok(Some(ServerOp::Message { sid: sid_v, subject, reply, payload }));
                },
            }
        }
        proof {
            if starts_with(pre, msg_lit()) {
                lemma_starts_with_index(pre, msg_lit());
            }
        }

        Ok(None)
    }
}

// --- Outbound encoding ----------------------------------------------------

/// `PUB `
pub open spec fn pub_lit() -> Seq<u8> {
    seq![80u8, 85u8, 66u8, 32u8]
}

/// `SUB `
pub open spec fn sub_lit() -> Seq<u8> {
    seq![83u8, 85u8, 66u8, 32u8]
}

/// `UNSUB `
pub open spec fn unsub_lit() -> Seq<u8> {
    seq![85u8, 78u8, 83u8, 85u8, 66u8, 32u8]
}

/// `CONNECT `
pub open spec fn connect_lit() -> Seq<u8> {
    seq![67u8, 79u8, 78u8, 78u8, 69u8, 67u8, 84u8, 32u8]
}

/// An optional reply token followed by its separating space.
pub open spec fn opt_sp(r: Option<Seq<u8>>) -> Seq<u8> {
    match r {
        Some(x) => x + seq![32u8],
        None => Seq::empty(),
    }
}

/// `PUB <subject> [reply] <nbytes>\r\n<payload>\r\n`
pub open spec fn pub_frame(subject: Seq<u8>, reply: Option<Seq<u8>>, payload: Seq<u8>) -> Seq<u8> {
    pub_lit() + subject + seq![32u8] + opt_sp(reply) + dec_of(payload.len() as int) + crlf()
        + payload + crlf()
}

/// `MSG <subject> <sid> [reply] <nbytes>\r\n<payload>\r\n` — the server's
/// counterpart of a PUB frame, also what the test stub echoes back.
pub open spec fn msg_frame(sid: int, subject: Seq<u8>, reply: Option<Seq<u8>>, payload: Seq<u8>) -> Seq<u8> {
    msg_lit() + subject + seq![32u8] + dec_of(sid) + seq![32u8] + opt_sp(reply) + dec_of(
        payload.len() as int,
    ) + crlf() + payload + crlf()
}

/// `SUB <subject> <sid>\r\n`
pub open spec fn sub_frame(sid: int, subject: Seq<u8>) -> Seq<u8> {
    sub_lit() + subject + seq![32u8] + dec_of(sid) + crlf()
}

/// `UNSUB <sid>\r\n`
pub open spec fn unsub_frame(id: int) -> Seq<u8> {
    unsub_lit() + dec_of(id) + crlf()
}

/// The bytes a client operation is written as.  Flush operations write
/// nothing: they only drive the buffered writer outside this crate.
pub open spec fn encode_spec(op: ClientOp) -> Seq<u8> {
    match op {
        ClientOp::Connect(ci) => connect_lit() + connect_json(ci) + crlf(),
        ClientOp::Publish { subject, payload, reply } => pub_frame(
            subject@,
            opt_view(reply),
            payload@,
        ),
        ClientOp::Subscribe { sid, subject } => sub_frame(sid as int, subject@),
        ClientOp::Unsubscribe { id } => unsub_frame(id as int),
        ClientOp::Ping => ping_lit(),
        ClientOp::Pong => pong_lit(),
        ClientOp::Flush => Seq::empty(),
        ClientOp::TryFlush => Seq::empty(),
    }
}

/// Which operations force a flush of the buffered writer after being
/// written: SUB, PING, PONG, an explicit Flush, and TryFlush — the timed
/// drain of the write buffer, which writes no frame of its own.  PUB,
/// UNSUB and CONNECT leave their bytes buffered for that drain.
pub open spec fn spec_flush_after(op: ClientOp) -> bool {
    match op {
        ClientOp::Subscribe { .. } => true,
        ClientOp::Ping => true,
        ClientOp::Pong => true,
        ClientOp::Flush => true,
        ClientOp::TryFlush => true,
        _ => false,
    }
}

/// Whether the writer must be flushed right after this operation.
pub fn flush_after(op: &ClientOp) -> (r: bool)
    ensures
        r == spec_flush_after(*op),
{
    match op {
        ClientOp::Subscribe { .. } => true,
        ClientOp::Ping => true,
        ClientOp::Pong => true,
        ClientOp::Flush => true,
        ClientOp::TryFlush => true,
        _ => false,
    }
}

fn append_vec(out: &mut Vec<u8>, v: &Vec<u8>)
    ensures
        final(out)@ == old(out)@ + v@,
{
    let mut i: usize = 0;
    while i < v.len()
        invariant
            0 <= i <= v@.len(),
            out@ =~= old(out)@ + v@.take(i as int),
        decreases v@.len() - i,
    {
        out.push(v[i]);
        proof {
            assert(old(out)@ + v@.take(i as int) + seq![v@[i as int]] =~= old(out)@ + v@.take(
                i + 1,
            ));
        }
        i = i + 1;
    }
    proof {
        assert(v@.take(v@.len() as int) =~= v@);
    }
}

fn append_u64(out: &mut Vec<u8>, n: u64)
    ensures
        final(out)@ == old(out)@ + dec_of(n as int),
{
    let d = format_u64(n);
    append_vec(out, &d);
}

fn append_crlf(out: &mut Vec<u8>)
    ensures
        final(out)@ == old(out)@ + crlf(),
{
    out.push(13);
    out.push(10);
    proof {
        assert(final(out)@ =~= old(out)@ + crlf());
    }
}

/// The bytes of one client operation, per the outbound grammar.
pub fn encode_op(op: &ClientOp) -> (r: Vec<u8>)
    ensures
        r@ == encode_spec(*op),
{
    let mut out: Vec<u8> = Vec::new();
    match op {
        ClientOp::Connect(ci) => {
            out.push(67);
            out.push(79);
            out.push(78);
            out.push(78);
            out.push(69);
            out.push(67);
            out.push(84);
            out.push(32);
            proof {
                assert(out@ =~= connect_lit());
            }
            let json = connect_json_bytes(ci);
            append_vec(&mut out, &json);
            append_crlf(&mut out);
            proof {
                assert(out@ =~= encode_spec(*op));
            }
        },
        ClientOp::Publish { subject, payload, reply } => {
            out.push(80);
            out.push(85);
            out.push(66);
            out.push(32);
            proof {
                assert(out@ =~= pub_lit());
            }
            append_vec(&mut out, subject);
            out.push(32);
            match reply {
                Some(r) => {
                    append_vec(&mut out, r);
                    out.push(32);
                },
                None => {},
            }
            proof {
                assert(out@ =~= pub_lit() + subject@ + seq![32u8] + opt_sp(opt_view(*reply)));
            }
            append_u64(&mut out, payload.len() as u64);
            append_crlf(&mut out);
            append_vec(&mut out, payload);
            append_crlf(&mut out);
            proof {
                assert(out@ =~= encode_spec(*op));
            }
        },
        ClientOp::Subscribe { sid, subject } => {
            out.push(83);
            out.push(85);
            out.push(66);
            out.push(32);
            proof {
                assert(out@ =~= sub_lit());
            }
            append_vec(&mut out, subject);
            out.push(32);
            append_u64(&mut out, *sid);
            append_crlf(&mut out);
            proof {
                assert(out@ =~= encode_spec(*op));
            }
        },
        ClientOp::Unsubscribe { id } => {
            out.push(85);
            out.push(78);
            out.push(83);
            out.push(85);
            out.push(66);
            out.push(32);
            proof {
                assert(out@ =~= unsub_lit());
            }
            append_u64(&mut out, *id);
            append_crlf(&mut out);
            proof {
                assert(out@ =~= encode_spec(*op));
            }
        },
        ClientOp::Ping => {
            out.push(80);
            out.push(73);
            out.push(78);
            out.push(71);
            append_crlf(&mut out);
            proof {
                assert(out@ =~= ping_lit());
            }
        },
        ClientOp::Pong => {
            out.push(80);
            out.push(79);
            out.push(78);
            out.push(71);
            append_crlf(&mut out);
            proof {
                assert(out@ =~= pong_lit());
            }
        },
        ClientOp::Flush => {},
        ClientOp::TryFlush => {},
    }
    out
}

/// The bytes of a MSG frame: what a server writes to deliver a publish to
/// a matching subscription.  The verified test stub uses this to echo PUB
/// frames back.
pub fn encode_msg(sid: u64, subject: &Vec<u8>, reply: &Option<Vec<u8>>, payload: &Vec<u8>) -> (r:
    Vec<u8>)
    ensures
        r@ == msg_frame(sid as int, subject@, match reply {
            Some(t) => Some(t@),
            None => None,
        }, payload@),
{
    let mut out: Vec<u8> = Vec::new();
    out.push(77);
    out.push(83);
    out.push(71);
    out.push(32);
    proof {
        assert(out@ =~= msg_lit());
    }
    append_vec(&mut out, subject);
    out.push(32);
    append_u64(&mut out, sid);
    out.push(32);
    match reply {
        Some(r) => {
            append_vec(&mut out, r);
            out.push(32);
        },
        None => {},
    }
    proof {
        assert(out@ =~= msg_lit() + subject@ + seq![32u8] + dec_of(sid as int) + seq![32u8]
            + opt_sp(match reply {
                Some(t) => Some(t@),
                None => None,
            }));
    }
    append_u64(&mut out, payload.len() as u64);
    append_crlf(&mut out);
    append_vec(&mut out, payload);
    append_crlf(&mut out);
    proof {
        assert(out@ =~= msg_frame(sid as int, subject@, match reply {
            Some(t) => Some(t@),
            None => None,
        }, payload@));
    }
    out
}

// --- Laws of the framing --------------------------------------------------

proof fn lemma_dec_of_token(n: int)
    requires
        n >= 0,
    ensures
        is_token(dec_of(n)),
        no_cr(dec_of(n)),
        dec_digits(dec_of(n)),
{
    lemma_dec_of_digits(n);
}

/// Framing round-trip for messages: the server counterpart of a PUB frame
/// with a given subject, reply and payload parses back to exactly one
/// `Msg` frame with the same subject, reply and payload (and the sid the
/// server chose), consuming the whole frame.
#[verifier::rlimit(100)]
pub proof fn lemma_publish_round_trip(
    sid: u64,
    subject: Seq<u8>,
    reply: Option<Seq<u8>>,
    payload: Seq<u8>,
)
    requires
        is_token(subject),
        vstd::utf8::valid_utf8(subject),
        match reply {
            Some(t) => is_token(t) && vstd::utf8::valid_utf8(t),
            None => true,
        },
        payload.len() <= u64::MAX,
    ensures
        ({
            let b = msg_frame(sid as int, subject, reply, payload);
            parse_frame(b) == (FrameStep::Complete {
                frame: ServerFrame::Msg { sid: sid as int, subject, reply, payload },
                len: b.len() as int,
            })
        }),
{
    let b = msg_frame(sid as int, subject, reply, payload);
    let n = payload.len() as int;
    let rest2 = opt_sp(reply) + dec_of(n);
    let rest1 = dec_of(sid as int) + seq![32u8] + rest2;
    let line = subject + seq![32u8] + rest1;
    let hdr = msg_lit() + line;
    let h = hdr.len() as int;
    assert(b =~= hdr + crlf() + payload + crlf());

    lemma_dec_of_token(sid as int);
    lemma_dec_of_token(n);
    assert(no_cr(msg_lit()));
    assert(no_cr(seq![32u8]));
    match reply {
        Some(t) => {
            lemma_no_cr_concat(t, seq![32u8]);
        },
        None => {
        },
    }
    assert(no_cr(opt_sp(reply)));
    lemma_no_cr_concat(opt_sp(reply), dec_of(n));
    assert(no_cr(rest2));
    lemma_no_cr_concat(dec_of(sid as int), seq![32u8]);
    lemma_no_cr_concat(dec_of(sid as int) + seq![32u8], rest2);
    assert(rest1 =~= (dec_of(sid as int) + seq![32u8]) + rest2);
    assert(no_cr(rest1));
    lemma_no_cr_concat(subject, seq![32u8]);
    lemma_no_cr_concat(subject + seq![32u8], rest1);
    assert(line =~= (subject + seq![32u8]) + rest1);
    assert(no_cr(line));
    lemma_no_cr_concat(msg_lit(), line);
    assert(no_cr(hdr));

    // the header line is valid UTF-8: tokens by assumption, digits and
    // separators because they are ASCII
    lemma_ascii_valid_utf8(seq![32u8]);
    lemma_ascii_valid_utf8(dec_of(sid as int));
    lemma_ascii_valid_utf8(dec_of(n));
    match reply {
        Some(t) => {
            vstd::utf8::valid_utf8_concat(t, seq![32u8]);
        },
        None => {
            assert(vstd::utf8::valid_utf8(opt_sp(reply)));
        },
    }
    vstd::utf8::valid_utf8_concat(opt_sp(reply), dec_of(n));
    vstd::utf8::valid_utf8_concat(dec_of(sid as int), seq![32u8]);
    vstd::utf8::valid_utf8_concat(dec_of(sid as int) + seq![32u8], rest2);
    vstd::utf8::valid_utf8_concat(subject, seq![32u8]);
    vstd::utf8::valid_utf8_concat(subject + seq![32u8], rest1);
    assert(vstd::utf8::valid_utf8(line));

    // the first CRLF pair sits exactly at the end of the header line
    assert(b[h] == 13 && b[h + 1] == 10) by {
        assert(b =~= hdr + (crlf() + payload + crlf()));
        assert(b[h] == (crlf() + payload + crlf())[0]);
        assert(b[h + 1] == (crlf() + payload + crlf())[1]);
    }
    assert forall|j: int| 0 <= j < h implies !(#[trigger] b[j] == 13 && b[j + 1] == 10) by {
        assert(b[j] == hdr[j]);
    }
    lemma_find_crlf_at(b, 0, h);

    // only the MSG verb matches
    assert(b[0] == 77 && b[1] == 83 && b[2] == 71 && b[3] == 32) by {
        assert(b[0] == hdr[0] && b[1] == hdr[1] && b[2] == hdr[2] && b[3] == hdr[3]);
        assert(hdr[0] == msg_lit()[0] && hdr[1] == msg_lit()[1] && hdr[2] == msg_lit()[2] && hdr[3]
            == msg_lit()[3]);
    }
    assert(starts_with(b, msg_lit())) by {
        assert(b.take(4) =~= msg_lit());
    }
    assert(!starts_with(b, ok_lit())) by {
        if starts_with(b, ok_lit()) {
            lemma_starts_with_index(b, ok_lit());
        }
    }
    assert(!starts_with(b, ping_lit())) by {
        if starts_with(b, ping_lit()) {
            lemma_starts_with_index(b, ping_lit());
        }
    }
    assert(!starts_with(b, pong_lit())) by {
        if starts_with(b, pong_lit()) {
            lemma_starts_with_index(b, pong_lit());
        }
    }
    assert(!starts_with(b, info_lit())) by {
        if starts_with(b, info_lit()) {
            lemma_starts_with_index(b, info_lit());
        }
    }

    // the header line splits into the expected fields
    assert(b.subrange(4, h) =~= line);
    lemma_tokens_cons(subject, rest1);
    assert(tokens_of(line) == seq![subject] + tokens_of(rest1));
    lemma_tokens_cons(dec_of(sid as int), rest2);
    assert(tokens_of(rest1) == seq![dec_of(sid as int)] + tokens_of(rest2));
    let args = tokens_of(b.subrange(4, h));
    match reply {
        Some(t) => {
            assert(rest2 =~= t + seq![32u8] + dec_of(n));
            lemma_tokens_cons(t, dec_of(n));
            lemma_tokens_single(dec_of(n));
            assert(tokens_of(rest2) == seq![t] + seq![dec_of(n)]);
            assert(args =~~= seq![subject, dec_of(sid as int), t, dec_of(n)]);
        },
        None => {
            assert(rest2 =~= dec_of(n));
            lemma_tokens_single(dec_of(n));
            assert(args =~~= seq![subject, dec_of(sid as int), dec_of(n)]);
        },
    }

    lemma_dec_roundtrip(sid as int);
    lemma_dec_roundtrip(n);

    assert(b.len() == h + 2 + n + 2);
    assert(b.subrange(h + 2, h + 2 + n) =~= payload) by {
        assert(b =~= (hdr + crlf()) + payload + crlf());
    }
}

/// Framing round-trip for PING: the encoder's bytes parse back to the one
/// Ping frame.
pub proof fn lemma_ping_round_trip()
    ensures
        parse_frame(ping_lit()) == (FrameStep::Complete { frame: ServerFrame::Ping, len: 6 }),
{
    let b = ping_lit();
    assert(!starts_with(b, ok_lit())) by {
        if starts_with(b, ok_lit()) {
            lemma_starts_with_index(b, ok_lit());
        }
    }
    assert(starts_with(b, ping_lit())) by {
        assert(b.take(6) =~= ping_lit());
    }
}

/// Framing round-trip for PONG.
pub proof fn lemma_pong_round_trip()
    ensures
        parse_frame(pong_lit()) == (FrameStep::Complete { frame: ServerFrame::Pong, len: 6 }),
{
    let b = pong_lit();
    assert(!starts_with(b, ok_lit())) by {
        if starts_with(b, ok_lit()) {
            lemma_starts_with_index(b, ok_lit());
        }
    }
    assert(!starts_with(b, ping_lit())) by {
        if starts_with(b, ping_lit()) {
            lemma_starts_with_index(b, ping_lit());
        }
    }
    assert(starts_with(b, pong_lit())) by {
        assert(b.take(6) =~= pong_lit());
    }
}

/// Partial-frame tolerance: while a frame is arriving, every proper
/// prefix of it parses as "need more data" — never as a frame, never as
/// an error.  Together with the round-trip laws: exactly one operation
/// appears, at the moment the final byte arrives.
#[verifier::rlimit(100)]
pub proof fn lemma_partial_frame_incomplete(b: Seq<u8>, m: int)
    requires
        match parse_frame(b) {
            FrameStep::Complete { len, .. } => 0 <= m < len && len <= b.len(),
            _ => false,
        },
    ensures
        parse_frame(b.take(m)) is Incomplete,
{
    let p = b.take(m);
    assert(forall|i: int| 0 <= i < m ==> p[i] == b[i]);
    if starts_with(b, ok_lit()) {
        lemma_starts_with_index(b, ok_lit());
        no_verb_matches(p, b);
    } else if starts_with(b, ping_lit()) {
        lemma_starts_with_index(b, ping_lit());
        no_verb_matches(p, b);
    } else if starts_with(b, pong_lit()) {
        lemma_starts_with_index(b, pong_lit());
        no_verb_matches(p, b);
    } else if starts_with(b, info_lit()) {
        lemma_starts_with_index(b, info_lit());
        let e = find_crlf_from(b, 0).unwrap();
        lemma_find_crlf_found(b, 0, e);
        if m < 5 {
            no_verb_matches(p, b);
        } else {
            assert(starts_with(p, info_lit())) by {
                assert(p.take(5) =~= info_lit());
            }
            not_other_verbs_info(p);
            assert forall|j: int| 0 <= j && j + 2 <= p.len() implies !(#[trigger] p[j] == 13
                && p[j + 1] == 10) by {
                assert(p[j] == b[j] && p[j + 1] == b[j + 1]);
            }
            lemma_find_crlf_none(p, 0);
        }
    } else {
        lemma_starts_with_index(b, msg_lit());
        let e = find_crlf_from(b, 0).unwrap();
        lemma_find_crlf_found(b, 0, e);
        if m < 4 {
            no_verb_matches(p, b);
        } else if m < e + 2 {
            assert(starts_with(p, msg_lit())) by {
                assert(p.take(4) =~= msg_lit());
            }
            not_other_verbs_msg(p);
            assert forall|j: int| 0 <= j && j + 2 <= p.len() implies !(#[trigger] p[j] == 13
                && p[j + 1] == 10) by {
                assert(p[j] == b[j] && p[j + 1] == b[j + 1]);
            }
            lemma_find_crlf_none(p, 0);
        } else {
            assert(starts_with(p, msg_lit())) by {
                assert(p.take(4) =~= msg_lit());
            }
            not_other_verbs_msg(p);
            assert(p[e] == 13 && p[e + 1] == 10);
            assert forall|j: int| 0 <= j < e implies !(#[trigger] p[j] == 13 && p[j + 1] == 10) by {
                assert(p[j] == b[j] && p[j + 1] == b[j + 1]);
            }
            lemma_find_crlf_at(p, 0, e);
            assert(p.subrange(4, e) =~= b.subrange(4, e));
        }
    }
}

/// A proper prefix that is shorter than every verb it could begin with
/// matches no branch of the grammar.
proof fn no_verb_matches(p: Seq<u8>, b: Seq<u8>)
    requires
        p.len() < 5 || (p.len() >= 5 && p[0] != 43 && !(p[0] == 80 && p[4] == 13 && p.len() >= 6)
            && p[0] != 73 && p[0] != 77),
        p.len() < 6 || p[0] != 80,
        p.len() < 4 || p[0] == 43 || p[0] == 80 || p[0] == 73,
    ensures
        parse_frame(p) is Incomplete,
{
    not_if_short(p);
}

proof fn not_if_short(p: Seq<u8>)
    requires
        p.len() < 4 || (p.len() >= 4 && (p[0] == 43 || p[0] == 80 || p[0] == 73)),
        p.len() < 5 || p[0] != 43,
        p.len() < 6 || p[0] != 80,
        p.len() < 5 || p[0] != 73,
    ensures
        parse_frame(p) is Incomplete,
{
    assert(!starts_with(p, ok_lit())) by {
        if starts_with(p, ok_lit()) {
            lemma_starts_with_index(p, ok_lit());
        }
    }
    assert(!starts_with(p, ping_lit())) by {
        if starts_with(p, ping_lit()) {
            lemma_starts_with_index(p, ping_lit());
        }
    }
    assert(!starts_with(p, pong_lit())) by {
        if starts_with(p, pong_lit()) {
            lemma_starts_with_index(p, pong_lit());
        }
    }
    assert(!starts_with(p, info_lit())) by {
        if starts_with(p, info_lit()) {
            lemma_starts_with_index(p, info_lit());
        }
    }
    assert(!starts_with(p, msg_lit())) by {
        if starts_with(p, msg_lit()) {
            lemma_starts_with_index(p, msg_lit());
        }
    }
}

proof fn not_other_verbs_info(p: Seq<u8>)
    requires
        p.len() >= 5,
        p[0] == 73,
    ensures
        !starts_with(p, ok_lit()),
        !starts_with(p, ping_lit()),
        !starts_with(p, pong_lit()),
{
    assert(!starts_with(p, ok_lit())) by {
        if starts_with(p, ok_lit()) {
            lemma_starts_with_index(p, ok_lit());
        }
    }
    assert(!starts_with(p, ping_lit())) by {
        if starts_with(p, ping_lit()) {
            lemma_starts_with_index(p, ping_lit());
        }
    }
    assert(!starts_with(p, pong_lit())) by {
        if starts_with(p, pong_lit()) {
            lemma_starts_with_index(p, pong_lit());
        }
    }
}

proof fn not_other_verbs_msg(p: Seq<u8>)
    requires
        p.len() >= 4,
        p[0] == 77,
    ensures
        !starts_with(p, ok_lit()),
        !starts_with(p, ping_lit()),
        !starts_with(p, pong_lit()),
        !starts_with(p, info_lit()),
{
    assert(!starts_with(p, ok_lit())) by {
        if starts_with(p, ok_lit()) {
            lemma_starts_with_index(p, ok_lit());
        }
    }
    assert(!starts_with(p, ping_lit())) by {
        if starts_with(p, ping_lit()) {
            lemma_starts_with_index(p, ping_lit());
        }
    }
    assert(!starts_with(p, pong_lit())) by {
        if starts_with(p, pong_lit()) {
            lemma_starts_with_index(p, pong_lit());
        }
    }
    assert(!starts_with(p, info_lit())) by {
        if starts_with(p, info_lit()) {
            lemma_starts_with_index(p, info_lit());
        }
    }
}

/// MSG payload boundary: a `Msg` frame is emitted only once its declared
/// payload and the two trailing bytes are fully buffered, and the payload
/// is exactly the bytes between the header line and the trailer.  With
/// partial-frame tolerance above, a buffer one byte short still reads as
/// "need more data".
pub proof fn lemma_msg_payload_boundary(b: Seq<u8>)
    requires
        match parse_frame(b) {
            FrameStep::Complete { frame, .. } => frame is Msg,
            _ => false,
        },
    ensures
        ({
            let step = parse_frame(b);
            match step {
                FrameStep::Complete { frame, len } => match frame {
                    ServerFrame::Msg { payload, .. } => len <= b.len() && len >= payload.len() + 4
                        && payload == b.subrange(len - 2 - payload.len(), len - 2),
                    _ => false,
                },
                _ => false,
            }
        }),
{
    let e = find_crlf_from(b, 0).unwrap();
    lemma_find_crlf_found(b, 0, e);
    let args = tokens_of(b.subrange(4, e));
    let len_tok = args[args.len() - 1];
    crate::digits::lemma_dec_val_nonneg(len_tok);
    let n = dec_val(len_tok);
    assert(b.subrange(e + 2, e + 2 + n) == b.subrange(e + 2 + n + 2 - 2 - n, e + 2 + n + 2 - 2));
}

} // verus!
