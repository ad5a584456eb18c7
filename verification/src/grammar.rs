//! The inbound wire grammar, stated over byte sequences.
//!
//! Every frame ends with `\r\n`.  The grammar accepted from the server is
//!   `+OK\r\n` | `PING\r\n` | `PONG\r\n`
//! | `INFO <json>\r\n`
//! | `MSG <subject> <sid> [reply] <nbytes>\r\n<payload>\r\n`
//! where `<nbytes>` is a decimal integer and the payload is exactly that
//! many raw bytes.  `parse_frame` is the specification the executable
//! parser is proved against: it yields at most one frame from the front of
//! a buffer, or reports that more bytes are needed, or that the buffer is
//! malformed.

use vstd::prelude::*;
use crate::digits::{dec_digits, dec_val};

verus! {

// ASCII constants: 13 = CR, 10 = LF, 32 = space.

/// `+OK\r\n`
pub open spec fn ok_lit() -> Seq<u8> {
    seq![43u8, 79u8, 75u8, 13u8, 10u8]
}

/// `PING\r\n`
pub open spec fn ping_lit() -> Seq<u8> {
    seq![80u8, 73u8, 78u8, 71u8, 13u8, 10u8]
}

/// `PONG\r\n`
pub open spec fn pong_lit() -> Seq<u8> {
    seq![80u8, 79u8, 78u8, 71u8, 13u8, 10u8]
}

/// `INFO ` (with trailing space)
pub open spec fn info_lit() -> Seq<u8> {
    seq![73u8, 78u8, 70u8, 79u8, 32u8]
}

/// `MSG ` (with trailing space)
pub open spec fn msg_lit() -> Seq<u8> {
    seq![77u8, 83u8, 71u8, 32u8]
}

/// `\r\n`
pub open spec fn crlf() -> Seq<u8> {
    seq![13u8, 10u8]
}

pub open spec fn starts_with(b: Seq<u8>, p: Seq<u8>) -> bool {
    p.len() <= b.len() && b.take(p.len() as int) == p
}

/// Position of the first `\r\n` pair at or after `i`, if any.
pub open spec fn find_crlf_from(b: Seq<u8>, i: int) -> Option<int>
    decreases b.len() - i,
{
    if i < 0 || i + 2 > b.len() {
        None
    } else if b[i] == 13 && b[i + 1] == 10 {
        Some(i)
    } else {
        find_crlf_from(b, i + 1)
    }
}

pub proof fn lemma_starts_with_index(b: Seq<u8>, p: Seq<u8>)
    requires
        starts_with(b, p),
    ensures
        forall|k: int| 0 <= k < p.len() ==> b[k] == p[k],
{
    assert forall|k: int| 0 <= k < p.len() implies b[k] == p[k] by {
        assert(b.take(p.len() as int)[k] == b[k]);
    }
}

/// No `\r\n` pair occurs anywhere inside `b`.
pub open spec fn no_crlf(b: Seq<u8>) -> bool {
    forall|j: int| 0 <= j && j + 1 < b.len() ==> !(#[trigger] b[j] == 13 && b[j + 1] == 10)
}

/// No CR byte at all; enough to rule out a `\r\n` pair.
pub open spec fn no_cr(s: Seq<u8>) -> bool {
    forall|i: int| 0 <= i < s.len() ==> s[i] != 13
}

pub proof fn lemma_no_cr_concat(a: Seq<u8>, b: Seq<u8>)
    requires
        no_cr(a),
        no_cr(b),
    ensures
        no_cr(a + b),
{
    assert forall|i: int| 0 <= i < (a + b).len() implies (a + b)[i] != 13 by {
        if i < a.len() {
            assert((a + b)[i] == a[i]);
        } else {
            assert((a + b)[i] == b[i - a.len()]);
        }
    }
}

/// A space-delimited token: non-empty, and free of space, CR and LF.
pub open spec fn is_token(t: Seq<u8>) -> bool {
    t.len() > 0 && forall|i: int| 0 <= i < t.len() ==> t[i] != 32 && t[i] != 13 && t[i] != 10
}

/// Length of the leading run of non-space bytes.
pub open spec fn non_space_len(s: Seq<u8>) -> nat
    decreases s.len(),
{
    if s.len() == 0 || s[0] == 32 {
        0
    } else {
        1 + non_space_len(s.drop_first())
    }
}

pub proof fn lemma_non_space_len_le(s: Seq<u8>)
    ensures
        non_space_len(s) <= s.len(),
    decreases s.len(),
{
    if s.len() > 0 && s[0] != 32 {
        lemma_non_space_len_le(s.drop_first());
    }
}

/// The fields a header line splits into: maximal runs of non-space bytes,
/// with any number of separating spaces.
pub open spec fn tokens_of(s: Seq<u8>) -> Seq<Seq<u8>>
    decreases s.len(),
    via tokens_of_decreases
{
    if s.len() == 0 {
        Seq::empty()
    } else if s[0] == 32 {
        tokens_of(s.drop_first())
    } else {
        seq![s.take(non_space_len(s) as int)] + tokens_of(s.skip(non_space_len(s) as int))
    }
}

#[via_fn]
proof fn tokens_of_decreases(s: Seq<u8>) {
    lemma_non_space_len_le(s);
}

pub proof fn lemma_find_crlf_found(b: Seq<u8>, i: int, k: int)
    requires
        find_crlf_from(b, i) == Some(k),
    ensures
        i <= k,
        k + 2 <= b.len(),
        b[k] == 13 && b[k + 1] == 10,
        forall|j: int| i <= j < k ==> !(#[trigger] b[j] == 13 && b[j + 1] == 10),
    decreases b.len() - i,
{
    if !(i < 0 || i + 2 > b.len()) && !(b[i] == 13 && b[i + 1] == 10) {
        lemma_find_crlf_found(b, i + 1, k);
    }
}

pub proof fn lemma_find_crlf_at(b: Seq<u8>, i: int, k: int)
    requires
        0 <= i <= k,
        k + 2 <= b.len(),
        b[k] == 13 && b[k + 1] == 10,
        forall|j: int| i <= j < k ==> !(#[trigger] b[j] == 13 && b[j + 1] == 10),
    ensures
        find_crlf_from(b, i) == Some(k),
    decreases k - i,
{
    if i < k {
        lemma_find_crlf_at(b, i + 1, k);
    }
}

pub proof fn lemma_find_crlf_none(b: Seq<u8>, i: int)
    requires
        0 <= i,
        forall|j: int| i <= j && j + 2 <= b.len() ==> !(#[trigger] b[j] == 13 && b[j + 1] == 10),
    ensures
        find_crlf_from(b, i) == None::<int>,
    decreases b.len() - i,
{
    if i + 2 <= b.len() {
        lemma_find_crlf_none(b, i + 1);
    }
}

/// `non_space_len` is exactly the position of the first space (or the end).
pub proof fn lemma_non_space_len_is(s: Seq<u8>, k: int)
    requires
        0 <= k <= s.len(),
        forall|j: int| 0 <= j < k ==> s[j] != 32,
        k == s.len() || s[k] == 32,
    ensures
        non_space_len(s) == k,
    decreases s.len(),
{
    if s.len() > 0 && s[0] != 32 {
        lemma_non_space_len_is(s.drop_first(), k - 1);
    }
}

/// Splitting off a maximal leading token.
pub proof fn lemma_tokens_first(s: Seq<u8>, k: int)
    requires
        0 < k <= s.len(),
        forall|j: int| 0 <= j < k ==> s[j] != 32,
        k == s.len() || s[k] == 32,
    ensures
        tokens_of(s) == seq![s.take(k)] + tokens_of(s.skip(k)),
{
    lemma_non_space_len_is(s, k);
}

/// A lone token is one field.
pub proof fn lemma_tokens_single(t: Seq<u8>)
    requires
        is_token(t),
    ensures
        tokens_of(t) == seq![t],
{
    lemma_tokens_first(t, t.len() as int);
    assert(t.take(t.len() as int) =~= t);
    assert(t.skip(t.len() as int) =~= Seq::<u8>::empty());
    assert(tokens_of(t) =~= seq![t]);
}

/// A token, a space, and the rest of the line.
pub proof fn lemma_tokens_cons(t: Seq<u8>, rest: Seq<u8>)
    requires
        is_token(t),
    ensures
        tokens_of(t + seq![32u8] + rest) == seq![t] + tokens_of(rest),
{
    let s = t + seq![32u8] + rest;
    lemma_tokens_first(s, t.len() as int);
    assert(s.take(t.len() as int) =~= t);
    assert(s.skip(t.len() as int) =~= seq![32u8] + rest);
    assert((seq![32u8] + rest).drop_first() =~= rest);
}

/// One frame of the inbound grammar, with the raw bytes of its parts.
/// An `Info` frame carries the undecoded JSON text of the line.
pub enum ServerFrame {
    Okay,
    Info { json: Seq<u8> },
    Ping,
    Pong,
    Msg { sid: int, subject: Seq<u8>, reply: Option<Seq<u8>>, payload: Seq<u8> },
}

/// Why a buffer is rejected.
#[derive(Clone, Copy, Debug, PartialEq, Eq, Structural)]
pub enum ParseError {
    /// A header line that is not valid UTF-8.
    InvalidUtf8,
    /// A MSG header whose argument count is neither three nor four.
    BadArgCount,
    /// A sid or payload-length field that is not a decimal integer that
    /// fits the machine word.
    BadInteger,
    /// An INFO line whose JSON text was rejected.
    BadInfoJson,
}

/// Result of examining the front of a buffer.
pub enum FrameStep {
    /// A full frame occupies the first `len` bytes.
    Complete { frame: ServerFrame, len: int },
    /// No full frame yet; reading more bytes may produce one.
    Incomplete,
    /// The buffer can never become a frame.
    Malformed { reason: ParseError },
}

/// The parser specification.  Mirrors the order the executable parser
/// checks prefixes in; a buffer matching none of the five verbs waits for
/// more bytes.  A MSG header is validated as soon as its line is complete,
/// before the payload has arrived; the two bytes following the payload are
/// consumed without inspection.
pub open spec fn parse_frame(b: Seq<u8>) -> FrameStep {
    if starts_with(b, ok_lit()) {
        FrameStep::Complete { frame: ServerFrame::Okay, len: 5 }
    } else if starts_with(b, ping_lit()) {
        FrameStep::Complete { frame: ServerFrame::Ping, len: 6 }
    } else if starts_with(b, pong_lit()) {
        FrameStep::Complete { frame: ServerFrame::Pong, len: 6 }
    } else if starts_with(b, info_lit()) {
        match find_crlf_from(b, 0) {
            None => FrameStep::Incomplete,
            Some(e) => FrameStep::Complete {
                frame: ServerFrame::Info { json: b.subrange(5, e) },
                len: e + 2,
            },
        }
    } else if starts_with(b, msg_lit()) {
        match find_crlf_from(b, 0) {
            None => FrameStep::Incomplete,
            Some(e) => if !vstd::utf8::valid_utf8(b.subrange(4, e)) {
                FrameStep::Malformed { reason: ParseError::InvalidUtf8 }
            } else {
                parse_msg_args(b, e)
            },
        }
    } else {
        FrameStep::Incomplete
    }
}

/// A MSG frame whose valid-UTF-8 header line ends at `e`:
/// `MSG <subject> <sid> [reply] <nbytes>`, then the payload.
pub open spec fn parse_msg_args(b: Seq<u8>, e: int) -> FrameStep {
    let args = tokens_of(b.subrange(4, e));
    if args.len() != 3 && args.len() != 4 {
        FrameStep::Malformed { reason: ParseError::BadArgCount }
    } else {
        let sid_tok = args[1];
        let len_tok = args[args.len() - 1];
        if !(dec_digits(sid_tok) && dec_val(sid_tok) <= u64::MAX && dec_digits(len_tok)
            && dec_val(len_tok) <= u64::MAX) {
            FrameStep::Malformed { reason: ParseError::BadInteger }
        } else {
            let n = dec_val(len_tok);
            if e + 2 + n + 2 <= b.len() {
                FrameStep::Complete {
                    frame: ServerFrame::Msg {
                        sid: dec_val(sid_tok),
                        subject: args[0],
                        reply: if args.len() == 4 { Some(args[2]) } else { None },
                        payload: b.subrange(e + 2, e + 2 + n),
                    },
                    len: e + 2 + n + 2,
                }
            } else {
                FrameStep::Incomplete
            }
        }
    }
}

} // verus!
