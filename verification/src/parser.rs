use vstd::prelude::*;
use vstd::utf8::{decode_utf8, valid_utf8};
use crate::resp::{Resp, RespV, items_view, lemma_items_view, lemma_items_view_push};
use crate::text::{parse_i64_text, parse_i64_bytes};
use crate::utf8_text::string_from_utf8;

verus! {

/// Why a frame could not be read.
#[derive(Debug, PartialEq, Eq)]
pub enum ParseError {
    /// The bytes so far are the start of a frame; more are needed.
    Incomplete,
    /// The bytes cannot be the start of any frame.
    Invalid,
}

/// The model of what reading one value from a position of a buffer gives.
pub enum Parsed {
    /// A value that ends just before the given position.
    Done(int, RespV),
    Incomplete,
    Invalid,
}

/// The model of what reading a number of values one after another gives.
pub enum ParsedItems {
    /// The values, the last of which ends just before the given position.
    Done(int, Seq<RespV>),
    Incomplete,
    Invalid,
}

pub open spec fn crlf_at(b: Seq<u8>, i: int) -> bool {
    0 <= i && i + 1 < b.len() && b[i] == 13 && b[i + 1] == 10
}

/// The position of the first `\r\n` in `b` at or after `i`.
pub open spec fn first_crlf(b: Seq<u8>, i: int) -> Option<int>
    decreases b.len() - i,
{
    if i < 0 || i + 1 >= b.len() {
        None
    } else if b[i] == 13 && b[i + 1] == 10 {
        Some(i)
    } else {
        first_crlf(b, i + 1)
    }
}

pub proof fn lemma_first_crlf(b: Seq<u8>, i: int)
    requires
        0 <= i,
    ensures
        match first_crlf(b, i) {
            Some(e) => i <= e && crlf_at(b, e) && forall|j: int| i <= j < e ==> !crlf_at(b, j),
            None => forall|j: int| i <= j ==> !crlf_at(b, j),
        },
    decreases b.len() - i,
{
    if i < 0 || i + 1 >= b.len() {
    } else if b[i] == 13 && b[i + 1] == 10 {
    } else {
        lemma_first_crlf(b, i + 1);
    }
}

/// Whether a byte starts one of the kinds of frames.
pub open spec fn is_frame_tag(t: u8) -> bool {
    t == 43 || t == 45 || t == 58 || t == 36 || t == 42
}

/// The model of reading one RESP value from position `pos` of `b`. A frame is a tag byte
/// (`+` simple string, `-` error, `:` integer, `$` bulk string, `*` array) and a line that
/// ends in `\r\n`; a bulk string then holds as many bytes as its line says, and `\r\n`; an
/// array then holds as many values as its line says. A length of -1 is the null bulk
/// string or the null array. Text must be UTF-8.
pub open spec fn parse_value(b: Seq<u8>, pos: int) -> Parsed
    decreases b.len() - pos, 0int,
{
    if pos < 0 || pos >= b.len() {
        Parsed::Incomplete
    } else if !is_frame_tag(b[pos]) {
        Parsed::Invalid
    } else {
        match first_crlf(b, pos + 1) {
            None => Parsed::Incomplete,
            Some(e) => {
                proof {
                    lemma_first_crlf(b, pos + 1);
                }
                let line = b.subrange(pos + 1, e);
                let next = e + 2;
                let tag = b[pos];
                if tag == 43 || tag == 45 {
                    if valid_utf8(line) {
                        if tag == 43 {
                            Parsed::Done(next, RespV::Simple(decode_utf8(line)))
                        } else {
                            Parsed::Done(next, RespV::Error(decode_utf8(line)))
                        }
                    } else {
                        Parsed::Invalid
                    }
                } else {
                    match parse_i64_text(line) {
                        None => Parsed::Invalid,
                        Some(n) => {
                            if tag == 58 {
                                Parsed::Done(next, RespV::Int(n))
                            } else if n == -1 {
                                if tag == 36 {
                                    Parsed::Done(next, RespV::NullBulkString)
                                } else {
                                    Parsed::Done(next, RespV::NullArray)
                                }
                            } else if n < -1 {
                                Parsed::Invalid
                            } else if tag == 36 {
                                let end = next + n;
                                if b.len() < end + 2 {
                                    if b.len() > end && b[end] != 13 {
                                        Parsed::Invalid
                                    } else {
                                        Parsed::Incomplete
                                    }
                                } else if b[end] == 13 && b[end + 1] == 10 {
                                    let content = b.subrange(next, end);
                                    if valid_utf8(content) {
                                        Parsed::Done(end + 2, RespV::BulkString(decode_utf8(content)))
                                    } else {
                                        Parsed::Invalid
                                    }
                                } else {
                                    Parsed::Invalid
                                }
                            } else {
                                array_outcome(parse_items(b, next, n as nat))
                            }
                        },
                    }
                }
            },
        }
    }
}

/// An array of the values read, where they could be read.
pub open spec fn array_outcome(r: ParsedItems) -> Parsed {
    match r {
        ParsedItems::Done(e, items) => Parsed::Done(e, RespV::Array(items)),
        ParsedItems::Incomplete => Parsed::Incomplete,
        ParsedItems::Invalid => Parsed::Invalid,
    }
}

/// The model of reading `count` values one after another from position `pos` of `b`.
pub open spec fn parse_items(b: Seq<u8>, pos: int, count: nat) -> ParsedItems
    decreases b.len() - pos, 1int,
{
    if count == 0 {
        ParsedItems::Done(pos, Seq::empty())
    } else {
        match parse_value(b, pos) {
            Parsed::Done(e, v) => {
                if pos < e <= b.len() {
                    match parse_items(b, e, (count - 1) as nat) {
                        ParsedItems::Done(e2, vs) => ParsedItems::Done(e2, seq![v] + vs),
                        ParsedItems::Incomplete => ParsedItems::Incomplete,
                        ParsedItems::Invalid => ParsedItems::Invalid,
                    }
                } else {
                    ParsedItems::Invalid
                }
            },
            Parsed::Incomplete => ParsedItems::Incomplete,
            Parsed::Invalid => ParsedItems::Invalid,
        }
    }
}

/// What reading values gives, with `acc` in front of the values read.
pub open spec fn prepend_items(acc: Seq<RespV>, r: ParsedItems) -> ParsedItems {
    match r {
        ParsedItems::Done(e, vs) => ParsedItems::Done(e, acc + vs),
        ParsedItems::Incomplete => ParsedItems::Incomplete,
        ParsedItems::Invalid => ParsedItems::Invalid,
    }
}

/// The outcome of reading one value from a position of a buffer.
enum Step {
    Done(usize, Resp),
    Incomplete,
    Invalid,
}

spec fn step_view(s: Step) -> Parsed {
    match s {
        Step::Done(e, v) => Parsed::Done(e as int, v@),
        Step::Incomplete => Parsed::Incomplete,
        Step::Invalid => Parsed::Invalid,
    }
}

/// The position of the first `\r\n` in `buf` at or after `from`.
fn find_crlf(buf: &[u8], from: usize) -> (r: Option<usize>)
    ensures
        match r {
            Some(e) => first_crlf(buf@, from as int) == Some(e as int),
            None => first_crlf(buf@, from as int) is None,
        },
{
    if from >= buf.len() {
        return None;
    }
    let mut i: usize = from;
    while buf.len() - i >= 2
        invariant
            from <= i < buf@.len(),
            first_crlf(buf@, from as int) == first_crlf(buf@, i as int),
        decreases buf.len() - i,
    {
        if buf[i] == 13 && buf[i + 1] == 10 {
            return Some(i);
        }
        i = i + 1;
    }
    None
}

/// Reads one value from position `pos` of `buf`.
fn parse_value_at(buf: &[u8], pos: usize) -> (r: Step)
    requires
        pos <= buf@.len(),
    ensures
        step_view(r) == parse_value(buf@, pos as int),
        r matches Step::Done(e, _) ==> pos < e <= buf@.len(),
    decreases buf@.len() - pos,
{
    if pos >= buf.len() {
        return Step::Incomplete;
    }
    let tag = buf[pos];
    if !(tag == 43 || tag == 45 || tag == 58 || tag == 36 || tag == 42) {
        return Step::Invalid;
    }
    let e = match find_crlf(buf, pos + 1) {
        None => { return Step::Incomplete; },
        Some(e) => e,
    };
    proof {
        lemma_first_crlf(buf@, pos + 1);
    }
    let next = e + 2;
    let line = vstd::slice::slice_subrange(buf, pos + 1, e);
    if tag == 43 || tag == 45 {
        let bytes = vstd::slice::slice_to_vec(line);
        match string_from_utf8(bytes) {
            Some(s) => {
                if tag == 43 {
                    Step::Done(next, Resp::Simple(s))
                } else {
                    Step::Done(next, Resp::Error(s))
                }
            },
            None => Step::Invalid,
        }
    } else {
        let n = match parse_i64_bytes(line) {
            None => { return Step::Invalid; },
            Some(n) => n,
        };
        if tag == 58 {
            Step::Done(next, Resp::Int(n))
        } else if n == -1 {
            if tag == 36 {
                Step::Done(next, Resp::NullBulkString)
            } else {
                Step::Done(next, Resp::NullArray)
            }
        } else if n < -1 {
            Step::Invalid
        } else if tag == 36 {
            let avail = buf.len() - next;
            if (n as u128) + 2 > (avail as u128) {
                if (n as u128) < (avail as u128) {
                    let end = next + (n as usize);
                    if buf[end] != 13 {
                        Step::Invalid
                    } else {
                        Step::Incomplete
                    }
                } else {
                    Step::Incomplete
                }
            } else {
                let end = next + (n as usize);
                if buf[end] == 13 && buf[end + 1] == 10 {
                    let bytes = vstd::slice::slice_to_vec(vstd::slice::slice_subrange(buf, next, end));
                    match string_from_utf8(bytes) {
                        Some(s) => Step::Done(end + 2, Resp::BulkString(s)),
                        None => Step::Invalid,
                    }
                } else {
                    Step::Invalid
                }
            }
        } else {
            let count: u64 = n as u64;
            let mut items: Vec<Resp> = Vec::new();
            let mut cur: usize = next;
            let mut i: u64 = 0;
            while i < count
                invariant
                    pos < next <= cur <= buf@.len(),
                    i <= count,
                    parse_value(buf@, pos as int) == array_outcome(parse_items(buf@, next as int, count as nat)),
                    prepend_items(items_view(items@), parse_items(buf@, cur as int, (count - i) as nat))
                        == parse_items(buf@, next as int, count as nat),
                decreases count - i,
            {
                let ghost m = (count - i) as nat;
                match parse_value_at(buf, cur) {
                    Step::Done(e1, v) => {
                        proof {
                            let rest = parse_items(buf@, e1 as int, (m - 1) as nat);
                            lemma_items_view_push(items@, v);
                            match rest {
                                ParsedItems::Done(e2, vs) => {
                                    assert(items_view(items@) + (seq![v@] + vs) =~= items_view(items@).push(v@) + vs);
                                },
                                _ => {},
                            }
                        }
                        items.push(v);
                        cur = e1;
                        i = i + 1;
                    },
                    Step::Incomplete => { return Step::Incomplete; },
                    Step::Invalid => { return Step::Invalid; },
                }
            }
            proof {
                lemma_items_view(items@);
                assert(items_view(items@) + Seq::<RespV>::empty() =~= items_view(items@));
            }
            Step::Done(cur, Resp::Array(items))
        }
    }
}

/// Reads the line end `\r\n` from the front of `i`: more bytes are needed where `i` is a
/// proper prefix of it; other bytes are invalid.
pub fn crlf(i: &[u8]) -> (r: Result<&[u8], ParseError>)
    ensures
        match r {
            Ok(rest) => crlf_at(i@, 0) && rest@ == i@.skip(2),
            Err(ParseError::Incomplete) => i@.len() == 0 || (i@.len() == 1 && i@[0] == 13),
            Err(ParseError::Invalid) => !crlf_at(i@, 0) && !(i@.len() == 0 || (i@.len() == 1 && i@[0] == 13)),
        },
{
    if i.len() >= 2 {
        if i[0] == 13 && i[1] == 10 {
            Ok(vstd::slice::slice_subrange(i, 2, i.len()))
        } else {
            Err(ParseError::Invalid)
        }
    } else if i.len() == 0 || i[0] == 13 {
        Err(ParseError::Incomplete)
    } else {
        Err(ParseError::Invalid)
    }
}

/// Reads a decimal `i64` followed by `\r\n` from the front of `i`: more bytes are needed
/// where there is no `\r\n`; the text before the first one must read as an `i64` the way
/// `str::parse` reads it.
pub fn parse_number(i: &[u8]) -> (r: Result<(&[u8], i64), ParseError>)
    ensures
        match first_crlf(i@, 0) {
            None => r == Err::<(&[u8], i64), ParseError>(ParseError::Incomplete),
            Some(e) => match parse_i64_text(i@.subrange(0, e)) {
                None => r == Err::<(&[u8], i64), ParseError>(ParseError::Invalid),
                Some(n) => r matches Ok((rest, v)) && v == n && rest@ == i@.skip(e + 2),
            },
        },
{
    let e = match find_crlf(i, 0) {
        None => { return Err(ParseError::Incomplete); },
        Some(e) => e,
    };
    proof {
        lemma_first_crlf(i@, 0);
        assert(crlf_at(i@, e as int));
    }
    let len = i.len();
    match parse_i64_bytes(vstd::slice::slice_subrange(i, 0, e)) {
        None => Err(ParseError::Invalid),
        Some(n) => Ok((vstd::slice::slice_subrange(i, e + 2, len), n)),
    }
}

/// Reads one RESP value from the front of `input`; on success gives the bytes after it.
pub fn parse_resp(input: &[u8]) -> (r: Result<(&[u8], Resp), ParseError>)
    ensures
        match r {
            Ok((rest, v)) => {
                &&& rest@.len() <= input@.len()
                &&& parse_value(input@, 0) == Parsed::Done(input@.len() - rest@.len(), v@)
                &&& rest@ == input@.skip(input@.len() - rest@.len())
            },
            Err(ParseError::Incomplete) => parse_value(input@, 0) is Incomplete,
            Err(ParseError::Invalid) => parse_value(input@, 0) is Invalid,
        },
{
    match parse_value_at(input, 0) {
        Step::Done(e, v) => {
            let rest = vstd::slice::slice_subrange(input, e, input.len());
            Ok((rest, v))
        },
        Step::Incomplete => Err(ParseError::Incomplete),
        Step::Invalid => Err(ParseError::Invalid),
    }
}

} // verus!
