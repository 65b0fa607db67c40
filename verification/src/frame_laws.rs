use vstd::prelude::*;
use vstd::utf8::encode_utf8;
use crate::resp::RespV;
use crate::text::{decimal_text, int_text, parse_i64_text, lemma_parse_int_text, lemma_decimal_text, all_digits, digits_value};
use crate::parser::{parse_value, parse_items, Parsed, ParsedItems, crlf_at, first_crlf};
use crate::resp_codec::{encode, encode_items, crlf_bytes};

verus! {

broadcast use vstd::utf8::group_utf8_lib;

/// Whether `b` contains the line end `\r\n`.
pub open spec fn has_crlf(b: Seq<u8>) -> bool {
    exists|j: int| crlf_at(b, j)
}

/// The values that the protocol can carry unchanged: simple strings and errors hold no
/// `\r\n`, and no length exceeds the largest `i64`.
pub open spec fn well_formed(r: RespV) -> bool
    decreases r,
{
    match r {
        RespV::Simple(s) => !has_crlf(encode_utf8(s)),
        RespV::Error(s) => !has_crlf(encode_utf8(s)),
        RespV::BulkString(s) => encode_utf8(s).len() <= i64::MAX,
        RespV::Array(items) => items.len() <= i64::MAX && well_formed_items(items),
        _ => true,
    }
}

pub open spec fn well_formed_items(items: Seq<RespV>) -> bool
    decreases items,
{
    items.len() == 0 || (well_formed(items[0]) && well_formed_items(items.drop_first()))
}

proof fn lemma_first_crlf_is(b: Seq<u8>, i: int, e: int)
    requires
        0 <= i <= e,
        crlf_at(b, e),
        forall|j: int| i <= j < e ==> !crlf_at(b, j),
    ensures
        first_crlf(b, i) == Some(e),
    decreases e - i,
{
    if i < e {
        assert(!crlf_at(b, i));
        lemma_first_crlf_is(b, i + 1, e);
    }
}

/// Where `b` holds, from position `p`, a tag byte, then `line` and `\r\n`, the line of the
/// frame at `p` is `line`.
proof fn lemma_line(b: Seq<u8>, p: int, line: Seq<u8>)
    requires
        0 <= p,
        p + line.len() + 3 <= b.len(),
        b.subrange(p + 1, p + 1 + line.len()) == line,
        b[p + 1 + line.len()] == 13,
        b[p + 2 + line.len()] == 10,
        !has_crlf(line),
    ensures
        first_crlf(b, p + 1) == Some(p + 1 + line.len()),
{
    let e = p + 1 + line.len();
    assert forall|j: int| p + 1 <= j < e implies !crlf_at(b, j) by {
        if j + 1 < e {
            assert(b[j] == line[j - p - 1]);
            assert(b[j + 1] == line[j - p]);
            if crlf_at(b, j) {
                assert(crlf_at(line, j - p - 1));
            }
        }
    }
    lemma_first_crlf_is(b, p + 1, e);
}

proof fn lemma_digits_no_crlf(t: Seq<u8>)
    requires
        all_digits(t),
    ensures
        !has_crlf(t),
{
    assert forall|j: int| !crlf_at(t, j) by {
        if 0 <= j < t.len() {
            assert(crate::text::is_digit(t[j]));
        }
    }
}

/// The line of an integer: it holds no line end and reads back as the integer.
proof fn lemma_int_line(i: i64)
    ensures
        !has_crlf(int_text(i as int)),
        parse_i64_text(int_text(i as int)) == Some(i),
{
    let line = int_text(i as int);
    lemma_parse_int_text(i);
    if i < 0 {
        lemma_decimal_text((-i) as nat);
        assert forall|j: int| !crlf_at(line, j) by {
            if 0 <= j && j + 1 < line.len() {
                assert(line[j + 1] == decimal_text((-i) as nat)[j]);
                assert(crate::text::is_digit(decimal_text((-i) as nat)[j]));
            }
        }
    } else {
        lemma_decimal_text(i as nat);
        lemma_digits_no_crlf(line);
    }
}

/// The line of a length: it reads back as the length.
proof fn lemma_length_line(n: nat)
    requires
        n <= i64::MAX,
    ensures
        !has_crlf(decimal_text(n)),
        parse_i64_text(decimal_text(n)) == Some(n as i64),
{
    lemma_decimal_text(n);
    lemma_digits_no_crlf(decimal_text(n));
    lemma_parse_int_text(n as i64);
}

/// Where `b` holds, from position `p`, the bytes `seq![tag] + line + crlf + tail`, the line
/// of the frame at `p` is `line`.
proof fn lemma_tagged_line(b: Seq<u8>, p: int, tag: u8, line: Seq<u8>, tail: Seq<u8>)
    requires
        0 <= p,
        p + (seq![tag] + line + crlf_bytes() + tail).len() <= b.len(),
        forall|k: int| 0 <= k < (seq![tag] + line + crlf_bytes() + tail).len()
            ==> b[p + k] == #[trigger] (seq![tag] + line + crlf_bytes() + tail)[k],
        !has_crlf(line),
    ensures
        first_crlf(b, p + 1) == Some(p + 1 + line.len()),
        b.subrange(p + 1, p + 1 + line.len()) == line,
        b[p] == tag,
{
    let enc = seq![tag] + line + crlf_bytes() + tail;
    assert forall|j: int| 0 <= j < line.len() implies b.subrange(p + 1, p + 1 + line.len())[j] == line[j] by {
        assert(enc[1 + j] == line[j]);
    }
    assert(b.subrange(p + 1, p + 1 + line.len()) =~= line);
    assert(enc[1 + line.len() as int] == 13);
    assert(enc[2 + line.len() as int] == 10);
    assert(enc[0] == tag);
    lemma_line(b, p, line);
}

proof fn lemma_first_crlf_none(b: Seq<u8>, i: int)
    requires
        0 <= i,
        forall|j: int| i <= j ==> !crlf_at(b, j),
    ensures
        first_crlf(b, i) is None,
    decreases b.len() - i,
{
    if i + 1 < b.len() {
        assert(!crlf_at(b, i));
        lemma_first_crlf_none(b, i + 1);
    }
}

/// Where `b` holds, from position `p` to its end, a proper beginning of the bytes
/// `seq![tag] + line + crlf + tail`: the line of the frame at `p` is found once `\r\n`
/// after it has arrived, and not before.
proof fn lemma_prefix_line(b: Seq<u8>, p: int, tag: u8, line: Seq<u8>, tail: Seq<u8>)
    requires
        0 <= p < b.len(),
        b.len() < p + (seq![tag] + line + crlf_bytes() + tail).len(),
        forall|k: int| 0 <= k < b.len() - p ==> b[p + k] == #[trigger] (seq![tag] + line + crlf_bytes() + tail)[k],
        !has_crlf(line),
    ensures
        b[p] == tag,
        b.len() < p + line.len() + 3 ==> first_crlf(b, p + 1) is None,
        b.len() >= p + line.len() + 3 ==> first_crlf(b, p + 1) == Some(p + 1 + line.len())
            && b.subrange(p + 1, p + 1 + line.len()) == line,
{
    let enc = seq![tag] + line + crlf_bytes() + tail;
    assert(enc[0] == tag);
    if b.len() < p + line.len() + 3 {
        assert forall|j: int| p + 1 <= j implies !crlf_at(b, j) by {
            if crlf_at(b, j) {
                if j + 1 < p + 1 + line.len() {
                    assert(b[j] == enc[j - p]);
                    assert(enc[j - p] == line[j - p - 1]);
                    assert(b[j + 1] == enc[j + 1 - p]);
                    assert(enc[j + 1 - p] == line[j - p]);
                    assert(crlf_at(line, j - p - 1));
                } else {
                    assert(j == p + line.len());
                    assert(b[j + 1] == enc[j + 1 - p]);
                    assert(enc[1 + line.len() as int] == 13);
                }
            }
        }
        lemma_first_crlf_none(b, p + 1);
    } else {
        assert forall|j: int| 0 <= j < line.len() implies b.subrange(p + 1, p + 1 + line.len())[j] == line[j] by {
            assert(enc[1 + j] == line[j]);
        }
        assert(b.subrange(p + 1, p + 1 + line.len()) =~= line);
        assert(enc[1 + line.len() as int] == 13);
        assert(enc[2 + line.len() as int] == 10);
        lemma_line(b, p, line);
    }
}

/// Where `b`, from position `p` to its end, holds a proper beginning of the bytes of a
/// well-formed value, reading at `p` needs more bytes.
pub proof fn lemma_parse_encoded_prefix(b: Seq<u8>, p: int, r: RespV)
    requires
        well_formed(r),
        0 <= p <= b.len(),
        b.len() < p + encode(r).len(),
        forall|k: int| 0 <= k < b.len() - p ==> b[p + k] == #[trigger] encode(r)[k],
    ensures
        parse_value(b, p) is Incomplete,
    decreases r,
{
    let enc = encode(r);
    if p == b.len() {
        return;
    }
    match r {
        RespV::Simple(s) => {
            let line = encode_utf8(s);
            assert(enc =~= seq![43u8] + line + crlf_bytes() + Seq::<u8>::empty());
            lemma_prefix_line(b, p, 43u8, line, Seq::empty());
        },
        RespV::Error(s) => {
            let line = encode_utf8(s);
            assert(enc =~= seq![45u8] + line + crlf_bytes() + Seq::<u8>::empty());
            lemma_prefix_line(b, p, 45u8, line, Seq::empty());
        },
        RespV::Int(i) => {
            let line = int_text(i as int);
            lemma_int_line(i);
            assert(enc =~= seq![58u8] + line + crlf_bytes() + Seq::<u8>::empty());
            lemma_prefix_line(b, p, 58u8, line, Seq::empty());
        },
        RespV::BulkString(s) => {
            let content = encode_utf8(s);
            let line = decimal_text(content.len());
            lemma_length_line(content.len());
            assert(enc =~= seq![36u8] + line + crlf_bytes() + (content + crlf_bytes()));
            lemma_prefix_line(b, p, 36u8, line, content + crlf_bytes());
            let next = p + 1 + line.len() + 2;
            let end = next + content.len();
            if b.len() > end {
                assert(b[end] == enc[end - p]);
            }
        },
        RespV::Array(items) => {
            let line = decimal_text(items.len());
            lemma_length_line(items.len());
            assert(enc =~= seq![42u8] + line + crlf_bytes() + encode_items(items));
            lemma_prefix_line(b, p, 42u8, line, encode_items(items));
            let next = p + 1 + line.len() + 2;
            if b.len() >= next {
                let body = encode_items(items);
                assert forall|k: int| 0 <= k < b.len() - next implies b[next + k] == #[trigger] body[k] by {
                    assert(b[next + k] == enc[next - p + k]);
                }
                lemma_parse_encoded_items_prefix(b, next, items);
            }
        },
        RespV::NullArray => {
            let line = seq![45u8, 49u8];
            assert(!has_crlf(line));
            assert(enc =~= seq![42u8] + line + crlf_bytes() + Seq::<u8>::empty());
            lemma_prefix_line(b, p, 42u8, line, Seq::empty());
        },
        RespV::NullBulkString => {
            let line = seq![45u8, 49u8];
            assert(!has_crlf(line));
            assert(enc =~= seq![36u8] + line + crlf_bytes() + Seq::<u8>::empty());
            lemma_prefix_line(b, p, 36u8, line, Seq::empty());
        },
    }
}

/// Where `b`, from position `p` to its end, holds a proper beginning of the bytes of
/// well-formed values, reading them at `p` needs more bytes.
pub proof fn lemma_parse_encoded_items_prefix(b: Seq<u8>, p: int, items: Seq<RespV>)
    requires
        well_formed_items(items),
        0 <= p <= b.len(),
        b.len() < p + encode_items(items).len(),
        forall|k: int| 0 <= k < b.len() - p ==> b[p + k] == #[trigger] encode_items(items)[k],
    ensures
        parse_items(b, p, items.len()) is Incomplete,
    decreases items,
{
    let all = encode_items(items);
    if items.len() == 0 {
        assert(all =~= Seq::<u8>::empty());
        return;
    }
    let first = encode(items[0]);
    let rest = encode_items(items.drop_first());
    assert(all == first + rest);
    if b.len() < p + first.len() {
        assert forall|k: int| 0 <= k < b.len() - p implies b[p + k] == #[trigger] first[k] by {
            assert(b[p + k] == all[k]);
        }
        lemma_parse_encoded_prefix(b, p, items[0]);
    } else {
        assert(b.subrange(p, p + first.len()) =~= first) by {
            assert forall|k: int| 0 <= k < first.len() implies b.subrange(p, p + first.len())[k] == first[k] by {
                assert(b[p + k] == all[k]);
            }
        }
        lemma_encode_nonempty(items[0]);
        lemma_parse_encoded(b, p, items[0]);
        let q = p + first.len();
        assert forall|k: int| 0 <= k < b.len() - q implies b[q + k] == #[trigger] rest[k] by {
            assert(b[q + k] == all[first.len() + k]);
        }
        lemma_parse_encoded_items_prefix(b, q, items.drop_first());
    }
}

/// Streaming: while only a proper beginning of the bytes of a well-formed value has arrived,
/// reading asks for more bytes.
pub proof fn law_partial_frame_incomplete(r: RespV, k: int)
    requires
        well_formed(r),
        0 <= k < encode(r).len(),
    ensures
        parse_value(encode(r).take(k), 0) is Incomplete,
{
    let b = encode(r).take(k);
    lemma_parse_encoded_prefix(b, 0, r);
}

/// Reading the bytes of a well-formed value at position `p` gives the value back, and the
/// position just after its bytes.
pub proof fn lemma_parse_encoded(b: Seq<u8>, p: int, r: RespV)
    requires
        well_formed(r),
        0 <= p,
        p + encode(r).len() <= b.len(),
        b.subrange(p, p + encode(r).len()) == encode(r),
    ensures
        parse_value(b, p) == Parsed::Done(p + encode(r).len(), r),
    decreases r,
{
    let enc = encode(r);
    assert forall|k: int| 0 <= k < enc.len() implies b[p + k] == #[trigger] enc[k] by {
        assert(b.subrange(p, p + enc.len())[k] == b[p + k]);
    }
    match r {
        RespV::Simple(s) => {
            let line = encode_utf8(s);
            assert(enc =~= seq![43u8] + line + crlf_bytes() + Seq::<u8>::empty());
            lemma_tagged_line(b, p, 43u8, line, Seq::empty());
        },
        RespV::Error(s) => {
            let line = encode_utf8(s);
            assert(enc =~= seq![45u8] + line + crlf_bytes() + Seq::<u8>::empty());
            lemma_tagged_line(b, p, 45u8, line, Seq::empty());
        },
        RespV::Int(i) => {
            let line = int_text(i as int);
            lemma_int_line(i);
            assert(enc =~= seq![58u8] + line + crlf_bytes() + Seq::<u8>::empty());
            lemma_tagged_line(b, p, 58u8, line, Seq::empty());
        },
        RespV::BulkString(s) => {
            let content = encode_utf8(s);
            let line = decimal_text(content.len());
            lemma_length_line(content.len());
            assert(enc =~= seq![36u8] + line + crlf_bytes() + (content + crlf_bytes()));
            lemma_tagged_line(b, p, 36u8, line, content + crlf_bytes());
            let next = p + 1 + line.len() + 2;
            let end = next + content.len();
            assert(b[end] == enc[end - p]);
            assert(b[end + 1] == enc[end + 1 - p]);
            assert forall|k: int| 0 <= k < content.len() implies b.subrange(next, end)[k] == content[k] by {
                assert(enc[next - p + k] == content[k]);
            }
            assert(b.subrange(next, end) =~= content);
        },
        RespV::Array(items) => {
            let line = decimal_text(items.len());
            lemma_length_line(items.len());
            assert(enc =~= seq![42u8] + line + crlf_bytes() + encode_items(items));
            lemma_tagged_line(b, p, 42u8, line, encode_items(items));
            let next = p + 1 + line.len() + 2;
            let body = encode_items(items);
            assert forall|k: int| 0 <= k < body.len() implies b.subrange(next, next + body.len())[k] == body[k] by {
                assert(enc[next - p + k] == body[k]);
            }
            assert(b.subrange(next, next + body.len()) =~= body);
            lemma_parse_encoded_items(b, next, items);
        },
        RespV::NullArray => {
            let line = seq![45u8, 49u8];
            assert(!has_crlf(line));
            assert(enc =~= seq![42u8] + line + crlf_bytes() + Seq::<u8>::empty());
            lemma_tagged_line(b, p, 42u8, line, Seq::empty());
            assert(line.drop_first() =~= seq![49u8]);
            assert(crate::text::unsigned_part(line, true) =~= seq![49u8]);
            lemma_one_text();
        },
        RespV::NullBulkString => {
            let line = seq![45u8, 49u8];
            assert(!has_crlf(line));
            assert(enc =~= seq![36u8] + line + crlf_bytes() + Seq::<u8>::empty());
            lemma_tagged_line(b, p, 36u8, line, Seq::empty());
            assert(crate::text::unsigned_part(line, true) =~= seq![49u8]);
            lemma_one_text();
        },
    }
}

/// Reading the bytes of well-formed values at position `p` gives them back.
pub proof fn lemma_parse_encoded_items(b: Seq<u8>, p: int, items: Seq<RespV>)
    requires
        well_formed_items(items),
        0 <= p,
        p + encode_items(items).len() <= b.len(),
        b.subrange(p, p + encode_items(items).len()) == encode_items(items),
    ensures
        parse_items(b, p, items.len()) == ParsedItems::Done(p + encode_items(items).len(), items),
    decreases items,
{
    if items.len() > 0 {
        let first = encode(items[0]);
        let rest = encode_items(items.drop_first());
        let all = encode_items(items);
        assert(all == first + rest);
        assert(b.subrange(p, p + first.len()) =~= first) by {
            assert forall|k: int| 0 <= k < first.len() implies b.subrange(p, p + first.len())[k] == first[k] by {
                assert(b.subrange(p, p + all.len())[k] == all[k]);
            }
        }
        assert(b.subrange(p + first.len(), p + first.len() + rest.len()) =~= rest) by {
            assert forall|k: int| 0 <= k < rest.len() implies b.subrange(p + first.len(), p + first.len() + rest.len())[k] == rest[k] by {
                assert(b.subrange(p, p + all.len())[first.len() + k] == all[first.len() + k]);
            }
        }
        lemma_encode_nonempty(items[0]);
        lemma_parse_encoded(b, p, items[0]);
        lemma_parse_encoded_items(b, p + first.len(), items.drop_first());
        assert(seq![items[0]] + items.drop_first() =~= items);
    } else {
        assert(encode_items(items) =~= Seq::<u8>::empty());
        assert(items =~= Seq::<RespV>::empty());
    }
}

proof fn lemma_one_text()
    ensures
        digits_value(seq![49u8]) == 1,
        crate::text::all_digits(seq![49u8]),
{
    assert(seq![49u8].drop_last() =~= Seq::<u8>::empty());
    reveal_with_fuel(digits_value, 2);
}

proof fn lemma_encode_nonempty(r: RespV)
    ensures
        encode(r).len() >= 1,
{
}

/// Roundtrip: reading the bytes of a well-formed value, whatever bytes follow them, gives
/// back the value and tells that exactly its bytes were read, so that what is left is what
/// followed them. (`RespCodec::decode` then hands back the value and leaves `rest` in the
/// buffer.) A length above the largest `i64` is where it fails: lengths are read as `i64`.
pub proof fn law_decode_encoded(r: RespV, rest: Seq<u8>)
    requires
        well_formed(r),
    ensures
        parse_value(encode(r) + rest, 0) == Parsed::Done(encode(r).len() as int, r),
        (encode(r) + rest).skip(encode(r).len() as int) == rest,
{
    let b = encode(r) + rest;
    assert(b.skip(encode(r).len() as int) =~= rest);
    assert(b.subrange(0, encode(r).len() as int) =~= encode(r));
    lemma_parse_encoded(b, 0, r);
}

proof fn lemma_first_crlf_extend(b: Seq<u8>, x: Seq<u8>, i: int)
    requires
        0 <= i,
        first_crlf(b, i) is Some,
    ensures
        first_crlf(b + x, i) == first_crlf(b, i),
    decreases b.len() - i,
{
    if i + 1 < b.len() {
        assert((b + x)[i] == b[i]);
        assert((b + x)[i + 1] == b[i + 1]);
        if !(b[i] == 13 && b[i + 1] == 10) {
            lemma_first_crlf_extend(b, x, i + 1);
        }
    }
}

/// Reading at `p` ends within the buffer; and once it has an outcome other than "more bytes
/// needed", more bytes after the buffer do not change it.
pub proof fn lemma_parse_extend(b: Seq<u8>, x: Seq<u8>, p: int)
    requires
        0 <= p,
    ensures
        parse_value(b, p) matches Parsed::Done(e, _) ==> p < e <= b.len(),
        !(parse_value(b, p) is Incomplete) ==> parse_value(b + x, p) == parse_value(b, p),
    decreases b.len() - p, 0int,
{
    let bx = b + x;
    if p >= b.len() {
        return;
    }
    assert(bx[p] == b[p]);
    if !crate::parser::is_frame_tag(b[p]) {
        return;
    }
    match first_crlf(b, p + 1) {
        None => {},
        Some(e) => {
            crate::parser::lemma_first_crlf(b, p + 1);
            lemma_first_crlf_extend(b, x, p + 1);
            assert(bx.subrange(p + 1, e) =~= b.subrange(p + 1, e));
            let next = e + 2;
            let tag = b[p];
            let line = b.subrange(p + 1, e);
            if tag == 36 || tag == 42 {
                match parse_i64_text(line) {
                    None => {},
                    Some(n) => {
                        if n >= 0 {
                            if tag == 36 {
                                let end = next + n;
                                if b.len() >= end + 2 {
                                    assert(bx[end] == b[end]);
                                    assert(bx[end + 1] == b[end + 1]);
                                    assert(bx.subrange(next, end) =~= b.subrange(next, end));
                                } else if b.len() > end {
                                    assert(bx[end] == b[end]);
                                }
                            } else {
                                lemma_parse_items_extend(b, x, next, n as nat);
                            }
                        }
                    },
                }
            }
        },
    }
}

/// Reading values at `p` ends within the buffer; and once it has an outcome other than "more
/// bytes needed", more bytes after the buffer do not change it.
pub proof fn lemma_parse_items_extend(b: Seq<u8>, x: Seq<u8>, p: int, count: nat)
    requires
        0 <= p <= b.len(),
    ensures
        parse_items(b, p, count) matches ParsedItems::Done(e, _) ==> p <= e <= b.len(),
        !(parse_items(b, p, count) is Incomplete) ==> parse_items(b + x, p, count) == parse_items(b, p, count),
    decreases b.len() - p, 1int,
{
    if count > 0 {
        lemma_parse_extend(b, x, p);
        match parse_value(b, p) {
            Parsed::Done(e, v) => {
                lemma_parse_items_extend(b, x, e, (count - 1) as nat);
            },
            _ => {},
        }
    }
}

/// Streaming: the outcome of reading a frame changes only from "more bytes needed" to a
/// value or to an error; a value or an error, once read, stays the same when more bytes
/// arrive after it.
pub proof fn law_outcome_is_final(b: Seq<u8>, x: Seq<u8>)
    requires
        !(parse_value(b, 0) is Incomplete),
    ensures
        parse_value(b + x, 0) == parse_value(b, 0),
{
    lemma_parse_extend(b, x, 0);
}

} // verus!
