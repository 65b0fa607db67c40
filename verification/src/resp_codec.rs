use vstd::prelude::*;
use vstd::utf8::{encode_utf8, valid_utf8};
use crate::resp::{Resp, RespV, items_view, lemma_items_view};
use crate::text::{decimal_text, int_text, push_decimal, push_int};
use crate::utf8_text::string_from_utf8;
use crate::parser::{parse_resp, parse_value, Parsed, ParseError};
use crate::buffer::{bytes_mut_contents, buffer_bytes, buffer_advance, buffer_put_slice};
use bytes::BytesMut;

verus! {

broadcast use vstd::utf8::group_utf8_lib;

/// The two bytes that end every line of the protocol.
pub open spec fn crlf_bytes() -> Seq<u8> {
    seq![13u8, 10u8]
}

/// The bytes of a value in the protocol.
pub open spec fn encode(r: RespV) -> Seq<u8>
    decreases r,
{
    match r {
        RespV::Simple(s) => seq![43u8] + encode_utf8(s) + crlf_bytes(),
        RespV::Error(s) => seq![45u8] + encode_utf8(s) + crlf_bytes(),
        RespV::Int(i) => seq![58u8] + int_text(i as int) + crlf_bytes(),
        RespV::BulkString(s) => seq![36u8] + decimal_text(encode_utf8(s).len()) + crlf_bytes()
            + encode_utf8(s) + crlf_bytes(),
        RespV::Array(items) => seq![42u8] + decimal_text(items.len()) + crlf_bytes() + encode_items(items),
        RespV::NullArray => seq![42u8, 45u8, 49u8, 13u8, 10u8],
        RespV::NullBulkString => seq![36u8, 45u8, 49u8, 13u8, 10u8],
    }
}

/// The bytes of a sequence of values, one after another.
pub open spec fn encode_items(items: Seq<RespV>) -> Seq<u8>
    decreases items,
{
    if items.len() == 0 {
        Seq::empty()
    } else {
        encode(items[0]) + encode_items(items.drop_first())
    }
}

pub proof fn lemma_encode_items_push(items: Seq<RespV>, x: RespV)
    ensures
        encode_items(items.push(x)) == encode_items(items) + encode(x),
    decreases items.len(),
{
    if items.len() == 0 {
        assert(items.push(x).drop_first() =~= Seq::<RespV>::empty());
        assert(encode_items(items.push(x).drop_first()) == Seq::<u8>::empty());
        assert(items.push(x)[0] == x);
        assert(encode_items(items.push(x)) =~= encode(x));
    } else {
        assert(items.push(x).drop_first() =~= items.drop_first().push(x));
        lemma_encode_items_push(items.drop_first(), x);
        assert(encode_items(items.push(x)) =~= encode_items(items) + encode(x));
    }
}

/// Appends the bytes of `bytes` to `out`.
fn push_bytes(out: &mut Vec<u8>, bytes: &[u8])
    ensures
        final(out)@ == old(out)@ + bytes@,
{
    let mut i: usize = 0;
    while i < bytes.len()
        invariant
            i <= bytes@.len(),
            out@ == old(out)@ + bytes@.take(i as int),
        decreases bytes.len() - i,
    {
        out.push(bytes[i]);
        i = i + 1;
        assert(out@ =~= old(out)@ + bytes@.take(i as int));
    }
    assert(bytes@.take(i as int) =~= bytes@);
}

fn push_crlf(out: &mut Vec<u8>)
    ensures
        final(out)@ == old(out)@ + crlf_bytes(),
{
    out.push(13);
    out.push(10);
    assert(out@ =~= old(out)@ + crlf_bytes());
}

/// Appends the bytes of `r` in the protocol to `out`.
pub fn encode_into(r: &Resp, out: &mut Vec<u8>)
    ensures
        final(out)@ == old(out)@ + encode(r@),
    decreases r,
{
    match r {
        Resp::Simple(s) => {
            out.push(43);
            push_bytes(out, s.as_str().as_bytes());
            push_crlf(out);
            assert(out@ =~= old(out)@ + encode(r@));
        },
        Resp::Error(s) => {
            out.push(45);
            push_bytes(out, s.as_str().as_bytes());
            push_crlf(out);
            assert(out@ =~= old(out)@ + encode(r@));
        },
        Resp::Int(i) => {
            out.push(58);
            push_int(out, *i);
            push_crlf(out);
            assert(out@ =~= old(out)@ + encode(r@));
        },
        Resp::BulkString(s) => {
            let bytes = s.as_str().as_bytes();
            out.push(36);
            push_decimal(out, bytes.len() as u64);
            push_crlf(out);
            push_bytes(out, bytes);
            push_crlf(out);
            assert(out@ =~= old(out)@ + encode(r@));
        },
        Resp::Array(items) => {
            out.push(42);
            push_decimal(out, items.len() as u64);
            push_crlf(out);
            let ghost start = out@;
            proof {
                lemma_items_view(items@);
            }
            let mut i: usize = 0;
            while i < items.len()
                invariant
                    i <= items.len(),
                    *r == Resp::Array(*items),
                    out@ == start + encode_items(items_view(items@).take(i as int)),
                    items_view(items@).len() == items@.len(),
                    forall|j: int| 0 <= j < items@.len() ==> #[trigger] items_view(items@)[j] == items@[j]@,
                decreases items.len() - i,
            {
                proof {
                    assert(decreases_to!(*r => (*r)->Array_0));
                    assert(decreases_to!(*r => items@[i as int]));
                    lemma_encode_items_push(items_view(items@).take(i as int), items@[i as int]@);
                    assert(items_view(items@).take(i + 1) =~= items_view(items@).take(i as int).push(items@[i as int]@));
                }
                encode_into(&items[i], out);
                i = i + 1;
            }
            proof {
                assert(items_view(items@).take(i as int) =~= items_view(items@));
            }
            assert(out@ =~= old(out)@ + encode(r@));
        },
        Resp::NullArray => {
            out.push(42);
            out.push(45);
            out.push(49);
            push_crlf(out);
            assert(out@ =~= old(out)@ + encode(r@));
        },
        Resp::NullBulkString => {
            out.push(36);
            out.push(45);
            out.push(49);
            push_crlf(out);
            assert(out@ =~= old(out)@ + encode(r@));
        },
    }
}

/// Bytes that are all ASCII are valid UTF-8.
pub proof fn lemma_ascii_valid_utf8(b: Seq<u8>)
    requires
        forall|i: int| 0 <= i < b.len() ==> #[trigger] b[i] < 128,
    ensures
        valid_utf8(b),
{
    let chars = Seq::new(b.len(), |i: int| b[i] as char);
    assert(vstd::utf8::is_ascii_chars(chars));
    vstd::utf8::is_ascii_chars_encode_utf8(chars);
    assert forall|i: int| 0 <= i < b.len() implies encode_utf8(chars)[i] == b[i] by {
        assert(chars[i] as u8 == b[i]);
    }
    assert(encode_utf8(chars) =~= b);
}

proof fn lemma_decimal_ascii(n: nat)
    ensures
        forall|i: int| 0 <= i < decimal_text(n).len() ==> #[trigger] decimal_text(n)[i] < 128,
{
    crate::text::lemma_decimal_text(n);
}

/// The bytes of every value are valid UTF-8.
pub proof fn lemma_encode_valid_utf8(r: RespV)
    ensures
        valid_utf8(encode(r)),
    decreases r,
{
    lemma_ascii_valid_utf8(crlf_bytes());
    lemma_ascii_valid_utf8(seq![43u8]);
    lemma_ascii_valid_utf8(seq![45u8]);
    lemma_ascii_valid_utf8(seq![58u8]);
    lemma_ascii_valid_utf8(seq![36u8]);
    lemma_ascii_valid_utf8(seq![42u8]);
    match r {
        RespV::Int(i) => {
            if i < 0 {
                lemma_decimal_ascii((-i) as nat);
                let t = int_text(i as int);
                assert forall|k: int| 0 <= k < t.len() implies #[trigger] t[k] < 128 by {
                    if k > 0 {
                        assert(t[k] == decimal_text((-i) as nat)[k - 1]);
                    }
                }
                lemma_ascii_valid_utf8(t);
            } else {
                lemma_decimal_ascii(i as nat);
                lemma_ascii_valid_utf8(int_text(i as int));
            }
            assert(valid_utf8(seq![58u8] + int_text(i as int)));
        },
        RespV::BulkString(s) => {
            lemma_decimal_ascii(encode_utf8(s).len());
            lemma_ascii_valid_utf8(decimal_text(encode_utf8(s).len()));
            let a = seq![36u8] + decimal_text(encode_utf8(s).len());
            assert(valid_utf8(a));
            assert(valid_utf8(a + crlf_bytes()));
            assert(valid_utf8(encode_utf8(s)));
            assert(valid_utf8(a + crlf_bytes() + encode_utf8(s)));
        },
        RespV::Simple(s) => {
            assert(valid_utf8(encode_utf8(s)));
            assert(valid_utf8(seq![43u8] + encode_utf8(s)));
        },
        RespV::Error(s) => {
            assert(valid_utf8(encode_utf8(s)));
            assert(valid_utf8(seq![45u8] + encode_utf8(s)));
        },
        RespV::Array(items) => {
            lemma_decimal_ascii(items.len());
            lemma_ascii_valid_utf8(decimal_text(items.len()));
            lemma_encode_items_valid_utf8(items);
            assert(valid_utf8(seq![42u8] + decimal_text(items.len())));
            assert(valid_utf8(seq![42u8] + decimal_text(items.len()) + crlf_bytes()));
        },
        RespV::NullArray => {
            lemma_ascii_valid_utf8(encode(r));
        },
        RespV::NullBulkString => {
            lemma_ascii_valid_utf8(encode(r));
        },
    }
}

pub proof fn lemma_encode_items_valid_utf8(items: Seq<RespV>)
    ensures
        valid_utf8(encode_items(items)),
    decreases items,
{
    if items.len() > 0 {
        lemma_encode_valid_utf8(items[0]);
        lemma_encode_items_valid_utf8(items.drop_first());
    }
}

/// Why a frame could not be read.
#[derive(Debug, Clone, Copy, PartialEq, Eq)]
pub enum CodecError {
    /// The bytes at the front of the buffer cannot start a frame.
    InvalidData,
}

/// Reads and writes RESP frames.
pub struct RespCodec {}

impl RespCodec {
    /// Takes one frame from the front of `src`. A complete frame is removed from the buffer
    /// and given back; the start of a frame leaves the buffer as it is and gives `None`;
    /// bytes that cannot start a frame give `CodecError::InvalidData` and leave the buffer
    /// as it is.
    pub fn decode(&mut self, src: &mut BytesMut) -> (r: Result<Option<Resp>, CodecError>)
        ensures
            match parse_value(bytes_mut_contents(*old(src)), 0) {
                Parsed::Done(e, v) => {
                    &&& r matches Ok(Some(x)) && x@ == v
                    &&& bytes_mut_contents(*final(src)) == bytes_mut_contents(*old(src)).skip(e)
                },
                Parsed::Incomplete => {
                    &&& r matches Ok(None)
                    &&& bytes_mut_contents(*final(src)) == bytes_mut_contents(*old(src))
                },
                Parsed::Invalid => {
                    &&& r == Err::<Option<Resp>, CodecError>(CodecError::InvalidData)
                    &&& bytes_mut_contents(*final(src)) == bytes_mut_contents(*old(src))
                },
            },
    {
        let bytes = buffer_bytes(src);
        let buf_len = bytes.len();
        match parse_resp(bytes) {
            Ok((rest, resp)) => {
                let consumed = buf_len - rest.len();
                buffer_advance(src, consumed);
                Ok(Some(resp))
            },
            Err(ParseError::Incomplete) => Ok(None),
            Err(ParseError::Invalid) => Err(CodecError::InvalidData),
        }
    }

    /// Appends the frame of `resp` to `dst`.
    pub fn encode(&mut self, resp: Resp, dst: &mut BytesMut) -> (r: Result<(), std::io::Error>)
        ensures
            r is Ok,
            bytes_mut_contents(*final(dst)) == bytes_mut_contents(*old(dst)) + encode(resp@),
    {
        let mut payload: Vec<u8> = Vec::new();
        encode_into(&resp, &mut payload);
        buffer_put_slice(dst, payload.as_slice());
        Ok(())
    }

    /// The frame of `resp`, as text.
    pub fn _encode_resp(&self, resp: &Resp) -> (r: String)
        ensures
            encode_utf8(r@) == encode(resp@),
    {
        let mut payload: Vec<u8> = Vec::new();
        encode_into(resp, &mut payload);
        proof {
            lemma_encode_valid_utf8(resp@);
        }
        match string_from_utf8(payload) {
            Some(s) => s,
            None => String::new(),
        }
    }
}

} // verus!
