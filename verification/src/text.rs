use vstd::prelude::*;

verus! {

/// Whether a byte is an ASCII decimal digit.
pub open spec fn is_digit(b: u8) -> bool {
    48 <= b <= 57
}

/// Whether every byte of `t` is an ASCII decimal digit.
pub open spec fn all_digits(t: Seq<u8>) -> bool {
    forall|i: int| 0 <= i < t.len() ==> is_digit(#[trigger] t[i])
}

/// The number that a sequence of decimal digits denotes (most significant first).
pub open spec fn digits_value(t: Seq<u8>) -> nat
    decreases t.len(),
{
    if t.len() == 0 {
        0
    } else {
        digits_value(t.drop_last()) * 10 + (t.last() - 48) as nat
    }
}

/// The digits of `t` after one leading sign byte (`+` or, where `minus_allowed`, `-`).
pub open spec fn unsigned_part(t: Seq<u8>, minus_allowed: bool) -> Seq<u8> {
    if t.len() > 0 && (t[0] == 43 || (minus_allowed && t[0] == 45)) {
        t.drop_first()
    } else {
        t
    }
}

/// The value of decimal text as Rust's `str::parse::<i64>` reads it: an optional `+` or `-`,
/// then at least one digit, the value within the range of `i64`.
pub open spec fn parse_i64_text(t: Seq<u8>) -> Option<i64> {
    let body = unsigned_part(t, true);
    let neg = t.len() > 0 && t[0] == 45;
    let v: int = if neg { -(digits_value(body) as int) } else { digits_value(body) as int };
    if body.len() == 0 || !all_digits(body) || v < i64::MIN || v > i64::MAX {
        None
    } else {
        Some(v as i64)
    }
}

/// The value of decimal text as Rust's `str::parse::<usize>` reads it: an optional `+`,
/// then at least one digit, the value within the range of `usize`.
pub open spec fn parse_usize_text(t: Seq<u8>) -> Option<usize> {
    let body = unsigned_part(t, false);
    if body.len() == 0 || !all_digits(body) || digits_value(body) > usize::MAX {
        None
    } else {
        Some(digits_value(body) as usize)
    }
}

/// The shortest decimal text of a natural number.
pub open spec fn decimal_text(n: nat) -> Seq<u8>
    decreases n,
{
    if n < 10 {
        seq![(48 + n) as u8]
    } else {
        decimal_text(n / 10).push((48 + n % 10) as u8)
    }
}

/// The decimal text of an integer, with a `-` in front of a negative one.
pub open spec fn int_text(i: int) -> Seq<u8> {
    if i < 0 {
        seq![45u8] + decimal_text((-i) as nat)
    } else {
        decimal_text(i as nat)
    }
}

/// Decimal text is digits only, at least one, and denotes the number it was made from.
pub proof fn lemma_decimal_text(n: nat)
    ensures
        decimal_text(n).len() >= 1,
        all_digits(decimal_text(n)),
        digits_value(decimal_text(n)) == n,
    decreases n,
{
    let t = decimal_text(n);
    if n >= 10 {
        lemma_decimal_text(n / 10);
        assert(t.drop_last() =~= decimal_text(n / 10));
        assert(t.last() == (48 + n % 10) as u8);
        assert(n == (n / 10) * 10 + n % 10);
        assert(digits_value(t) == digits_value(t.drop_last()) * 10 + (t.last() - 48) as nat);
        assert(digits_value(t) == n);
    } else {
        assert(t.drop_last() =~= Seq::<u8>::empty());
        assert(digits_value(t) == digits_value(t.drop_last()) * 10 + (t.last() - 48) as nat);
        assert(digits_value(t) == n);
    }
}

/// A digit string denotes at least as much as each of its prefixes.
pub proof fn lemma_digits_value_prefix(t: Seq<u8>, j: int)
    requires
        all_digits(t),
        0 <= j <= t.len(),
    ensures
        digits_value(t.take(j)) <= digits_value(t),
    decreases t.len(),
{
    if j < t.len() {
        assert(t.take(j) =~= t.drop_last().take(j));
        lemma_digits_value_prefix(t.drop_last(), j);
    } else {
        assert(t.take(j) =~= t);
    }
}

/// Reading back the decimal text of an `i64` gives the number.
pub proof fn lemma_parse_int_text(i: i64)
    ensures
        parse_i64_text(int_text(i as int)) == Some(i),
        all_digits(decimal_text(if i < 0 { (-i) as nat } else { i as nat })),
{
    if i < 0 {
        lemma_decimal_text((-i) as nat);
        let t = int_text(i as int);
        assert(unsigned_part(t, true) =~= decimal_text((-i) as nat));
    } else {
        lemma_decimal_text(i as nat);
    }
}

/// Reads the digits `t[start..end]` into a number no larger than `limit`; `None` where a
/// byte is no digit, there is no digit, or the number exceeds `limit`.
fn read_digits(t: &[u8], start: usize, limit: u128) -> (r: Option<u128>)
    requires
        start <= t@.len(),
        limit < 0x1_0000_0000_0000_0000,
    ensures
        ({
            let body = t@.subrange(start as int, t@.len() as int);
            match r {
                Some(v) => body.len() > 0 && all_digits(body) && v == digits_value(body) && v <= limit,
                None => body.len() == 0 || !all_digits(body) || digits_value(body) > limit,
            }
        }),
{
    let ghost body = t@.subrange(start as int, t@.len() as int);
    if start == t.len() {
        return None;
    }
    let mut acc: u128 = 0;
    let mut k: usize = start;
    while k < t.len()
        invariant
            start <= k <= t@.len(),
            body == t@.subrange(start as int, t@.len() as int),
            all_digits(body.take(k - start)),
            acc == digits_value(body.take(k - start)),
            acc <= limit,
            limit < 0x1_0000_0000_0000_0000,
        decreases t.len() - k,
    {
        let b = t[k];
        let ghost pre = body.take(k - start);
        let ghost next = body.take(k - start + 1);
        assert(next.drop_last() =~= pre);
        if b < 48 || b > 57 {
            assert(!is_digit(body[k - start]));
            return None;
        }
        acc = acc * 10 + (b - 48) as u128;
        k = k + 1;
        assert(all_digits(next));
        if acc > limit {
            proof {
                if all_digits(body) {
                    lemma_digits_value_prefix(body, k - start);
                }
            }
            return None;
        }
    }
    assert(body.take(k - start) =~= body);
    Some(acc)
}

/// Parses decimal text the way `str::parse::<i64>` does.
pub fn parse_i64_bytes(t: &[u8]) -> (r: Option<i64>)
    ensures
        r == parse_i64_text(t@),
{
    let neg = t.len() > 0 && t[0] == 45;
    let start: usize = if t.len() > 0 && (t[0] == 43 || t[0] == 45) { 1 } else { 0 };
    let ghost body = unsigned_part(t@, true);
    assert(body =~= t@.subrange(start as int, t@.len() as int));
    let limit: u128 = if neg { 0x8000_0000_0000_0000 } else { 0x7fff_ffff_ffff_ffff };
    match read_digits(t, start, limit) {
        Some(v) => {
            if neg {
                Some((-(v as i128)) as i64)
            } else {
                Some(v as i64)
            }
        },
        None => None,
    }
}

/// Parses decimal text the way `str::parse::<usize>` does.
pub fn parse_usize_bytes(t: &[u8]) -> (r: Option<usize>)
    ensures
        r == parse_usize_text(t@),
{
    let start: usize = if t.len() > 0 && t[0] == 43 { 1 } else { 0 };
    let ghost body = unsigned_part(t@, false);
    assert(body =~= t@.subrange(start as int, t@.len() as int));
    match read_digits(t, start, usize::MAX as u128) {
        Some(v) => Some(v as usize),
        None => None,
    }
}

/// Appends the decimal text of `n` to `out`.
pub fn push_decimal(out: &mut Vec<u8>, n: u64)
    ensures
        final(out)@ == old(out)@ + decimal_text(n as nat),
    decreases n,
{
    if n >= 10 {
        push_decimal(out, n / 10);
    }
    out.push((48 + n % 10) as u8);
    assert(out@ =~= old(out)@ + decimal_text(n as nat));
}

/// Appends the decimal text of `i` to `out`, with a `-` in front of a negative number.
pub fn push_int(out: &mut Vec<u8>, i: i64)
    ensures
        final(out)@ == old(out)@ + int_text(i as int),
{
    if i < 0 {
        out.push(45);
        let m: u64 = (-(i as i128)) as u64;
        push_decimal(out, m);
        assert(out@ =~= old(out)@ + int_text(i as int));
    } else {
        push_decimal(out, i as u64);
    }
}

/// Whether two byte slices are equal.
pub fn bytes_equal(a: &[u8], b: &[u8]) -> (r: bool)
    ensures
        r == (a@ == b@),
{
    if a.len() != b.len() {
        return false;
    }
    let mut i: usize = 0;
    while i < a.len()
        invariant
            i <= a@.len(),
            a@.len() == b@.len(),
            forall|j: int| 0 <= j < i ==> a@[j] == b@[j],
        decreases a.len() - i,
    {
        if a[i] != b[i] {
            return false;
        }
        i = i + 1;
    }
    assert(a@ =~= b@);
    true
}

} // verus!
