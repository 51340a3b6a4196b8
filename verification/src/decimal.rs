//! Decimal text for step numbers: rendering a `u64` as the digit string the
//! reserved headers carry, and parsing such a string back during recovery.

use vstd::prelude::*;
use vstd::string::StringExecFns;
use vstd::utf8::{encode_utf8, is_ascii_chars, is_ascii_chars_encode_utf8};

verus! {

/// The character for one decimal digit.
pub open spec fn digit_char(d: int) -> char
    recommends
        0 <= d < 10,
{
    if d == 0 {
        '0'
    } else if d == 1 {
        '1'
    } else if d == 2 {
        '2'
    } else if d == 3 {
        '3'
    } else if d == 4 {
        '4'
    } else if d == 5 {
        '5'
    } else if d == 6 {
        '6'
    } else if d == 7 {
        '7'
    } else if d == 8 {
        '8'
    } else {
        '9'
    }
}

/// The decimal digit string of `n`, most significant digit first, without
/// leading zeros (except for `n == 0` itself).
pub open spec fn dec_chars(n: nat) -> Seq<char>
    decreases n,
{
    if n < 10 {
        seq![digit_char(n as int)]
    } else {
        dec_chars(n / 10).push(digit_char((n % 10) as int))
    }
}

/// The one-character string for digit `d`.
fn digit_str(d: u64) -> (r: &'static str)
    requires
        d < 10,
    ensures
        r@ == seq![digit_char(d as int)],
{
    proof {
        reveal_strlit("0");
        reveal_strlit("1");
        reveal_strlit("2");
        reveal_strlit("3");
        reveal_strlit("4");
        reveal_strlit("5");
        reveal_strlit("6");
        reveal_strlit("7");
        reveal_strlit("8");
        reveal_strlit("9");
    }
    let r: &'static str = match d {
        0 => "0",
        1 => "1",
        2 => "2",
        3 => "3",
        4 => "4",
        5 => "5",
        6 => "6",
        7 => "7",
        8 => "8",
        _ => "9",
    };
    proof {
        assert(r@ =~= seq![digit_char(d as int)]);
    }
    r
}

/// Render `n` in decimal.
pub fn u64_to_dec_string(n: u64) -> (s: String)
    ensures
        s@ == dec_chars(n as nat),
    decreases n,
{
    if n < 10 {
        String::from_str(digit_str(n))
    } else {
        let mut s = u64_to_dec_string(n / 10);
        s.append(digit_str(n % 10));
        proof {
            assert(s@ =~= dec_chars((n / 10) as nat).push(digit_char((n % 10) as int)));
        }
        s
    }
}

/// ASCII '0' through '9'.
pub open spec fn is_digit_byte(b: u8) -> bool {
    48 <= b <= 57
}

/// The numeric value of a digit byte.
pub open spec fn digit_val(b: u8) -> int {
    b - 48
}

pub open spec fn all_digit_bytes(s: Seq<u8>) -> bool {
    forall|i: int| 0 <= i < s.len() ==> is_digit_byte(#[trigger] s[i])
}

/// The value of a digit-byte string, most significant digit first.
pub open spec fn digits_val(s: Seq<u8>) -> int
    decreases s.len(),
{
    if s.len() == 0 {
        0
    } else {
        digits_val(s.drop_last()) * 10 + digit_val(s.last())
    }
}

/// The digits after an optional leading ASCII '+'.
pub open spec fn step_digits(s: Seq<u8>) -> Seq<u8> {
    if s.len() > 0 && s[0] == 43u8 {
        s.drop_first()
    } else {
        s
    }
}

/// What `u64` parsing accepts: an optional leading '+', then at least one
/// digit, with a value that fits in 64 bits.
pub open spec fn parse_u64_dec(s: Seq<u8>) -> Option<u64> {
    if step_digits(s).len() > 0 && all_digit_bytes(step_digits(s)) && digits_val(step_digits(s))
        <= u64::MAX {
        Some(digits_val(step_digits(s)) as u64)
    } else {
        None
    }
}

proof fn lemma_digits_val_nonneg(s: Seq<u8>)
    requires
        all_digit_bytes(s),
    ensures
        digits_val(s) >= 0,
    decreases s.len(),
{
    if s.len() > 0 {
        assert(all_digit_bytes(s.drop_last()));
        lemma_digits_val_nonneg(s.drop_last());
    }
}

/// A prefix of a digit string never has a larger value than the whole.
proof fn lemma_digits_val_prefix(s: Seq<u8>, i: int)
    requires
        all_digit_bytes(s),
        0 <= i <= s.len(),
    ensures
        digits_val(s.take(i)) <= digits_val(s),
    decreases s.len() - i,
{
    lemma_digits_val_nonneg(s.take(i));
    if i < s.len() {
        assert(s.take(i + 1).drop_last() =~= s.take(i));
        assert(s.take(i + 1).last() == s[i]);
        lemma_digits_val_prefix(s, i + 1);
    } else {
        assert(s.take(i) =~= s);
    }
}

/// Parse the decimal step number carried in a header value, exactly as `u64`
/// string parsing would: an optional '+', one or more digits, no overflow.
pub fn parse_step_bytes(s: &[u8]) -> (r: Option<u64>)
    ensures
        r == parse_u64_dec(s@),
{
    let len: usize = s.len();
    let start: usize = if len > 0 && s[0] == 43u8 {
        1
    } else {
        0
    };
    proof {
        assert(step_digits(s@) =~= s@.subrange(start as int, len as int));
    }
    if start >= len {
        return None;
    }
    let mut acc: u64 = 0;
    let mut i: usize = start;
    while i < len
        invariant
            start <= i <= len,
            len == s@.len(),
            step_digits(s@) =~= s@.subrange(start as int, len as int),
            all_digit_bytes(s@.subrange(start as int, i as int)),
            acc == digits_val(s@.subrange(start as int, i as int)),
        decreases len - i,
    {
        let b = s[i];
        if b < 48 || b > 57 {
            proof {
                assert(step_digits(s@)[i - start] == b);
                assert(!all_digit_bytes(step_digits(s@)));
            }
            return None;
        }
        let d: u64 = (b - 48) as u64;
        proof {
            assert(s@.subrange(start as int, i + 1).drop_last() =~= s@.subrange(
                start as int,
                i as int,
            ));
            assert(s@.subrange(start as int, i + 1).last() == s@[i as int]);
        }
        let next: u64 = match acc.checked_mul(10) {
            Some(m) => match m.checked_add(d) {
                Some(v) => v,
                None => {
                    proof {
                        overflow_means_none(s@, start as int, i as int);
                    }
                    return None;
                },
            },
            None => {
                proof {
                    overflow_means_none(s@, start as int, i as int);
                }
                return None;
            },
        };
        acc = next;
        i = i + 1;
    }
    proof {
        assert(s@.subrange(start as int, len as int) =~= step_digits(s@));
    }
    Some(acc)
}

/// The digit bytes of `n` in decimal, matching [`dec_chars`] byte for byte.
pub open spec fn dec_bytes(n: nat) -> Seq<u8>
    decreases n,
{
    if n < 10 {
        seq![(48 + n) as u8]
    } else {
        dec_bytes(n / 10).push((48 + n % 10) as u8)
    }
}

/// A rendered step holds only the digit characters whose encodings are the
/// corresponding digit bytes.
proof fn lemma_dec_shape(n: nat)
    ensures
        dec_chars(n).len() == dec_bytes(n).len(),
        dec_chars(n).len() >= 1,
        forall|i: int| 0 <= i < dec_chars(n).len() ==> '0' <= #[trigger] dec_chars(n)[i] <= '9',
        forall|i: int|
            0 <= i < dec_chars(n).len() ==> (#[trigger] dec_chars(n)[i]) as u8 == dec_bytes(n)[i],
    decreases n,
{
    if n < 10 {
        assert(digit_char(n as int) as u8 == 48 + n);
        assert('0' <= digit_char(n as int) <= '9');
    } else {
        lemma_dec_shape(n / 10);
        assert(digit_char((n % 10) as int) as u8 == 48 + n % 10);
        assert('0' <= digit_char((n % 10) as int) <= '9');
        assert(forall|i: int|
            0 <= i < dec_chars(n / 10).len() ==> #[trigger] dec_chars(n)[i] == dec_chars(n / 10)[i]
                && dec_bytes(n)[i] == dec_bytes(n / 10)[i]);
    }
}

/// The digit bytes of `n` are digits whose value is `n` again.
proof fn lemma_dec_bytes_digits(n: nat)
    ensures
        all_digit_bytes(dec_bytes(n)),
        digits_val(dec_bytes(n)) == n,
        dec_bytes(n).len() >= 1,
        is_digit_byte(dec_bytes(n)[0]),
    decreases n,
{
    if n < 10 {
        assert(dec_bytes(n).drop_last() =~= Seq::<u8>::empty());
        assert(dec_bytes(n).last() == (48 + n) as u8);
        assert(digits_val(Seq::<u8>::empty()) == 0);
        assert(digits_val(dec_bytes(n)) == digit_val((48 + n) as u8));
    } else {
        lemma_dec_bytes_digits(n / 10);
        vstd::arithmetic::div_mod::lemma_fundamental_div_mod(n as int, 10);
        assert(dec_bytes(n).drop_last() =~= dec_bytes(n / 10));
        assert(dec_bytes(n).last() == (48 + n % 10) as u8);
        assert(dec_bytes(n)[0] == dec_bytes(n / 10)[0]);
        assert(forall|i: int|
            0 <= i < dec_bytes(n).len() ==> is_digit_byte(#[trigger] dec_bytes(n)[i]));
    }
}

/// Rendering a step in decimal and parsing the bytes of the rendered string
/// yields the same step: the recovery parser inverts the header formatter.
pub proof fn lemma_dec_parse_round_trip(n: u64)
    ensures
        parse_u64_dec(encode_utf8(dec_chars(n as nat))) == Some(n),
{
    lemma_dec_shape(n as nat);
    lemma_dec_bytes_digits(n as nat);
    assert(is_ascii_chars(dec_chars(n as nat)));
    is_ascii_chars_encode_utf8(dec_chars(n as nat));
    assert(encode_utf8(dec_chars(n as nat)) =~= dec_bytes(n as nat));
    let bytes = dec_bytes(n as nat);
    assert(bytes[0] != 43u8);
    assert(step_digits(bytes) =~= bytes);
}

/// If the value through digit `i` already exceeds `u64::MAX`, the whole
/// string parses to `None`.
proof fn overflow_means_none(s: Seq<u8>, start: int, i: int)
    requires
        0 <= start <= i < s.len(),
        step_digits(s) =~= s.subrange(start, s.len() as int),
        all_digit_bytes(s.subrange(start, i)),
        is_digit_byte(s[i]),
        digits_val(s.subrange(start, i)) * 10 + digit_val(s[i]) > u64::MAX,
    ensures
        parse_u64_dec(s) is None,
{
    if all_digit_bytes(step_digits(s)) {
        assert(s.subrange(start, i + 1).drop_last() =~= s.subrange(start, i));
        assert(s.subrange(start, i + 1).last() == s[i]);
        assert(digits_val(s.subrange(start, i + 1)) > u64::MAX);
        assert(s.subrange(start, i + 1) =~= step_digits(s).take(i + 1 - start));
        lemma_digits_val_prefix(step_digits(s), i + 1 - start);
    }
}

} // verus!

