//! Decimal rendering and parsing of integers, shared by the value model and
//! the terminal escape builders.

use vstd::prelude::*;
use vstd::string::StrSliceExecFns;
use vstd::string::StringExecFns;

verus! {

/// Saturation bound for parsing: the magnitude of the smallest 32-bit value.
pub const SAT_BOUND: u64 = 0x8000_0000;

/// The decimal digit character for a value below ten.
pub open spec fn digit_char(d: int) -> char {
    if d == 0 {
        '0'
    } else if d == 1 {
        '1'
    } else if d == 2 {
        '2'
    } else if d == 3 {
        '3'
    } else if d == 4 {
        '4'
    } else if d == 5 {
        '5'
    } else if d == 6 {
        '6'
    } else if d == 7 {
        '7'
    } else if d == 8 {
        '8'
    } else {
        '9'
    }
}

/// The decimal spelling of a natural number, most significant digit first.
pub open spec fn dec_chars(n: nat) -> Seq<char>
    decreases n,
{
    if n < 10 {
        seq![digit_char(n as int)]
    } else {
        dec_chars(n / 10).push(digit_char((n % 10) as int))
    }
}

/// The decimal spelling of an integer: a minus sign for negative values,
/// then the digits of its magnitude.
pub open spec fn int_chars(n: int) -> Seq<char> {
    if n < 0 {
        seq!['-'] + dec_chars((-n) as nat)
    } else {
        dec_chars(n as nat)
    }
}

/// A one-character string slice for a decimal digit.
fn digit_str(d: u64) -> (r: &'static str)
    requires
        d < 10,
    ensures
        r@ == seq![digit_char(d as int)],
{
    proof {
        reveal_strlit("0");
        reveal_strlit("1");
        reveal_strlit("2");
        reveal_strlit("3");
        reveal_strlit("4");
        reveal_strlit("5");
        reveal_strlit("6");
        reveal_strlit("7");
        reveal_strlit("8");
        reveal_strlit("9");
    }
    let r: &'static str = if d == 0 {
        "0"
    } else if d == 1 {
        "1"
    } else if d == 2 {
        "2"
    } else if d == 3 {
        "3"
    } else if d == 4 {
        "4"
    } else if d == 5 {
        "5"
    } else if d == 6 {
        "6"
    } else if d == 7 {
        "7"
    } else if d == 8 {
        "8"
    } else {
        "9"
    };
    proof {
        assert(r@ =~= seq![digit_char(d as int)]);
    }
    r
}

/// The characters of a digit list taken in reverse order: the digits are
/// collected least significant first, so the last pushed digit comes first.
pub open spec fn digit_seq(digits: Seq<u64>) -> Seq<char>
    decreases digits.len(),
{
    if digits.len() == 0 {
        Seq::empty()
    } else {
        seq![digit_char(digits.last() as int)] + digit_seq(digits.drop_last())
    }
}

proof fn lemma_digit_seq_push(digits: Seq<u64>, d: u64)
    ensures
        digit_seq(digits.push(d)) == seq![digit_char(d as int)] + digit_seq(digits),
{
    assert(digits.push(d).drop_last() =~= digits);
    assert(digits.push(d).last() == d);
}

proof fn lemma_digit_seq_len(digits: Seq<u64>)
    ensures
        digit_seq(digits).len() == digits.len(),
    decreases digits.len(),
{
    if digits.len() > 0 {
        lemma_digit_seq_len(digits.drop_last());
    }
}

proof fn lemma_digit_seq_index(digits: Seq<u64>, i: int)
    requires
        0 <= i < digits.len(),
    ensures
        digit_seq(digits).len() == digits.len(),
        digit_seq(digits)[i] == digit_char(digits[digits.len() - 1 - i] as int),
    decreases digits.len(),
{
    lemma_digit_seq_len(digits);
    if i > 0 {
        lemma_digit_seq_index(digits.drop_last(), i - 1);
        lemma_digit_seq_len(digits.drop_last());
    }
}

/// Renders a natural number in decimal.
pub fn u64_to_string(n: u64) -> (s: String)
    ensures
        s@ == dec_chars(n as nat),
{
    let mut digits: Vec<u64> = Vec::new();
    let mut m: u64 = n;
    while m >= 10
        invariant
            forall|k: int| 0 <= k < digits@.len() ==> digits@[k] < 10,
            dec_chars(n as nat) == dec_chars(m as nat) + digit_seq(digits@),
        decreases m,
    {
        proof {
            assert(dec_chars(m as nat) == dec_chars((m / 10) as nat).push(
                digit_char((m % 10) as int),
            ));
            lemma_digit_seq_push(digits@, (m % 10) as u64);
            assert(dec_chars((m / 10) as nat) + digit_seq(digits@.push((m % 10) as u64))
                =~= dec_chars(m as nat) + digit_seq(digits@));
        }
        digits.push(m % 10);
        m = m / 10;
    }
    proof {
        assert(dec_chars(m as nat) == seq![digit_char(m as int)]);
        lemma_digit_seq_push(digits@, m);
        assert(digit_seq(digits@.push(m)) =~= dec_chars(n as nat));
    }
    digits.push(m);
    let ghost all: Seq<char> = dec_chars(n as nat);
    let mut s = String::new();
    let mut i: usize = digits.len();
    proof {
        lemma_digit_seq_len(digits@);
    }
    while i > 0
        invariant
            i <= digits@.len(),
            all == digit_seq(digits@),
            all.len() == digits@.len(),
            forall|k: int| 0 <= k < digits@.len() ==> digits@[k] < 10,
            s@ =~= all.subrange(0, digits@.len() - i),
        decreases i,
    {
        i = i - 1;
        let d = digits[i];
        proof {
            lemma_digit_seq_index(digits@, digits@.len() - 1 - i);
        }
        s.append(digit_str(d));
        proof {
            assert(s@ =~= all.subrange(0, digits@.len() - i));
        }
    }
    proof {
        assert(s@ =~= all);
    }
    s
}

/// Renders a signed integer in decimal, with a leading minus sign when
/// negative.
pub fn i64_to_string(v: i64) -> (s: String)
    ensures
        s@ == int_chars(v as int),
{
    if v < 0 {
        proof {
            reveal_strlit("-");
        }
        let mut s = "-".to_owned();
        let mag: u64 = if v == i64::MIN {
            9223372036854775808u64
        } else {
            (-v) as u64
        };
        assert(mag as int == -(v as int));
        let rest = u64_to_string(mag);
        s.append(rest.as_str());
        proof {
            assert(s@ =~= int_chars(v as int));
        }
        s
    } else {
        u64_to_string(v as u64)
    }
}

/// Renders a 32-bit signed integer in decimal.
pub fn i32_to_string(v: i32) -> (s: String)
    ensures
        s@ == int_chars(v as int),
{
    i64_to_string(v as i64)
}

/// Whether a character is a decimal digit.
pub open spec fn is_dec_digit(c: char) -> bool {
    48 <= c as int && c as int <= 57
}

/// The numeric value of a decimal digit character.
pub open spec fn dec_digit_val(c: char) -> int {
    c as int - 48
}

/// The value of the longest digit run of `s` starting at index `i`, folded
/// onto the accumulator `acc`.
pub open spec fn digits_prefix_val(s: Seq<char>, i: int, acc: int) -> int
    decreases s.len() - i,
{
    if i < 0 || i >= s.len() || !is_dec_digit(s[i]) {
        acc
    } else {
        digits_prefix_val(s, i + 1, acc * 10 + dec_digit_val(s[i]))
    }
}

/// The signed mathematical value that a string spells: an optional leading
/// minus sign, then the longest decimal digit prefix; everything after the
/// first non-digit is ignored, and no digits at all spell zero.
pub open spec fn parsed_int(s: Seq<char>) -> int {
    if s.len() > 0 && s[0] == '-' {
        -digits_prefix_val(s, 1, 0)
    } else {
        digits_prefix_val(s, 0, 0)
    }
}

/// `v` clamped into the signed 32-bit range.
pub open spec fn clamp_i32(v: int) -> int {
    if v < i32::MIN as int {
        i32::MIN as int
    } else if v > i32::MAX as int {
        i32::MAX as int
    } else {
        v
    }
}

proof fn lemma_digits_prefix_monotone(s: Seq<char>, i: int, acc: int)
    requires
        acc >= 0,
    ensures
        digits_prefix_val(s, i, acc) >= acc,
    decreases s.len() - i,
{
    if !(i < 0 || i >= s.len() || !is_dec_digit(s[i])) {
        lemma_digits_prefix_monotone(s, i + 1, acc * 10 + dec_digit_val(s[i]));
    }
}

/// Parses the leading decimal integer of a string, saturating to the 32-bit
/// signed range; a string without leading digits parses to zero.
pub fn parse_int(s: &str) -> (r: i32)
    ensures
        r as int == clamp_i32(parsed_int(s@)),
{
    let n = s.unicode_len();
    let neg = n > 0 && s.get_char(0) == '-';
    let mut i: usize = if neg {
        1
    } else {
        0
    };
    let mut acc: u64 = 0;
    let ghost start: int = i as int;
    while i < n && acc <= SAT_BOUND
        invariant
            n == s@.len(),
            start <= i as int,
            acc <= 10 * SAT_BOUND + 9,
            acc > SAT_BOUND ==> digits_prefix_val(s@, start, 0) > SAT_BOUND as int,
            acc <= SAT_BOUND ==> digits_prefix_val(s@, start, 0) == digits_prefix_val(
                s@,
                i as int,
                acc as int,
            ),
        ensures
            acc <= SAT_BOUND ==> digits_prefix_val(s@, start, 0) == acc as int,
            acc > SAT_BOUND ==> digits_prefix_val(s@, start, 0) > SAT_BOUND as int,
        decreases s@.len() - i,
    {
        let c = s.get_char(i);
        let cv: u32 = c as u32;
        if cv < 48 || cv > 57 {
            proof {
                assert(!is_dec_digit(s@[i as int]));
                assert(digits_prefix_val(s@, i as int, acc as int) == acc as int);
            }
            break ;
        }
        let d: u64 = (cv as u64) - 48;
        proof {
            assert(is_dec_digit(s@[i as int]));
            assert(d as int == dec_digit_val(s@[i as int]));
            assert(digits_prefix_val(s@, i as int, acc as int) == digits_prefix_val(
                s@,
                i as int + 1,
                acc as int * 10 + d as int,
            ));
            if acc as int * 10 + d as int > SAT_BOUND as int {
                lemma_digits_prefix_monotone(s@, i as int + 1, acc as int * 10 + d as int);
            }
        }
        acc = acc * 10 + d;
        i = i + 1;
    }
    proof {
        lemma_digits_prefix_monotone(s@, start, 0);
    }
    let mag: u64 = if acc > SAT_BOUND {
        SAT_BOUND
    } else {
        acc
    };
    if neg {
        proof {
            assert(parsed_int(s@) == -digits_prefix_val(s@, 1, 0));
        }
        if mag >= SAT_BOUND {
            i32::MIN
        } else {
            -(mag as i32)
        }
    } else {
        if mag >= SAT_BOUND {
            i32::MAX
        } else {
            mag as i32
        }
    }
}

} // verus!
