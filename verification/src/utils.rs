//! Small helpers: the wall clock, and integer-to-text formatting used for
//! mirror directory names and tree entry modes.

use vstd::prelude::*;

verus! {

/// Error returned when the system clock reports a time before the Unix epoch.
#[derive(Debug)]
pub struct ClockError {}

/// Relies on `std::time::SystemTime::now` and `duration_since`: whole seconds
/// elapsed since the Unix epoch, or an error if the clock is set before it.
/// The result depends on the wall clock, so nothing is promised of its value.
#[verifier::external_body]
pub fn timestamp() -> (r: Result<u64, ClockError>) {
    match std::time::SystemTime::now().duration_since(std::time::UNIX_EPOCH) {
        Ok(d) => Ok(d.as_secs()),
        Err(_) => Err(ClockError {}),
    }
}

/// The character for one digit below ten.
pub open spec fn spec_radix_digit(d: nat) -> char {
    if d == 0 {
        '0'
    } else if d == 1 {
        '1'
    } else if d == 2 {
        '2'
    } else if d == 3 {
        '3'
    } else if d == 4 {
        '4'
    } else if d == 5 {
        '5'
    } else if d == 6 {
        '6'
    } else if d == 7 {
        '7'
    } else if d == 8 {
        '8'
    } else {
        '9'
    }
}

/// The digits of `n` in the given base, most significant first; empty for
/// zero.
pub open spec fn spec_radix_digits(n: nat, base: nat) -> Seq<char>
    decreases n via spec_radix_digits_decreases
{
    if base <= 1 || n == 0 {
        Seq::empty()
    } else {
        spec_radix_digits(n / base, base).push(spec_radix_digit(n % base))
    }
}

#[via_fn]
proof fn spec_radix_digits_decreases(n: nat, base: nat) {
    if base > 1 && n > 0 {
        vstd::arithmetic::div_mod::lemma_div_decreases(n as int, base as int);
    }
}

/// The usual decimal rendering of `n`: its digits, or "0".
pub open spec fn spec_decimal(n: nat) -> Seq<char> {
    if n == 0 {
        seq!['0']
    } else {
        spec_radix_digits(n, 10)
    }
}

/// The decimal rendering of `v`, with a leading minus sign when negative.
pub open spec fn spec_i64_decimal(v: i64) -> Seq<char> {
    if v >= 0 {
        spec_decimal(v as nat)
    } else {
        seq!['-'] + spec_decimal((-(v as int)) as nat)
    }
}

/// A run of `k` zero characters.
pub open spec fn spec_zeros(k: nat) -> Seq<char> {
    Seq::new(k, |i: int| '0')
}

/// The octal digits of `n` left-padded with zeros to at least six places: the
/// conventional rendering of a tree entry's permission bits.
pub open spec fn spec_octal6(n: u64) -> Seq<char> {
    let d = spec_radix_digits(n as nat, 8);
    if d.len() >= 6 {
        d
    } else {
        spec_zeros((6 - d.len()) as nat) + d
    }
}

/// The one-character text for a digit below ten.
fn radix_digit_str(d: u64) -> (r: &'static str)
    requires
        d < 10,
    ensures
        r@ == seq![spec_radix_digit(d as nat)],
{
    proof {
        reveal_strlit("0");
        reveal_strlit("1");
        reveal_strlit("2");
        reveal_strlit("3");
        reveal_strlit("4");
        reveal_strlit("5");
        reveal_strlit("6");
        reveal_strlit("7");
        reveal_strlit("8");
        reveal_strlit("9");
    }
    if d == 0 {
        "0"
    } else if d == 1 {
        "1"
    } else if d == 2 {
        "2"
    } else if d == 3 {
        "3"
    } else if d == 4 {
        "4"
    } else if d == 5 {
        "5"
    } else if d == 6 {
        "6"
    } else if d == 7 {
        "7"
    } else if d == 8 {
        "8"
    } else {
        "9"
    }
}

/// Render `n` in decimal.
pub fn u64_to_decimal(n: u64) -> (s: String)
    ensures
        s@ == spec_decimal(n as nat),
{
    if n == 0 {
        let s = "0".to_owned();
        proof {
            reveal_strlit("0");
            assert(s@ =~= seq!['0']);
        }
        return s;
    }
    let mut s = String::new();
    let mut m: u64 = n;
    proof {
        assert(spec_radix_digits(n as nat, 10) =~= spec_radix_digits(m as nat, 10) + s@);
    }
    while m > 0
        invariant
            spec_radix_digits(n as nat, 10) == spec_radix_digits(m as nat, 10) + s@,
        decreases m,
    {
        let d = m % 10;
        let ds = radix_digit_str(d);
        let rest = s;
        s = ds.to_owned().concat(rest.as_str());
        proof {
            let prev = m as nat;
            assert(spec_radix_digits(prev, 10) == spec_radix_digits(prev / 10, 10).push(
                spec_radix_digit(prev % 10),
            ));
            assert(spec_radix_digits(prev / 10, 10).push(spec_radix_digit(prev % 10)) + rest@
                =~= spec_radix_digits(prev / 10, 10) + s@);
        }
        m = m / 10;
    }
    proof {
        assert(spec_radix_digits(m as nat, 10) + s@ =~= s@);
        assert(s@ == spec_decimal(n as nat));
    }
    s
}

/// Render `v` in decimal, minus sign included for negative values.
pub fn i64_to_decimal(v: i64) -> (s: String)
    ensures
        s@ == spec_i64_decimal(v),
{
    if v >= 0 {
        u64_to_decimal(v as u64)
    } else {
        let mag: u64 = (-(v as i128)) as u64;
        let digits = u64_to_decimal(mag);
        let s = "-".to_owned().concat(digits.as_str());
        proof {
            reveal_strlit("-");
            assert(s@ =~= seq!['-'] + spec_decimal(mag as nat));
        }
        s
    }
}

/// Render `n` in octal, left-padded with zeros to at least six places.
pub fn u64_to_octal6(n: u64) -> (s: String)
    ensures
        s@ == spec_octal6(n),
{
    let mut s = String::new();
    let mut m: u64 = n;
    proof {
        assert(spec_radix_digits(n as nat, 8) =~= spec_radix_digits(m as nat, 8) + s@);
    }
    while m > 0
        invariant
            spec_radix_digits(n as nat, 8) == spec_radix_digits(m as nat, 8) + s@,
        decreases m,
    {
        let d = m % 8;
        let ds = radix_digit_str(d);
        let rest = s;
        s = ds.to_owned().concat(rest.as_str());
        proof {
            let prev = m as nat;
            assert(spec_radix_digits(prev, 8) == spec_radix_digits(prev / 8, 8).push(
                spec_radix_digit(prev % 8),
            ));
            assert(spec_radix_digits(prev / 8, 8).push(spec_radix_digit(prev % 8)) + rest@
                =~= spec_radix_digits(prev / 8, 8) + s@);
        }
        m = m / 8;
    }
    proof {
        assert(spec_radix_digits(m as nat, 8) + s@ =~= s@);
    }
    let ghost d = spec_radix_digits(n as nat, 8);
    let mut len = s.as_str().unicode_len();
    proof {
        assert(spec_zeros(0) + d =~= d);
    }
    while len < 6
        invariant
            len == s@.len(),
            len >= d.len(),
            d.len() >= 6 ==> len == d.len(),
            d.len() < 6 ==> len <= 6,
            s@ == spec_zeros((len - d.len()) as nat) + d,
        decreases 6 - len,
    {
        let rest = s;
        s = "0".to_owned().concat(rest.as_str());
        proof {
            reveal_strlit("0");
            assert(s@ =~= spec_zeros((len + 1 - d.len()) as nat) + d);
        }
        len = len + 1;
    }
    proof {
        if d.len() >= 6 {
            assert(s@ =~= d);
        }
    }
    s
}

} // verus!

