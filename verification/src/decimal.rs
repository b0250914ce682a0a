//! Decimal rendering of integers, as Rust's `Display` writes them: no leading
//! zeros, a leading `-` for negative numbers.

use vstd::prelude::*;

verus! {

/// The character of a decimal digit.
pub open spec fn digit_char(d: int) -> char {
    (48 + d) as char
}

/// The decimal digits of a natural number, most significant first.
pub open spec fn decimal_digits(n: nat) -> Seq<char>
    decreases n,
{
    if n < 10 {
        seq![digit_char(n as int)]
    } else {
        decimal_digits(n / 10).push(digit_char((n % 10) as int))
    }
}

/// The decimal rendering of an integer.
pub open spec fn decimal_int(n: int) -> Seq<char> {
    if n < 0 {
        seq!['-'] + decimal_digits((-n) as nat)
    } else {
        decimal_digits(n as nat)
    }
}

/// The number a string of decimal digits stands for, most significant first.
pub open spec fn decimal_value(s: Seq<char>) -> int
    decreases s.len(),
{
    if s.len() == 0 {
        0
    } else {
        decimal_value(s.drop_last()) * 10 + (s.last() as int - 48)
    }
}

/// The decimal digits of `n` are characters `0` to `9`, the first is not `0`
/// unless `n` is zero, and read back as a number they give `n`.
pub proof fn lemma_decimal_digits_read_back(n: nat)
    ensures
        forall|i: int|
            0 <= i < decimal_digits(n).len() ==> '0' <= #[trigger] decimal_digits(n)[i] <= '9',
        decimal_digits(n).len() > 0,
        decimal_digits(n)[0] == '0' ==> n == 0,
        decimal_value(decimal_digits(n)) == n,
    decreases n,
{
    let d = decimal_digits(n);
    if n >= 10 {
        lemma_decimal_digits_read_back(n / 10);
        assert(d.drop_last() =~= decimal_digits(n / 10));
        assert(d[0] == decimal_digits(n / 10)[0]);
        assert(d.last() as int == 48 + n % 10);
        assert(decimal_value(d) == (n / 10) * 10 + n % 10);
        assert((n / 10) * 10 + n % 10 == n);
    } else {
        assert(d.drop_last() =~= Seq::<char>::empty());
        assert(decimal_value(d.drop_last()) == 0);
        assert(d.last() as int == 48 + n);
        assert(decimal_value(d) == n);
    }
}

fn digit_str(d: u8) -> (s: &'static str)
    requires
        d < 10,
    ensures
        s@ == seq![digit_char(d as int)],
{
    if d == 0 {
        proof { reveal_strlit("0"); }
        "0"
    } else if d == 1 {
        proof { reveal_strlit("1"); }
        "1"
    } else if d == 2 {
        proof { reveal_strlit("2"); }
        "2"
    } else if d == 3 {
        proof { reveal_strlit("3"); }
        "3"
    } else if d == 4 {
        proof { reveal_strlit("4"); }
        "4"
    } else if d == 5 {
        proof { reveal_strlit("5"); }
        "5"
    } else if d == 6 {
        proof { reveal_strlit("6"); }
        "6"
    } else if d == 7 {
        proof { reveal_strlit("7"); }
        "7"
    } else if d == 8 {
        proof { reveal_strlit("8"); }
        "8"
    } else {
        proof { reveal_strlit("9"); }
        "9"
    }
}

/// Appends the decimal digits of `n` to `out`.
pub fn push_decimal_u128(out: &mut String, n: u128)
    ensures
        final(out)@ == old(out)@ + decimal_digits(n as nat),
{
    let mut digits: Vec<u8> = Vec::new();
    let mut m: u128 = n;
    let ghost mut suffix: Seq<char> = Seq::empty();
    while m >= 10
        invariant
            decimal_digits(n as nat) == decimal_digits(m as nat) + suffix,
            suffix.len() == digits@.len(),
            forall|j: int| 0 <= j < digits@.len() ==> #[trigger] digits@[j] < 10,
            forall|j: int|
                0 <= j < suffix.len() ==> #[trigger] suffix[j] == digit_char(
                    digits@[digits@.len() - 1 - j] as int,
                ),
        decreases m,
    {
        let d: u8 = (m % 10) as u8;
        proof {
            assert(decimal_digits(m as nat) == decimal_digits((m / 10) as nat).push(
                digit_char(d as int),
            ));
            assert(decimal_digits(n as nat) =~= decimal_digits((m / 10) as nat) + (seq![
                digit_char(d as int),
            ] + suffix));
            suffix = seq![digit_char(d as int)] + suffix;
        }
        digits.push(d);
        m = m / 10;
    }
    let ghost start = out@;
    out.append(digit_str(m as u8));
    let mut k: usize = digits.len();
    while k > 0
        invariant
            k <= digits@.len(),
            suffix.len() == digits@.len(),
            decimal_digits(n as nat) == seq![digit_char(m as int)] + suffix,
            forall|j: int| 0 <= j < digits@.len() ==> #[trigger] digits@[j] < 10,
            forall|j: int|
                0 <= j < suffix.len() ==> #[trigger] suffix[j] == digit_char(
                    digits@[digits@.len() - 1 - j] as int,
                ),
            out@ == start + seq![digit_char(m as int)] + suffix.take(digits@.len() - k),
        decreases k,
    {
        k = k - 1;
        let ghost before = out@;
        out.append(digit_str(digits[k]));
        proof {
            let t: int = digits@.len() - k;
            assert(suffix.take(t) =~= suffix.take(t - 1).push(suffix[t - 1]));
            assert(out@ =~= start + seq![digit_char(m as int)] + suffix.take(t));
        }
    }
    assert(suffix.take(digits@.len() as int) =~= suffix);
    assert(out@ =~= start + decimal_digits(n as nat));
}

/// Appends the decimal rendering of `n` to `out`.
pub fn push_decimal_i64(out: &mut String, n: i64)
    ensures
        final(out)@ == old(out)@ + decimal_int(n as int),
{
    if n < 0 {
        let ghost start = out@;
        proof { reveal_strlit("-"); }
        out.append("-");
        let magnitude: u128 = (0i128 - (n as i128)) as u128;
        push_decimal_u128(out, magnitude);
        assert(out@ =~= start + (seq!['-'] + decimal_digits((-n) as nat)));
    } else {
        push_decimal_u128(out, n as u128);
    }
}

} // verus!
