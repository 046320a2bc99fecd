//! Decimal rendering of integers and small text helpers.
use vstd::prelude::*;

verus! {

/// The character of the decimal digit `d` (`0 <= d < 10`).
pub open spec fn digit_char(d: nat) -> char {
    ((d + 48) as u32) as char
}

/// Decimal digits of a natural number, most significant first, no leading zeros.
pub open spec fn nat_decimal(n: nat) -> Seq<char>
    decreases n,
{
    if n < 10 {
        seq![digit_char(n)]
    } else {
        nat_decimal(n / 10).push(digit_char(n % 10))
    }
}

/// Decimal rendering of an integer, with a leading `-` when negative
/// (what `Display` prints for the integer types).
pub open spec fn int_decimal(n: int) -> Seq<char> {
    if n < 0 {
        seq!['-'] + nat_decimal((-n) as nat)
    } else {
        nat_decimal(n as nat)
    }
}

fn digit_str(d: u64) -> (s: &'static str)
    requires
        d < 10,
    ensures
        s@ == seq![digit_char(d as nat)],
{
    proof {
        reveal_strlit("0");
        reveal_strlit("1");
        reveal_strlit("2");
        reveal_strlit("3");
        reveal_strlit("4");
        reveal_strlit("5");
        reveal_strlit("6");
        reveal_strlit("7");
        reveal_strlit("8");
        reveal_strlit("9");
    }
    if d == 0 {
        "0"
    } else if d == 1 {
        "1"
    } else if d == 2 {
        "2"
    } else if d == 3 {
        "3"
    } else if d == 4 {
        "4"
    } else if d == 5 {
        "5"
    } else if d == 6 {
        "6"
    } else if d == 7 {
        "7"
    } else if d == 8 {
        "8"
    } else {
        "9"
    }
}

fn push_nat_decimal(out: &mut String, n: u64)
    ensures
        final(out)@ == old(out)@ + nat_decimal(n as nat),
    decreases n,
{
    if n >= 10 {
        push_nat_decimal(out, n / 10);
    }
    out.append(digit_str(n % 10));
    assert(n >= 10 ==> nat_decimal(n as nat) == nat_decimal((n / 10) as nat).push(
        digit_char((n % 10) as nat),
    ));
}

/// Appends the decimal rendering of `n` to `out`.
pub fn push_decimal(out: &mut String, n: i64)
    ensures
        final(out)@ == old(out)@ + int_decimal(n as int),
{
    if n < 0 {
        proof {
            reveal_strlit("-");
        }
        out.append("-");
        let magnitude: u64 = (-(n as i128)) as u64;
        push_nat_decimal(out, magnitude);
    } else {
        push_nat_decimal(out, n as u64);
    }
}

/// The decimal rendering of `n`.
pub fn decimal(n: i64) -> (s: String)
    ensures
        s@ == int_decimal(n as int),
{
    let mut s = String::new();
    push_decimal(&mut s, n);
    s
}

} // verus!
verus! {

/// Whether `c` is one of the characters `0` to `9`.
pub open spec fn is_digit(c: char) -> bool {
    48 <= (c as u32) <= 57
}

/// The number a string of decimal digits denotes.
pub open spec fn digits_value(s: Seq<char>) -> int
    decreases s.len(),
{
    if s.len() == 0 {
        0
    } else {
        digits_value(s.drop_last()) * 10 + ((s.last() as u32) - 48)
    }
}

/// The decimal rendering of a natural number is made of digits only, has no
/// leading zero (unless it is `0` itself), and denotes that number; a
/// number below ten is its single digit.
pub proof fn lemma_nat_decimal_denotes(n: nat)
    ensures
        nat_decimal(n).len() > 0,
        forall|i: int| 0 <= i < nat_decimal(n).len() ==> is_digit(#[trigger] nat_decimal(n)[i]),
        digits_value(nat_decimal(n)) == n,
        nat_decimal(n)[0] == '0' ==> n == 0,
        n < 10 ==> nat_decimal(n) == seq![((n + 48) as u32) as char],
    decreases n,
{
    if n >= 10 {
        let q = (n / 10) as nat;
        let r = (n % 10) as nat;
        lemma_nat_decimal_denotes(q);
        let s = nat_decimal(n);
        let d = ((r + 48) as u32) as char;
        assert(s == nat_decimal(q).push(d));
        assert(s.drop_last() == nat_decimal(q));
        assert(s.last() == d);
        assert((d as u32) == r + 48);
        assert(digits_value(s) == digits_value(nat_decimal(q)) * 10 + r);
        assert(s[0] == nat_decimal(q)[0]);
        assert(q > 0);
        assert forall|i: int| 0 <= i < s.len() implies is_digit(#[trigger] s[i]) by {
            if i < s.len() - 1 {
                assert(s[i] == nat_decimal(q)[i]);
            }
        }
        assert(n == q * 10 + r) by (nonlinear_arith)
            requires
                q == n / 10,
                r == n % 10,
        ;
        assert(digits_value(s) == n);
    } else {
        let s = nat_decimal(n);
        let d = ((n + 48) as u32) as char;
        assert(s == seq![d]);
        assert(s.drop_last() =~= Seq::<char>::empty());
        assert(s.last() == d);
        assert((d as u32) == n + 48);
        assert(digits_value(Seq::<char>::empty()) == 0);
        assert(digits_value(s) == n);
    }
}

/// The decimal rendering of an integer: a non-negative number is its
/// digits; a negative one is `-` followed by the digits of its magnitude.
pub proof fn lemma_int_decimal_denotes(n: int)
    ensures
        n >= 0 ==> digits_value(int_decimal(n)) == n && (forall|i: int|
            0 <= i < int_decimal(n).len() ==> is_digit(#[trigger] int_decimal(n)[i])),
        n < 0 ==> int_decimal(n)[0] == '-' && digits_value(int_decimal(n).drop_first()) == -n
            && (forall|i: int|
            1 <= i < int_decimal(n).len() ==> is_digit(#[trigger] int_decimal(n)[i])),
        n < 0 ==> int_decimal(n).len() == nat_decimal((-n) as nat).len() + 1,
        n >= 0 ==> int_decimal(n).len() == nat_decimal(n as nat).len(),
{
    if n >= 0 {
        lemma_nat_decimal_denotes(n as nat);
    } else {
        let m = (-n) as nat;
        lemma_nat_decimal_denotes(m);
        let s = int_decimal(n);
        assert(s.drop_first() == nat_decimal(m));
        assert forall|i: int| 1 <= i < s.len() implies is_digit(#[trigger] s[i]) by {
            assert(s[i] == nat_decimal(m)[i - 1]);
        }
    }
}

} // verus!
