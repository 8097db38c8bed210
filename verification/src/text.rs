//! Decimal text of integers, as `std::fmt` writes them.
use vstd::prelude::*;

verus! {

/// The digit character of `d`, for `d` in `0..10`.
pub open spec fn digit_char(d: int) -> char {
    seq!['0', '1', '2', '3', '4', '5', '6', '7', '8', '9'][d]
}

/// The decimal digits of `n`, without leading zeros ("0" for zero).
pub open spec fn nat_text(n: nat) -> Seq<char>
    decreases n,
{
    if n < 10 {
        seq![digit_char(n as int)]
    } else {
        nat_text(n / 10).push(digit_char((n % 10) as int))
    }
}

/// `i` as `{}` writes it: a minus sign before the digits of a negative number.
pub open spec fn int_text(i: int) -> Seq<char> {
    if i < 0 {
        seq!['-'] + nat_text((-i) as nat)
    } else {
        nat_text(i as nat)
    }
}

/// `n` zero characters (none when `n` is not positive).
pub open spec fn zeros(n: int) -> Seq<char> {
    Seq::new(if n > 0 { n as nat } else { 0 }, |_k: int| '0')
}

/// `i` as `{:0w}` writes it: zeros between the sign and the digits, up to a
/// total width of `w`.
pub open spec fn zero_padded_text(i: int, w: int) -> Seq<char> {
    if i < 0 {
        let digits = nat_text((-i) as nat);
        seq!['-'] + zeros(w - 1 - digits.len()) + digits
    } else {
        let digits = nat_text(i as nat);
        zeros(w - digits.len()) + digits
    }
}

/// Appends the digit character of `d`.
fn push_digit(s: &mut String, d: u64)
    requires
        d < 10,
    ensures
        final(s)@ == old(s)@.push(digit_char(d as int)),
{
    proof {
        reveal_strlit("0");
        reveal_strlit("1");
        reveal_strlit("2");
        reveal_strlit("3");
        reveal_strlit("4");
        reveal_strlit("5");
        reveal_strlit("6");
        reveal_strlit("7");
        reveal_strlit("8");
        reveal_strlit("9");
    }
    let ghost before = s@;
    if d == 0 {
        s.append("0");
    } else if d == 1 {
        s.append("1");
    } else if d == 2 {
        s.append("2");
    } else if d == 3 {
        s.append("3");
    } else if d == 4 {
        s.append("4");
    } else if d == 5 {
        s.append("5");
    } else if d == 6 {
        s.append("6");
    } else if d == 7 {
        s.append("7");
    } else if d == 8 {
        s.append("8");
    } else {
        s.append("9");
    }
    assert(s@ =~= before.push(digit_char(d as int)));
}

/// The decimal digits of `n`, without leading zeros.
fn nat_to_text(n: u64) -> (s: String)
    ensures
        s@ == nat_text(n as nat),
    decreases n,
{
    if n < 10 {
        let mut s = String::new();
        push_digit(&mut s, n);
        assert(s@ =~= nat_text(n as nat));
        s
    } else {
        let mut s = nat_to_text(n / 10);
        push_digit(&mut s, n % 10);
        s
    }
}

/// The text `Display` writes for an integer (what `i64::to_string` gives):
/// its decimal digits without leading zeros, and a `-` before a negative
/// number.
pub(crate) fn int_to_text(i: i64) -> (s: String)
    ensures
        s@ == int_text(i as int),
{
    if i < 0 {
        proof {
            reveal_strlit("-");
        }
        let magnitude: u64 = (-(i + 1)) as u64 + 1;
        let mut s = "-".to_owned();
        s.append(nat_to_text(magnitude).as_str());
        s
    } else {
        nat_to_text(i as u64)
    }
}

/// `n` zero characters.
fn zeros_text(n: usize) -> (s: String)
    ensures
        s@ == zeros(n as int),
{
    proof {
        reveal_strlit("0");
    }
    let mut s = String::new();
    let mut k: usize = 0;
    while k < n
        invariant
            k <= n,
            s@ == zeros(k as int),
        decreases n - k,
    {
        proof {
            reveal_strlit("0");
        }
        s.append("0");
        k = k + 1;
        assert(s@ =~= zeros(k as int));
    }
    s
}

/// `i` written with zeros between the sign and the digits up to a total
/// width of `w` (what `{:0w}` writes).
pub(crate) fn zero_padded(i: i64, w: usize) -> (s: String)
    ensures
        s@ == zero_padded_text(i as int, w as int),
{
    let t = int_to_text(i);
    let n = t.as_str().unicode_len();
    if i < 0 {
        proof {
            reveal_strlit("-");
        }
        let digits = t.as_str().substring_char(1, n);
        assert(digits@ =~= nat_text((-i) as nat));
        let d = n - 1;
        let pad = if w > 1 + d { w - 1 - d } else { 0 };
        let mut s = "-".to_owned();
        s.append(zeros_text(pad).as_str());
        s.append(digits);
        assert(zeros(pad as int) =~= zeros(w - 1 - d));
        s
    } else {
        let pad = if w > n { w - n } else { 0 };
        let mut s = zeros_text(pad);
        s.append(t.as_str());
        assert(zeros(pad as int) =~= zeros(w - n));
        s
    }
}

} // verus!
