//! Building text: appending characters, and printing integers in decimal.
use vstd::prelude::*;
use vstd::string::StrSliceExecFns;
use vstd::string::StringExecFns;

verus! {

/// Relies on `String::push`: the character is appended at the end.
#[verifier::external_body]
pub(crate) fn push_char(s: &mut String, c: char)
    ensures
        final(s)@ == old(s)@.push(c),
{
    s.push(c);
}

/// Appends a piece of text at the end.
pub(crate) fn push_text(s: &mut String, t: &str)
    ensures
        final(s)@ == old(s)@ + t@,
{
    s.append(t);
}

/// The decimal digit character for `d` (`0 <= d < 10`).
pub open spec fn digit_char(d: int) -> char {
    (d + 48) as char
}

/// The decimal representation of a natural number, without leading zeros.
pub open spec fn decimal(n: nat) -> Seq<char>
    decreases n,
{
    if n < 10 {
        seq![digit_char(n as int)]
    } else {
        decimal(n / 10).push(digit_char((n % 10) as int))
    }
}

/// The decimal representation of an integer, with a leading `-` when negative.
pub open spec fn signed_decimal(i: int) -> Seq<char> {
    if i < 0 {
        seq!['-'] + decimal((-i) as nat)
    } else {
        decimal(i as nat)
    }
}

/// `n` printed in at least `width` characters, padded on the left with `pad`.
pub open spec fn padded(n: nat, width: nat, pad: char) -> Seq<char> {
    let d = decimal(n);
    if d.len() >= width {
        d
    } else {
        Seq::new((width - d.len()) as nat, |_i: int| pad) + d
    }
}

/// `q` rounded to the nearest multiple of `unit`, halves away from zero, in units of `unit`.
pub open spec fn round_div(q: int, unit: int) -> int
    recommends
        unit > 0,
{
    if q >= 0 {
        (q + unit / 2) / unit
    } else {
        -((-q + unit / 2) / unit)
    }
}

/// A fixed-point value, given in units of `10^places`, printed with `places` decimals.
pub open spec fn fixed_point(v: int, places: nat) -> Seq<char> {
    let scale = if places == 1 { 10int } else { 100int };
    let a = if v < 0 { -v } else { v };
    let sign = if v < 0 { seq!['-'] } else { Seq::<char>::empty() };
    if places == 0 {
        signed_decimal(v)
    } else {
        sign + decimal((a / scale) as nat) + seq!['.'] + padded((a % scale) as nat, places, '0')
    }
}

/// Appends the decimal representation of `n`.
pub(crate) fn push_decimal(s: &mut String, n: u64)
    ensures
        final(s)@ == old(s)@ + decimal(n as nat),
{
    let mut digits: Vec<char> = Vec::new();
    let mut m: u64 = n;
    // digits holds the low digits of n, least significant first
    while m >= 10
        invariant
            m <= n,
            decimal(n as nat) == decimal(m as nat) + digits@.reverse(),
        decreases m,
    {
        let d: u64 = m % 10;
        let c = ((d as u8) + 48u8) as char;
        assert(c == digit_char(d as int));
        proof {
            assert(decimal(m as nat) == decimal((m / 10) as nat).push(digit_char((m % 10) as int)));
            assert(digits@.push(c).reverse() =~= seq![c] + digits@.reverse());
            assert(decimal((m / 10) as nat).push(c) + digits@.reverse() =~= decimal((m / 10) as nat)
                + (seq![c] + digits@.reverse()));
        }
        digits.push(c);
        m = m / 10;
    }
    let c0 = ((m as u8) + 48u8) as char;
    assert(decimal(m as nat) == seq![c0]);
    digits.push(c0);
    assert(digits@.reverse() =~= decimal(n as nat)) by {
        assert(digits@.reverse() =~= seq![c0] + digits@.drop_last().reverse());
    }
    let ghost start = s@;
    let mut i: usize = digits.len();
    while i > 0
        invariant
            i <= digits@.len(),
            s@ == start + digits@.reverse().subrange(0, (digits@.len() - i) as int),
        decreases i,
    {
        i = i - 1;
        push_char(s, digits[i]);
        proof {
            let r = digits@.reverse();
            assert(r[(digits@.len() - i - 1) as int] == digits@[i as int]);
            assert(r.subrange(0, (digits@.len() - i) as int) =~= r.subrange(
                0,
                (digits@.len() - i - 1) as int,
            ).push(digits@[i as int]));
        }
    }
    assert(digits@.reverse().subrange(0, digits@.len() as int) =~= digits@.reverse());
}

/// Appends the decimal representation of `i`, with a leading `-` when negative.
pub(crate) fn push_signed(s: &mut String, i: i64)
    ensures
        final(s)@ == old(s)@ + signed_decimal(i as int),
{
    if i < 0 {
        push_char(s, '-');
        let a: i128 = -(i as i128);
        push_decimal(s, a as u64);
        assert(old(s)@.push('-') + decimal(a as nat) =~= old(s)@ + (seq!['-'] + decimal(a as nat)));
    } else {
        push_decimal(s, i as u64);
    }
}

/// Appends `n` padded on the left with `pad` to at least `width` characters.
pub(crate) fn push_padded(s: &mut String, n: u64, width: usize, pad: char)
    ensures
        final(s)@ == old(s)@ + padded(n as nat, width as nat, pad),
{
    let mut digits = String::new();
    push_decimal(&mut digits, n);
    assert(digits@ == decimal(n as nat));
    let len = digits.as_str().unicode_len();
    let ghost start = s@;
    if len < width {
        let mut k: usize = 0;
        while k < width - len
            invariant
                k <= width - len,
                len < width,
                s@ == start + Seq::new(k as nat, |_i: int| pad),
            decreases width - len - k,
        {
            push_char(s, pad);
            k = k + 1;
            assert(s@ =~= start + Seq::new(k as nat, |_i: int| pad));
        }
    }
    push_text(s, digits.as_str());
    assert(s@ =~= start + padded(n as nat, width as nat, pad));
}

/// `q` divided by `unit`, rounded to the nearest integer, halves away from zero.
pub(crate) fn round_div_exec(q: i64, unit: i64) -> (r: i64)
    requires
        unit > 0,
    ensures
        r as int == round_div(q as int, unit as int),
{
    let qq = q as i128;
    let u = unit as i128;
    let r: i128 = if qq >= 0 {
        (qq + u / 2) / u
    } else {
        -((-qq + u / 2) / u)
    };
    assert(-(i64::MAX as int) - 1 <= r <= i64::MAX) by (nonlinear_arith)
        requires
            r == round_div(qq as int, u as int),
            u >= 1,
            i64::MIN <= qq <= i64::MAX,
    ;
    r as i64
}

/// Appends a fixed-point value given in units of `10^-places` with `places` decimals.
pub(crate) fn push_fixed(s: &mut String, v: i64, places: u8)
    requires
        places <= 2,
    ensures
        final(s)@ == old(s)@ + fixed_point(v as int, places as nat),
{
    if places == 0 {
        push_signed(s, v);
        return;
    }
    let scale: u64 = if places == 1 { 10 } else { 100 };
    let a: u64 = if v < 0 { (-(v as i128)) as u64 } else { v as u64 };
    let ghost start = s@;
    if v < 0 {
        push_char(s, '-');
    }
    push_decimal(s, a / scale);
    push_char(s, '.');
    push_padded(s, a % scale, places as usize, '0');
    proof {
        let sign = if v < 0 { seq!['-'] } else { Seq::<char>::empty() };
        assert(s@ =~= start + (sign + decimal((a / scale) as nat) + seq!['.'] + padded(
            (a % scale) as nat,
            places as nat,
            '0',
        )));
    }
}

} // verus!
