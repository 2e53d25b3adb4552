//! Release version numbers of the form `major.minor.patch`.
use vstd::prelude::*;
use vstd::string::StrSliceExecFns;

use crate::text::push_char;

verus! {

/// Why a text is not a version number.
#[derive(Debug, Clone, Copy, PartialEq, Eq, Structural)]
pub enum VersionError {
    NoMinor,
    NoPatch,
    /// A part is not a decimal number that fits a `usize`.
    InvalidNumber,
}

/// The pieces of `s` between dots; one empty piece for an empty text.
pub open spec fn dot_pieces(s: Seq<char>) -> Seq<Seq<char>>
    decreases s.len(),
{
    if s.len() == 0 {
        seq![Seq::empty()]
    } else {
        let p = dot_pieces(s.drop_last());
        if s.last() == '.' {
            p.push(Seq::empty())
        } else {
            p.update(p.len() - 1, p.last().push(s.last()))
        }
    }
}

/// Whether `c` is a decimal digit.
pub open spec fn is_digit(c: char) -> bool {
    '0' <= c <= '9'
}

/// The value of a string of decimal digits.
pub open spec fn digits_value(d: Seq<char>) -> nat
    decreases d.len(),
{
    if d.len() == 0 {
        0
    } else {
        digits_value(d.drop_last()) * 10 + ((d.last() as int - '0' as int) as nat)
    }
}

/// `s` without a leading `+`.
pub open spec fn unsigned_part(s: Seq<char>) -> Seq<char> {
    if s.len() > 0 && s[0] == '+' {
        s.drop_first()
    } else {
        s
    }
}

/// Whether every character of `d` is a decimal digit.
pub open spec fn all_digits(d: Seq<char>) -> bool {
    forall|i: int| 0 <= i < d.len() ==> is_digit(#[trigger] d[i])
}

/// A whole number as `usize` parses it: an optional `+`, then at least one
/// digit, the value fitting a `usize`.
pub open spec fn parse_number(s: Seq<char>) -> Option<nat> {
    let d = unsigned_part(s);
    if d.len() > 0 && all_digits(d) && digits_value(d) <= usize::MAX {
        Some(digits_value(d))
    } else {
        None
    }
}

proof fn lemma_digits_value_grows(d: Seq<char>, k: int)
    requires
        0 <= k <= d.len(),
        forall|i: int| 0 <= i < d.len() ==> is_digit(#[trigger] d[i]),
    ensures
        digits_value(d.subrange(0, k)) <= digits_value(d),
    decreases d.len(),
{
    if k < d.len() {
        assert(d.drop_last().subrange(0, k) =~= d.subrange(0, k));
        lemma_digits_value_grows(d.drop_last(), k);
    } else {
        assert(d.subrange(0, k) =~= d);
    }
}

/// Parses a whole number the way `usize` does.
fn parse_number_exec(s: &str) -> (r: Option<usize>)
    ensures
        match r {
            Some(v) => parse_number(s@) == Some(v as nat),
            None => parse_number(s@) is None,
        },
{
    let n = s.unicode_len();
    let start: usize = if n > 0 && s.get_char(0) == '+' {
        1
    } else {
        0
    };
    let ghost d = unsigned_part(s@);
    assert(d =~= s@.subrange(start as int, n as int));
    if start == n {
        return None;
    }
    let mut value: usize = 0;
    let mut i: usize = start;
    assert(d.subrange(0, 0) =~= Seq::<char>::empty());
    while i < n
        invariant
            start <= i <= n,
            n == s@.len(),
            d =~= s@.subrange(start as int, n as int),
            d == unsigned_part(s@),
            forall|k: int| 0 <= k < i - start ==> is_digit(#[trigger] d[k]),
            value == digits_value(d.subrange(0, i - start)),
        decreases n - i,
    {
        let c = s.get_char(i);
        if !('0' <= c && c <= '9') {
            proof {
                assert(d[i - start] == s@[i as int]);
                assert(!is_digit(d[i - start]));
                assert(!all_digits(d));
            }
            return None;
        }
        let digit = (c as u32 - '0' as u32) as usize;
        assert(d.subrange(0, i + 1 - start).drop_last() =~= d.subrange(0, i - start));
        if value > (usize::MAX - digit) / 10 {
            proof {
                assert(digits_value(d.subrange(0, i + 1 - start)) > usize::MAX) by (nonlinear_arith)
                    requires
                        digits_value(d.subrange(0, i + 1 - start)) == value * 10 + digit,
                        value > (usize::MAX - digit) / 10,
                        digit <= 9,
                ;
                if all_digits(d) {
                    lemma_digits_value_grows(d, i + 1 - start);
                }
            }
            return None;
        }
        proof {
            assert(value * 10 + digit <= usize::MAX) by (nonlinear_arith)
                requires
                    value <= (usize::MAX - digit) / 10,
                    digit <= 9,
            ;
        }
        value = value * 10 + digit;
        i = i + 1;
    }
    assert(d.subrange(0, d.len() as int) =~= d);
    Some(value)
}

/// A version number: three dot-separated numbers; further pieces are ignored.
pub open spec fn version_of(s: Seq<char>) -> Result<(nat, nat, nat), VersionError> {
    let p = dot_pieces(s);
    match parse_number(p[0]) {
        None => Err(VersionError::InvalidNumber),
        Some(major) => if p.len() < 2 {
            Err(VersionError::NoMinor)
        } else {
            match parse_number(p[1]) {
                None => Err(VersionError::InvalidNumber),
                Some(minor) => if p.len() < 3 {
                    Err(VersionError::NoPatch)
                } else {
                    match parse_number(p[2]) {
                        None => Err(VersionError::InvalidNumber),
                        Some(patch) => Ok((major, minor, patch)),
                    }
                },
            }
        },
    }
}

fn split_dots(s: &str) -> (r: Vec<String>)
    ensures
        r@.map_values(|p: String| p@) == dot_pieces(s@),
        r@.len() >= 1,
{
    let n = s.unicode_len();
    let mut done: Vec<String> = Vec::new();
    let mut cur = String::new();
    let mut i: usize = 0;
    assert(s@.subrange(0, 0) =~= Seq::<char>::empty());
    while i < n
        invariant
            i <= n,
            n == s@.len(),
            done@.map_values(|p: String| p@).push(cur@) == dot_pieces(s@.subrange(0, i as int)),
        decreases n - i,
    {
        let c = s.get_char(i);
        let ghost prev = done@.map_values(|p: String| p@);
        let ghost prev_cur = cur@;
        assert(s@.subrange(0, i + 1).drop_last() =~= s@.subrange(0, i as int));
        if c == '.' {
            let piece = cur;
            done.push(piece);
            cur = String::new();
            assert(done@.map_values(|p: String| p@) =~= prev.push(prev_cur));
            assert(done@.map_values(|p: String| p@).push(cur@) =~= prev.push(prev_cur).push(
                Seq::empty(),
            ));
        } else {
            push_char(&mut cur, c);
            assert(done@.map_values(|p: String| p@).push(cur@) =~= prev.push(prev_cur).update(
                prev.len() as int,
                prev_cur.push(c),
            ));
        }
        i = i + 1;
    }
    assert(s@.subrange(0, n as int) =~= s@);
    let ghost prev = done@.map_values(|p: String| p@);
    let ghost last = cur@;
    done.push(cur);
    assert(done@.map_values(|p: String| p@) =~= prev.push(last));
    done
}

/// Reads `major.minor.patch` out of `s`.
pub fn str_to_version(s: &str) -> (r: Result<(usize, usize, usize), VersionError>)
    ensures
        match r {
            Ok(v) => version_of(s@) == Ok::<(nat, nat, nat), VersionError>(
                (v.0 as nat, v.1 as nat, v.2 as nat),
            ),
            Err(e) => version_of(s@) == Err::<(nat, nat, nat), VersionError>(e),
        },
{
    let nums = split_dots(s);
    let ghost p = nums@.map_values(|q: String| q@);
    assert(p[0] == nums@[0]@);
    let major = match parse_number_exec(nums[0].as_str()) {
        Some(v) => v,
        None => return Err(VersionError::InvalidNumber),
    };
    if nums.len() < 2 {
        return Err(VersionError::NoMinor);
    }
    assert(p[1] == nums@[1]@);
    let minor = match parse_number_exec(nums[1].as_str()) {
        Some(v) => v,
        None => return Err(VersionError::InvalidNumber),
    };
    if nums.len() < 3 {
        return Err(VersionError::NoPatch);
    }
    assert(p[2] == nums@[2]@);
    let patch = match parse_number_exec(nums[2].as_str()) {
        Some(v) => v,
        None => return Err(VersionError::InvalidNumber),
    };
    Ok((major, minor, patch))
}

/// Whether version `b` is later than version `a`.
pub open spec fn later(a: (nat, nat, nat), b: (nat, nat, nat)) -> bool {
    b.0 > a.0 || (b.0 == a.0 && b.1 > a.1) || (b.0 == a.0 && b.1 == a.1 && b.2 > a.2)
}

/// Whether `origin` names a later version than `current`; an error when
/// either is not a version, `current`'s first.
pub fn version_greater(current: &str, origin: &str) -> (r: Result<bool, VersionError>)
    ensures
        match (version_of(current@), version_of(origin@)) {
            (Ok(a), Ok(b)) => r == Ok::<bool, VersionError>(later(a, b)),
            (Err(e), _) => r == Err::<bool, VersionError>(e),
            (Ok(_), Err(e)) => r == Err::<bool, VersionError>(e),
        },
{
    let current = str_to_version(current)?;
    let origin = str_to_version(origin)?;
    Ok((origin.0 > current.0) || (origin.0 == current.0 && origin.1 > current.1) || (origin.0
        == current.0 && origin.1 == current.1 && origin.2 > current.2))
}

} // verus!
