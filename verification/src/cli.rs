//! Reading the command lines of the offline tools: flags, the value after
//! a flag, positional arguments, and decimal numbers as `str::parse` reads
//! them for unsigned integers.

use crate::text::{chars_of, starts_with, str_eq, str_starts_with};
use vstd::prelude::*;

verus! {

/// Whether `flag` is one of the arguments.
pub open spec fn spec_has_flag(args: Seq<String>, flag: Seq<char>) -> bool {
    exists|i: int| 0 <= i < args.len() && (#[trigger] args[i])@ == flag
}

pub fn has_flag(args: &[String], flag: &str) -> (r: bool)
    ensures
        r == spec_has_flag(args@, flag@),
{
    let mut i: usize = 0;
    while i < args.len()
        invariant
            i <= args@.len(),
            forall|j: int| 0 <= j < i ==> (#[trigger] args@[j])@ != flag@,
        decreases args@.len() - i,
    {
        if str_eq(args[i].as_str(), flag) {
            return true;
        }
        i = i + 1;
    }
    false
}

/// Index of the first occurrence of `flag`.
pub open spec fn first_flag(args: Seq<String>, flag: Seq<char>, from: int) -> Option<int>
    decreases args.len() - from,
{
    if from < 0 || from >= args.len() {
        None
    } else if args[from]@ == flag {
        Some(from)
    } else {
        first_flag(args, flag, from + 1)
    }
}

/// The argument right after the first occurrence of `flag`, if both exist.
pub open spec fn spec_value_after(args: Seq<String>, flag: Seq<char>) -> Option<Seq<char>> {
    match first_flag(args, flag, 0) {
        Some(i) => if i + 1 < args.len() {
            Some(args[i + 1]@)
        } else {
            None
        },
        None => None,
    }
}

pub fn value_after(args: &[String], flag: &str) -> (r: Option<String>)
    ensures
        match spec_value_after(args@, flag@) {
            Some(v) => r matches Some(s) && s@ == v,
            None => r is None,
        },
{
    let mut i: usize = 0;
    while i < args.len()
        invariant
            i <= args@.len(),
            first_flag(args@, flag@, 0) == first_flag(args@, flag@, i as int),
        decreases args@.len() - i,
    {
        if str_eq(args[i].as_str(), flag) {
            if i + 1 < args.len() {
                return Some(args[i + 1].clone());
            } else {
                return None;
            }
        }
        i = i + 1;
    }
    None
}

/// The positional arguments: everything that is not a `--` flag, and not
/// the value of a flag listed in `with_value`.
pub open spec fn positional_from(args: Seq<String>, valued: Seq<char>) -> Seq<Seq<char>>
    decreases args.len(),
{
    if args.len() == 0 {
        Seq::empty()
    } else if args[0]@ == valued {
        if args.len() == 1 {
            Seq::empty()
        } else {
            positional_from(args.subrange(2, args.len() as int), valued)
        }
    } else if starts_with(args[0]@, "--"@) {
        positional_from(args.drop_first(), valued)
    } else {
        seq![args[0]@] + positional_from(args.drop_first(), valued)
    }
}

/// The positional arguments, skipping `--` flags and the value that
/// follows the flag `valued`.
pub fn positional(args: &[String], valued: &str) -> (r: Vec<String>)
    ensures
        r@.map_values(|s: String| s@) == positional_from(args@, valued@),
{
    let mut out: Vec<String> = Vec::new();
    let mut i: usize = 0;
    assert(args@.subrange(0, args@.len() as int) =~= args@);
    while i < args.len()
        invariant
            i <= args@.len(),
            out@.map_values(|s: String| s@) + positional_from(
                args@.subrange(i as int, args@.len() as int),
                valued@,
            ) == positional_from(args@, valued@),
        decreases args@.len() - i,
    {
        let ghost rest = args@.subrange(i as int, args@.len() as int);
        let ghost before = out@.map_values(|s: String| s@);
        let a = args[i].as_str();
        if str_eq(a, valued) {
            if i + 1 >= args.len() {
                assert(positional_from(rest, valued@) =~= Seq::<Seq<char>>::empty());
                assert(args@.subrange(args@.len() as int, args@.len() as int) =~= Seq::<String>::empty());
                i = args.len();
            } else {
                assert(rest.subrange(2, rest.len() as int) =~= args@.subrange(i + 2, args@.len() as int));
                i = i + 2;
            }
        } else if str_starts_with(a, "--") {
            assert(rest.drop_first() =~= args@.subrange(i + 1, args@.len() as int));
            i = i + 1;
        } else {
            assert(rest.drop_first() =~= args@.subrange(i + 1, args@.len() as int));
            out.push(args[i].clone());
            assert(out@.map_values(|s: String| s@) =~= before.push(args@[i as int]@));
            assert(before.push(args@[i as int]@) + positional_from(rest.drop_first(), valued@) =~= before
                + (seq![args@[i as int]@] + positional_from(rest.drop_first(), valued@)));
            i = i + 1;
        }
    }
    assert(args@.subrange(args@.len() as int, args@.len() as int) =~= Seq::<String>::empty());
    assert(out@.map_values(|s: String| s@) =~= positional_from(args@, valued@));
    out
}

/// Whether a character is a decimal digit.
pub open spec fn is_digit(c: char) -> bool {
    '0' <= c <= '9'
}

/// Every character is a decimal digit.
pub open spec fn all_digits(d: Seq<char>) -> bool {
    forall|i: int| 0 <= i < d.len() ==> is_digit(#[trigger] d[i])
}

/// The value of a string of decimal digits.
pub open spec fn digits_value(d: Seq<char>) -> nat
    decreases d.len(),
{
    if d.len() == 0 {
        0
    } else {
        digits_value(d.drop_last()) * 10 + (d.last() as nat - '0' as nat) as nat
    }
}

/// What `str::parse::<u64>` accepts: an optional `+`, then one or more
/// decimal digits, whose value fits in 64 bits.
pub open spec fn spec_parse_u64(s: Seq<char>) -> Option<u64> {
    let d = if s.len() > 0 && s[0] == '+' {
        s.drop_first()
    } else {
        s
    };
    if d.len() > 0 && all_digits(d) && digits_value(d) <= u64::MAX {
        Some(digits_value(d) as u64)
    } else {
        None
    }
}

proof fn lemma_digits_value_monotone(d: Seq<char>, i: int)
    requires
        0 <= i <= d.len(),
        forall|k: int| 0 <= k < d.len() ==> is_digit(#[trigger] d[k]),
    ensures
        digits_value(d.subrange(0, i)) <= digits_value(d),
    decreases d.len() - i,
{
    if i < d.len() {
        lemma_digits_value_monotone(d, i + 1);
        assert(d.subrange(0, i + 1).drop_last() =~= d.subrange(0, i));
    } else {
        assert(d.subrange(0, i) =~= d);
    }
}

/// Parses an unsigned decimal number as `str::parse::<u64>` does.
pub fn parse_u64(s: &str) -> (r: Option<u64>)
    ensures
        r == spec_parse_u64(s@),
{
    let cs = chars_of(s);
    let start: usize = if cs.len() > 0 && cs[0] == '+' {
        1
    } else {
        0
    };
    let ghost d = if s@.len() > 0 && s@[0] == '+' {
        s@.drop_first()
    } else {
        s@
    };
    assert(d =~= cs@.subrange(start as int, cs@.len() as int));
    assert(spec_parse_u64(s@) == (if d.len() > 0 && all_digits(d) && digits_value(d) <= u64::MAX {
        Some(digits_value(d) as u64)
    } else {
        None
    }));
    if start >= cs.len() {
        return None;
    }
    let mut i: usize = start;
    while i < cs.len()
        invariant
            start <= i <= cs@.len(),
            d == cs@.subrange(start as int, cs@.len() as int),
            spec_parse_u64(s@) == (if d.len() > 0 && all_digits(d) && digits_value(d) <= u64::MAX {
                Some(digits_value(d) as u64)
            } else {
                None
            }),
            forall|k: int| 0 <= k < i - start ==> is_digit(#[trigger] d[k]),
        decreases cs@.len() - i,
    {
        let c = cs[i];
        assert(d[i - start] == c);
        if !('0' <= c && c <= '9') {
            assert(!is_digit(d[i - start]));
            assert(!all_digits(d));
            return None;
        }
        i = i + 1;
    }
    let mut value: u64 = 0;
    let mut j: usize = start;
    while j < cs.len()
        invariant
            start <= j <= cs@.len(),
            d == cs@.subrange(start as int, cs@.len() as int),
            spec_parse_u64(s@) == (if d.len() > 0 && all_digits(d) && digits_value(d) <= u64::MAX {
                Some(digits_value(d) as u64)
            } else {
                None
            }),
            forall|k: int| 0 <= k < d.len() ==> is_digit(#[trigger] d[k]),
            value as nat == digits_value(d.subrange(0, j - start)),
        decreases cs@.len() - j,
    {
        let c = cs[j];
        assert(d[j - start] == c);
        assert(is_digit(d[j - start]));
        let digit = (c as u32 - '0' as u32) as u64;
        assert(d.subrange(0, j + 1 - start).drop_last() =~= d.subrange(0, j - start));
        if value > (u64::MAX - digit) / 10 {
            proof {
                assert(value * 10 + digit > u64::MAX) by (nonlinear_arith)
                    requires
                        value > (u64::MAX - digit) / 10,
                        digit <= 9,
                ;
                lemma_digits_value_monotone(d, j + 1 - start);
                let sub = d.subrange(0, j + 1 - start);
                assert(sub.last() == c);
                assert(digits_value(sub) == digits_value(sub.drop_last()) * 10 + (c as nat - '0' as nat) as nat);
                assert(digits_value(sub) == value * 10 + digit);
                assert(digits_value(d) > u64::MAX);
                assert(spec_parse_u64(s@) is None);
            }
            return None;
        }
        value = value * 10 + digit;
        j = j + 1;
    }
    assert(d.subrange(0, d.len() as int) =~= d);
    Some(value)
}

/// What `str::parse::<u32>` accepts: the same form, within 32 bits.
pub open spec fn spec_parse_u32(s: Seq<char>) -> Option<u32> {
    match spec_parse_u64(s) {
        Some(v) => if v <= u32::MAX {
            Some(v as u32)
        } else {
            None
        },
        None => None,
    }
}

/// Parses an unsigned decimal number as `str::parse::<u32>` does.
pub fn parse_u32(s: &str) -> (r: Option<u32>)
    ensures
        r == spec_parse_u32(s@),
{
    match parse_u64(s) {
        Some(v) => if v <= u32::MAX as u64 {
            Some(v as u32)
        } else {
            None
        },
        None => None,
    }
}

} // verus!
