//! Sizes written as in the cache settings: a number with an optional `K`,
//! `M` or `G` suffix.

use crate::text::{chars_of, parse_uint_range, parse_uint_seq, trim_seq, trim, upper_of, uppercase};
use vstd::prelude::*;

verus! {

/// `a * b`, or the largest `u64` where the product does not fit.
pub open spec fn saturating_product(a: nat, b: nat) -> u64 {
    if a * b > u64::MAX {
        u64::MAX
    } else {
        (a * b) as u64
    }
}

/// The number that `s` writes, else `default`.
pub open spec fn number_or(s: Seq<char>, default: nat) -> nat {
    match parse_uint_seq(s, u64::MAX as nat) {
        Some(n) => n,
        None => default,
    }
}

/// The bytes that an upper-case size text stands for: `G`, `M` and `K`
/// multiply by 2^30, 2^20 and 2^10; a number that cannot be read counts as
/// 1 (`G`, `K`) or 512 (`M`); a text without suffix that cannot be read
/// means 512 MiB.
pub open spec fn size_value(u: Seq<char>) -> u64 {
    let n = u.len();
    if n > 0 && u[n - 1] == 'G' {
        saturating_product(number_or(u.subrange(0, n - 1), 1), 1073741824)
    } else if n > 0 && u[n - 1] == 'M' {
        saturating_product(number_or(u.subrange(0, n - 1), 512), 1048576)
    } else if n > 0 && u[n - 1] == 'K' {
        saturating_product(number_or(u.subrange(0, n - 1), 1), 1024)
    } else {
        number_or(u, 536870912) as u64
    }
}

fn times(a: u64, b: u64) -> (r: u64)
    ensures
        r == saturating_product(a as nat, b as nat),
{
    match a.checked_mul(b) {
        Some(p) => p,
        None => u64::MAX,
    }
}

fn number_in(v: &Vec<char>, to: usize, default: u64) -> (r: u64)
    requires
        to <= v@.len(),
    ensures
        r == number_or(v@.subrange(0, to as int), default as nat),
{
    match parse_uint_range(v, 0, to, u64::MAX) {
        Some(n) => n,
        None => default,
    }
}

/// The number of bytes that a size such as `512M` stands for, read without
/// surrounding white space and in any case.
pub fn parse_size(s: &str) -> (r: u64)
    ensures
        r == size_value(upper_of(trim_seq(s@))),
{
    let t = trim(s);
    let u = uppercase(t.as_str());
    let v = chars_of(u.as_str());
    let n = v.len();
    if n > 0 && v[n - 1] == 'G' {
        times(number_in(&v, n - 1, 1), 1073741824)
    } else if n > 0 && v[n - 1] == 'M' {
        times(number_in(&v, n - 1, 512), 1048576)
    } else if n > 0 && v[n - 1] == 'K' {
        times(number_in(&v, n - 1, 1), 1024)
    } else {
        assert(v@.subrange(0, n as int) =~= v@);
        number_in(&v, n, 536870912)
    }
}

} // verus!
