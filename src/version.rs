//! Comparing dotted version numbers such as `1.2.3`.
use vstd::prelude::*;
use core::cmp::Ordering;
use crate::invite::{char_index, index_of_char, slice_of};
use crate::text::chars_of;

verus! {

/// `s` cut at each `.`.
pub open spec fn segments(s: Seq<char>) -> Seq<Seq<char>>
    decreases s.len(),
{
    let i = index_of_char(s, '.');
    if 0 <= i < s.len() {
        seq![s.subrange(0, i)] + segments(s.subrange(i + 1, s.len() as int))
    } else {
        seq![s]
    }
}

/// The number the decimal digits `d` write.
pub open spec fn digits_value(d: Seq<char>) -> int
    decreases d.len(),
{
    if d.len() == 0 {
        0
    } else {
        digits_value(d.drop_last()) * 10 + (d.last() as int - '0' as int)
    }
}

pub open spec fn all_digits(d: Seq<char>) -> bool {
    forall|i: int| 0 <= i < d.len() ==> '0' <= #[trigger] d[i] <= '9'
}

/// `s` read as a `u32` the way `str::parse::<u32>` reads it: an optional
/// `+`, then at least one digit, and a value that fits.
pub open spec fn parse_u32(s: Seq<char>) -> Option<u32> {
    let d = if s.len() > 0 && s[0] == '+' {
        s.subrange(1, s.len() as int)
    } else {
        s
    };
    if d.len() == 0 || !all_digits(d) || digits_value(d) > u32::MAX {
        None
    } else {
        Some(digits_value(d) as u32)
    }
}

/// The segments of a version that read as numbers, in order.
pub open spec fn numbers_of(segs: Seq<Seq<char>>) -> Seq<u32>
    decreases segs.len(),
{
    if segs.len() == 0 {
        Seq::empty()
    } else {
        match parse_u32(segs.last()) {
            Some(v) => numbers_of(segs.drop_last()).push(v),
            None => numbers_of(segs.drop_last()),
        }
    }
}

/// The `i`-th number of a version, 0 past its end.
pub open spec fn part(v: Seq<u32>, i: int) -> u32 {
    if 0 <= i < v.len() {
        v[i]
    } else {
        0
    }
}

/// Versions compare by their first three numbers, in order.
pub open spec fn version_order(a: Seq<u32>, b: Seq<u32>) -> Ordering {
    if part(a, 0) != part(b, 0) {
        if part(a, 0) < part(b, 0) {
            Ordering::Less
        } else {
            Ordering::Greater
        }
    } else if part(a, 1) != part(b, 1) {
        if part(a, 1) < part(b, 1) {
            Ordering::Less
        } else {
            Ordering::Greater
        }
    } else if part(a, 2) != part(b, 2) {
        if part(a, 2) < part(b, 2) {
            Ordering::Less
        } else {
            Ordering::Greater
        }
    } else {
        Ordering::Equal
    }
}

proof fn lemma_digits_bound(d: Seq<char>)
    requires
        all_digits(d),
    ensures
        digits_value(d) >= 0,
    decreases d.len(),
{
    if d.len() > 0 {
        lemma_digits_bound(d.drop_last());
    }
}

/// `s` read as a `u32` (see `parse_u32`).
pub fn parse_number(s: &Vec<char>) -> (r: Option<u32>)
    ensures
        r == parse_u32(s@),
{
    let start: usize = if s.len() > 0 && s[0] == '+' { 1 } else { 0 };
    let ghost d = s@.subrange(start as int, s@.len() as int);
    proof {
        if start == 0 {
            assert(d =~= s@);
        }
        assert(d == (if s@.len() > 0 && s@[0] == '+' {
            s@.subrange(1, s@.len() as int)
        } else {
            s@
        }));
    }
    if start == s.len() {
        return None;
    }
    let mut value: u64 = 0;
    let mut i: usize = start;
    while i < s.len()
        invariant
            start <= i <= s@.len(),
            d == s@.subrange(start as int, s@.len() as int),
            d == (if s@.len() > 0 && s@[0] == '+' {
                s@.subrange(1, s@.len() as int)
            } else {
                s@
            }),
            value == digits_value(d.subrange(0, i - start)),
            value <= u32::MAX,
            all_digits(d.subrange(0, i - start)),
        decreases s@.len() - i,
    {
        let c = s[i];
        if !('0' <= c && c <= '9') {
            proof {
                assert(d[i - start] == c);
                assert(!all_digits(d));
            }
            return None;
        }
        proof {
            assert(d.subrange(0, i - start + 1).drop_last() =~= d.subrange(0, i - start));
            assert(d.subrange(0, i - start + 1).last() == c);
        }
        let next = value * 10 + (c as u64 - '0' as u64);
        if next > 4294967295u64 {
            proof {
                let k = i - start + 1;
                assert(all_digits(d.subrange(0, k)));
                assert(digits_value(d.subrange(0, k)) == next);
                lemma_suffix_digits_grow(d, k);
            }
            return None;
        }
        value = next;
        i = i + 1;
    }
    assert(d.subrange(0, d.len() as int) =~= d);
    Some(value as u32)
}

/// A number written with more digits is at least as large.
proof fn lemma_suffix_digits_grow(d: Seq<char>, k: int)
    requires
        0 <= k <= d.len(),
        all_digits(d.subrange(0, k)),
    ensures
        all_digits(d) ==> digits_value(d) >= digits_value(d.subrange(0, k)),
    decreases d.len() - k,
{
    if k < d.len() && all_digits(d) {
        assert(d.subrange(0, k + 1).drop_last() =~= d.subrange(0, k));
        assert(all_digits(d.subrange(0, k + 1)));
        lemma_digits_bound(d.subrange(0, k));
        lemma_suffix_digits_grow(d, k + 1);
    } else if k == d.len() {
        assert(d.subrange(0, k) =~= d);
    }
}

/// The numbers of the version text `v`, in order.
pub fn version_numbers(v: &str) -> (r: Vec<u32>)
    ensures
        r@ == numbers_of(segments(v@)),
{
    let cs = chars_of(v);
    let n = cs.len();
    let mut out: Vec<u32> = Vec::new();
    let mut pos: usize = 0;
    let ghost mut done: Seq<Seq<char>> = Seq::empty();
    assert(cs@.subrange(0, n as int) =~= cs@);
    loop
        invariant_except_break
            pos <= n == cs@.len(),
            segments(cs@) == done + segments(cs@.subrange(pos as int, n as int)),
        invariant
            out@ == numbers_of(done),
        ensures
            segments(cs@) == done,
        decreases n - pos,
    {
        let j = char_index(&cs, pos, '.');
        let seg = slice_of(&cs, pos, j);
        let ghost rest = cs@.subrange(pos as int, n as int);
        proof {
            assert(seg@ =~= rest.subrange(0, j - pos));
            if j < n {
                assert(rest.subrange(j - pos + 1, rest.len() as int) =~= cs@.subrange(j + 1, n as int));
            } else {
                assert(rest.subrange(0, j - pos) =~= rest);
            }
        }
        let ghost before = done;
        proof {
            done = done.push(seg@);
            assert(done.drop_last() =~= before);
        }
        match parse_number(&seg) {
            Some(x) => out.push(x),
            None => {},
        }
        if j >= n {
            proof {
                assert(segments(cs@) =~= done);
            }
            break;
        }
        proof {
            assert(segments(cs@) =~= done + segments(cs@.subrange(j + 1, n as int)));
        }
        pos = j + 1;
    }
    out
}

fn part_at(v: &Vec<u32>, i: usize) -> (r: u32)
    ensures
        r == part(v@, i as int),
{
    if i < v.len() {
        v[i]
    } else {
        0
    }
}

/// Compares two dotted versions by their first three numbers; segments
/// that are not numbers are skipped and missing numbers count as 0.
pub fn compare_versions(current: &str, latest: &str) -> (r: Ordering)
    ensures
        r == version_order(numbers_of(segments(current@)), numbers_of(segments(latest@))),
{
    let a = version_numbers(current);
    let b = version_numbers(latest);
    let mut i: usize = 0;
    while i < 3
        invariant
            i <= 3,
            a@ == numbers_of(segments(current@)),
            b@ == numbers_of(segments(latest@)),
            forall|j: int| 0 <= j < i ==> part(a@, j) == part(b@, j),
        decreases 3 - i,
    {
        let x = part_at(&a, i);
        let y = part_at(&b, i);
        proof {
            if i >= 1 {
                assert(part(a@, 0) == part(b@, 0));
            }
            if i >= 2 {
                assert(part(a@, 1) == part(b@, 1));
            }
        }
        if x < y {
            return Ordering::Less;
        }
        if x > y {
            return Ordering::Greater;
        }
        i = i + 1;
    }
    assert(part(a@, 0) == part(b@, 0) && part(a@, 1) == part(b@, 1) && part(a@, 2) == part(b@, 2));
    Ordering::Equal
}

} // verus!
