//! Room codes (`NNN-NNN`) and room capacities.
use vstd::prelude::*;
use crate::text::{chars_of, is_ascii_digit, push_char, trim_bounds, trimmed};

verus! {

pub const MIN_CAPACITY: usize = 2;

pub const MAX_CAPACITY: usize = 32;

pub const DEFAULT_CAPACITY: usize = 12;

/// Number of distinct room codes.
pub const CODE_SPACE: u32 = 1000000;

/// The capacity a room gets when `requested` was asked for.
pub open spec fn normalized_capacity(requested: Option<usize>) -> usize {
    match requested {
        Some(v) => if v < MIN_CAPACITY {
            MIN_CAPACITY
        } else if v > MAX_CAPACITY {
            MAX_CAPACITY
        } else {
            v
        },
        None => DEFAULT_CAPACITY,
    }
}

pub open spec fn capacity_in_range(k: usize) -> bool {
    MIN_CAPACITY <= k <= MAX_CAPACITY
}

/// Clamps a requested capacity into `[2, 32]`; no request gives 12.
pub fn normalize_capacity(requested: Option<usize>) -> (r: usize)
    ensures
        r == normalized_capacity(requested),
        capacity_in_range(r),
{
    match requested {
        Some(v) => if v < MIN_CAPACITY {
            MIN_CAPACITY
        } else if v > MAX_CAPACITY {
            MAX_CAPACITY
        } else {
            v
        },
        None => DEFAULT_CAPACITY,
    }
}

/// Normalizing twice gives what normalizing once gave, and every result
/// lies in `[2, 32]`.
pub proof fn normalize_capacity_idempotent(k: Option<usize>)
    ensures
        normalized_capacity(Some(normalized_capacity(k))) == normalized_capacity(k),
        capacity_in_range(normalized_capacity(k)),
{
}

pub open spec fn digit_char(d: int) -> char {
    ((48 + d) as u8) as char
}

/// Three decimal digits of `v`, most significant first.
pub open spec fn three_digits(v: int) -> Seq<char> {
    seq![digit_char(v / 100), digit_char((v / 10) % 10), digit_char(v % 10)]
}

/// The code `NNN-NNN` of the number `raw` below one million.
pub open spec fn code_text(raw: int) -> Seq<char> {
    three_digits(raw / 1000) + seq!['-'] + three_digits(raw % 1000)
}

/// `s` has the shape of a room code: three digits, `-`, three digits.
pub open spec fn is_room_code(s: Seq<char>) -> bool {
    &&& s.len() == 7
    &&& s[3] == '-'
    &&& forall|i: int| 0 <= i < 7 && i != 3 ==> is_ascii_digit(#[trigger] s[i])
}

fn digit(d: u32) -> (c: char)
    requires
        d < 10,
    ensures
        c == digit_char(d as int),
        is_ascii_digit(c),
{
    let b: u8 = 48 + d as u8;
    b as char
}

fn push_three_digits(s: &mut String, v: u32)
    requires
        v < 1000,
    ensures
        final(s)@ == old(s)@ + three_digits(v as int),
{
    push_char(s, digit(v / 100));
    push_char(s, digit((v / 10) % 10));
    push_char(s, digit(v % 10));
    assert(final(s)@ =~= old(s)@ + three_digits(v as int));
}

/// The room code `NNN-NNN` of `raw`.
pub fn format_room_code(raw: u32) -> (r: String)
    requires
        raw < CODE_SPACE,
    ensures
        r@ == code_text(raw as int),
        is_room_code(r@),
{
    let mut s = String::new();
    push_three_digits(&mut s, raw / 1000);
    push_char(&mut s, '-');
    push_three_digits(&mut s, raw % 1000);
    assert(s@ =~= code_text(raw as int));
    s
}

/// Whether `code`, once trimmed, has the shape `NNN-NNN`.
pub fn is_valid_room_code(code: &str) -> (r: bool)
    ensures
        r == is_room_code(trimmed(code@)),
{
    let cs = chars_of(code);
    let (a, b) = trim_bounds(&cs);
    let ghost t = cs@.subrange(a as int, b as int);
    if b - a != 7 || cs[a + 3] != '-' {
        return false;
    }
    let mut i: usize = 0;
    while i < 7
        invariant
            b - a == 7,
            a + 7 <= cs@.len(),
            t == cs@.subrange(a as int, b as int),
            t == trimmed(code@),
            i <= 7,
            forall|j: int| 0 <= j < i && j != 3 ==> is_ascii_digit(#[trigger] t[j]),
        decreases 7 - i,
    {
        assert(t[i as int] == cs@[a + i]);
        if i != 3 && !('0' <= cs[a + i] && cs[a + i] <= '9') {
            assert(!is_ascii_digit(t[i as int]));
            return false;
        }
        i = i + 1;
    }
    true
}

/// The digits of `s`, in order.
pub open spec fn digits_of(s: Seq<char>) -> Seq<char> {
    s.filter(|c: char| is_ascii_digit(c))
}

/// What typing `s` into the room-code field leaves there: its digits, with
/// a `-` after the third and at most six in all.
pub open spec fn room_code_input(s: Seq<char>) -> Seq<char> {
    let d = digits_of(s);
    if d.len() <= 3 {
        d
    } else if d.len() <= 6 {
        d.subrange(0, 3) + seq!['-'] + d.subrange(3, d.len() as int)
    } else {
        d.subrange(0, 3) + seq!['-'] + d.subrange(3, 6)
    }
}

/// Reformats what was typed into the room-code field (see
/// `room_code_input`).
pub fn sanitize_room_code_input(input: &str) -> (r: String)
    ensures
        r@ == room_code_input(input@),
{
    let cs = chars_of(input);
    let mut digits: Vec<char> = Vec::new();
    let mut i: usize = 0;
    while i < cs.len()
        invariant
            i <= cs@.len(),
            digits@ == digits_of(cs@.subrange(0, i as int)),
        decreases cs@.len() - i,
    {
        let c = cs[i];
        proof {
            let p = cs@.subrange(0, i as int);
            assert(cs@.subrange(0, i + 1) =~= p.push(c));
            p.lemma_filter_push(c, |c: char| is_ascii_digit(c));
        }
        if '0' <= c && c <= '9' {
            digits.push(c);
        }
        i = i + 1;
    }
    assert(cs@.subrange(0, cs@.len() as int) =~= cs@);
    let ghost d = digits@;
    let mut out = String::new();
    let mut k: usize = 0;
    while k < digits.len() && k < 6
        invariant
            d == digits@,
            k <= 6,
            k <= d.len(),
            out@ == (if k <= 3 {
                d.subrange(0, k as int)
            } else {
                d.subrange(0, 3) + seq!['-'] + d.subrange(3, k as int)
            }),
        decreases d.len() - k,
    {
        if k == 3 {
            push_char(&mut out, '-');
        }
        push_char(&mut out, digits[k]);
        k = k + 1;
        if k <= 3 {
            assert(out@ =~= d.subrange(0, k as int));
        } else {
            assert(out@ =~= d.subrange(0, 3) + seq!['-'] + d.subrange(3, k as int));
        }
    }
    proof {
        if d.len() <= 3 {
            assert(d.subrange(0, d.len() as int) =~= d);
        }
    }
    out
}

} // verus!
