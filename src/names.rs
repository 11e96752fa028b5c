//! Display names and passcodes as users type them.
use vstd::prelude::*;
use crate::text::{chars_of, is_control, is_control_char, push_char, string_of, trim_bounds, trimmed};

verus! {

/// Longest display name, in characters.
pub const MAX_NAME_CHARS: usize = 32;

/// The characters of `s` that are not control characters, in order.
pub open spec fn printable(s: Seq<char>) -> Seq<char>
    decreases s.len(),
{
    if s.len() == 0 {
        s
    } else if is_control_char(s.last()) {
        printable(s.drop_last())
    } else {
        printable(s.drop_last()).push(s.last())
    }
}

/// The display name kept of `raw`: the printable characters of its trimmed
/// form, at most 32 of them; none if nothing is left.
pub open spec fn sanitized_name(raw: Seq<char>) -> Option<Seq<char>> {
    let p = printable(trimmed(raw));
    let k = if p.len() <= MAX_NAME_CHARS {
        p
    } else {
        p.subrange(0, MAX_NAME_CHARS as int)
    };
    if k.len() == 0 {
        None
    } else {
        Some(k)
    }
}

/// A passcode as typed, trimmed; none if nothing is left.
pub open spec fn normalized_passcode(raw: Seq<char>) -> Option<Seq<char>> {
    if trimmed(raw).len() == 0 {
        None
    } else {
        Some(trimmed(raw))
    }
}

proof fn lemma_printable_prefix(s: Seq<char>, i: int, j: int)
    requires
        0 <= i <= j <= s.len(),
    ensures
        printable(s.subrange(0, i)).len() <= printable(s.subrange(0, j)).len(),
        printable(s.subrange(0, i)) == printable(s.subrange(0, j)).subrange(
            0,
            printable(s.subrange(0, i)).len() as int,
        ),
    decreases j - i,
{
    if i < j {
        lemma_printable_prefix(s, i, j - 1);
        assert(s.subrange(0, j).drop_last() =~= s.subrange(0, j - 1));
        let a = printable(s.subrange(0, i));
        let b = printable(s.subrange(0, j - 1));
        if !is_control_char(s.subrange(0, j).last()) {
            assert(b.push(s[j - 1]).subrange(0, a.len() as int) =~= b.subrange(0, a.len() as int));
        }
    } else {
        assert(printable(s.subrange(0, i)).subrange(0, printable(s.subrange(0, i)).len() as int)
            =~= printable(s.subrange(0, i)));
    }
}

/// The display name kept of `raw` (see `sanitized_name`).
pub fn sanitize_display_name(raw: &str) -> (r: Option<String>)
    ensures
        match r {
            Some(s) => sanitized_name(raw@) == Some(s@),
            None => sanitized_name(raw@) is None,
        },
{
    let cs = chars_of(raw);
    let (a, b) = trim_bounds(&cs);
    let ghost t = cs@.subrange(a as int, b as int);
    let mut out = String::new();
    let mut count: usize = 0;
    let mut i: usize = a;
    assert(t.subrange(0, 0) =~= Seq::<char>::empty());
    while i < b && count < MAX_NAME_CHARS
        invariant
            a <= i <= b <= cs@.len(),
            t == cs@.subrange(a as int, b as int),
            t == trimmed(raw@),
            out@ == printable(t.subrange(0, i - a)),
            count == out@.len(),
            count <= MAX_NAME_CHARS,
        decreases b - i,
    {
        let c = cs[i];
        proof {
            assert(t.subrange(0, i - a + 1).drop_last() =~= t.subrange(0, i - a));
            assert(t.subrange(0, i - a + 1).last() == c);
        }
        if !is_control(c) {
            push_char(&mut out, c);
            count = count + 1;
        }
        i = i + 1;
    }
    proof {
        assert(t.subrange(0, t.len() as int) =~= t);
        lemma_printable_prefix(t, i - a, t.len() as int);
        let p = printable(t);
        if count == MAX_NAME_CHARS {
            assert(out@ =~= p.subrange(0, MAX_NAME_CHARS as int));
        } else {
            assert(i == b);
        }
    }
    if count == 0 {
        None
    } else {
        Some(out)
    }
}

/// A passcode as typed, trimmed; `None` if nothing is left.
pub fn normalize_passcode(raw: &str) -> (r: Option<String>)
    ensures
        match r {
            Some(s) => normalized_passcode(raw@) == Some(s@),
            None => normalized_passcode(raw@) is None,
        },
{
    let cs = chars_of(raw);
    let (a, b) = trim_bounds(&cs);
    if a == b {
        None
    } else {
        Some(string_of(&cs, a, b))
    }
}

pub open spec fn hex_digit(d: int) -> char {
    if d < 10 {
        ((48 + d) as u8) as char
    } else {
        ((87 + d) as u8) as char
    }
}

/// The eight lowercase hex digits of `v`, most significant first.
pub open spec fn hex8(v: u32) -> Seq<char> {
    Seq::new(8, |i: int| hex_digit(((v >> ((28 - 4 * i) as u32)) & 0xf) as int))
}

/// The name a client has until it gives one: `Guest ` and the first eight
/// hex digits of its id.
pub open spec fn guest_name(id: u128) -> Seq<char> {
    seq!['G', 'u', 'e', 's', 't', ' '] + hex8((id >> 96u128) as u32)
}

fn hex_char(d: u32) -> (c: char)
    requires
        d < 16,
    ensures
        c == hex_digit(d as int),
{
    if d < 10 {
        (48 + d as u8) as char
    } else {
        (87 + d as u8) as char
    }
}

/// `Guest ` and the first eight hex digits of `id` (see `guest_name`).
pub fn default_display_name(id: u128) -> (r: String)
    ensures
        r@ == guest_name(id),
{
    let mut out = String::new();
    push_char(&mut out, 'G');
    push_char(&mut out, 'u');
    push_char(&mut out, 'e');
    push_char(&mut out, 's');
    push_char(&mut out, 't');
    push_char(&mut out, ' ');
    let top = (id >> 96u128) as u32;
    let ghost head = out@;
    let mut i: u32 = 0;
    while i < 8
        invariant
            i <= 8,
            head == seq!['G', 'u', 'e', 's', 't', ' '],
            top == (id >> 96u128) as u32,
            out@ == head + hex8(top).subrange(0, i as int),
        decreases 8 - i,
    {
        let sh: u32 = 28 - 4 * i;
        let d = (top >> sh) & 0xf;
        assert(d < 16) by (bit_vector)
            requires
                d == (top >> sh) & 0xf,
        ;
        push_char(&mut out, hex_char(d));
        proof {
            assert(hex8(top)[i as int] == hex_digit(d as int));
        }
        i = i + 1;
        assert(out@ =~= head + hex8(top).subrange(0, i as int));
    }
    assert(hex8(top).subrange(0, 8) =~= hex8(top));
    out
}

} // verus!
