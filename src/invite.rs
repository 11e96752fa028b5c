//! Invite links: `hang://join?room=..&code=..&file=..`, each value
//! percent-encoded.
use vstd::prelude::*;
use crate::text::{
    begins_with, chars_of, is_white, push_str, starts_with_text, string_of, trim_bounds, trim_start,
    trimmed,
};

verus! {

/// An invite link handed over by another launch of the program.
#[derive(Clone, Debug)]
pub struct InviteSignal {
    pub url: String,
}

/// What an invite link carries.
#[derive(Clone, Debug)]
pub struct InviteLink {
    pub room_id: String,
    pub passcode: Option<String>,
    pub file_name: Option<String>,
}

/// The characters percent-encoding leaves or produces: ASCII letters and
/// digits, `-`, `.`, `_`, `~`, and `%`.
pub open spec fn url_safe(c: char) -> bool {
    ('0' <= c <= '9') || ('A' <= c <= 'Z') || ('a' <= c <= 'z') || c == '-' || c == '.' || c == '_'
        || c == '~' || c == '%'
}

/// Percent-encoding of `s`, as `urlencoding::encode` gives it.
pub uninterp spec fn pct_encoded(s: Seq<char>) -> Seq<char>;

/// Percent-decoding of `s`, as `urlencoding::decode` gives it; `None` when
/// the bytes decoded are not UTF-8.
pub uninterp spec fn pct_decoded(s: Seq<char>) -> Option<Seq<char>>;

/// Relies on `urlencoding::encode`: every byte other than ASCII letters,
/// digits and `-._~` becomes `%` and two hex digits, so only those
/// characters and `%` appear, and `urlencoding::decode` gives the input
/// back.
#[verifier::external_body]
fn percent_encode(s: &str) -> (r: String)
    ensures
        r@ == pct_encoded(s@),
        forall|i: int| 0 <= i < r@.len() ==> url_safe(#[trigger] r@[i]),
        pct_decoded(r@) == Some(s@),
{
    urlencoding::encode(s).into_owned()
}

/// Relies on `urlencoding::decode`.
#[verifier::external_body]
fn percent_decode(s: &str) -> (r: Option<String>)
    ensures
        match r {
            Some(d) => pct_decoded(s@) == Some(d@),
            None => pct_decoded(s@) is None,
        },
{
    match urlencoding::decode(s) {
        Ok(d) => Some(d.into_owned()),
        Err(_) => None,
    }
}

/// Index of the first `c` in `s`, or the length of `s` if there is none.
pub open spec fn index_of_char(s: Seq<char>, c: char) -> int
    decreases s.len(),
{
    if s.len() == 0 {
        0
    } else if s[0] == c {
        0
    } else {
        1 + index_of_char(s.subrange(1, s.len() as int), c)
    }
}

/// `q` cut at each `&`.
pub open spec fn pieces(q: Seq<char>) -> Seq<Seq<char>>
    decreases q.len(),
{
    let i = index_of_char(q, '&');
    if 0 <= i < q.len() {
        seq![q.subrange(0, i)] + pieces(q.subrange(i + 1, q.len() as int))
    } else {
        seq![q]
    }
}

/// The name of a `name=value` piece: what precedes the first `=`.
pub open spec fn key_of(p: Seq<char>) -> Seq<char> {
    let k = index_of_char(p, '=');
    if 0 <= k < p.len() {
        p.subrange(0, k)
    } else {
        p
    }
}

/// The value of a `name=value` piece: what follows the first `=`.
pub open spec fn value_of(p: Seq<char>) -> Seq<char> {
    let k = index_of_char(p, '=');
    if 0 <= k < p.len() {
        p.subrange(k + 1, p.len() as int)
    } else {
        Seq::empty()
    }
}

/// The decoded value of the last piece named `key`: `None` when there is
/// none, `Some(None)` when it does not decode.
pub open spec fn lookup(pcs: Seq<Seq<char>>, key: Seq<char>) -> Option<Option<Seq<char>>>
    decreases pcs.len(),
{
    if pcs.len() == 0 {
        None
    } else if key_of(pcs.last()) == key {
        Some(pct_decoded(value_of(pcs.last())))
    } else {
        lookup(pcs.drop_last(), key)
    }
}

pub open spec fn found(v: Option<Option<Seq<char>>>) -> Option<Seq<char>> {
    match v {
        Some(Some(s)) => Some(s),
        _ => None,
    }
}

/// The query of an invite: what follows the first `?` of a `hang://`,
/// `http://` or `https://` link, or the whole text otherwise.
pub open spec fn query_part(t: Seq<char>) -> Seq<char> {
    if begins_with(t, "hang://"@) || begins_with(t, "http://"@) || begins_with(t, "https://"@) {
        let i = index_of_char(t, '?');
        if i < t.len() {
            t.subrange(i + 1, t.len() as int)
        } else {
            Seq::empty()
        }
    } else {
        t
    }
}

/// The query of an invite, without a `#` fragment.
pub open spec fn query_of(t: Seq<char>) -> Seq<char> {
    let q = query_part(t);
    q.subrange(0, index_of_char(q, '#'))
}

/// What an invite text parses to: the room (required, not empty), the
/// passcode and the file name, each percent-decoded; unknown names are
/// ignored and the last of a repeated name counts.
pub open spec fn parsed_invite(input: Seq<char>) -> Option<(Seq<char>, Option<Seq<char>>, Option<Seq<char>>)> {
    let t = trimmed(input);
    let pcs = pieces(query_of(t));
    let room = found(lookup(pcs, "room"@));
    if t.len() == 0 || room is None || room->0.len() == 0 {
        None
    } else {
        Some((room->0, found(lookup(pcs, "code"@)), found(lookup(pcs, "file"@))))
    }
}

pub open spec fn opt_view(o: Option<String>) -> Option<Seq<char>> {
    match o {
        Some(s) => Some(s@),
        None => None,
    }
}

proof fn lemma_index_step(s: Seq<char>, i: int, c: char)
    requires
        0 <= i < s.len(),
        s[i] != c,
    ensures
        index_of_char(s.subrange(i, s.len() as int), c) == 1 + index_of_char(
            s.subrange(i + 1, s.len() as int),
            c,
        ),
{
    let t = s.subrange(i, s.len() as int);
    assert(t.subrange(1, t.len() as int) =~= s.subrange(i + 1, s.len() as int));
}

/// Index of the first `c` at or after `from` in `cs`, or its length.
pub(crate) fn char_index(cs: &Vec<char>, from: usize, c: char) -> (r: usize)
    requires
        from <= cs@.len(),
    ensures
        r == from + index_of_char(cs@.subrange(from as int, cs@.len() as int), c),
        from <= r <= cs@.len(),
        r < cs@.len() ==> cs@[r as int] == c,
{
    let mut i: usize = from;
    while i < cs.len() && cs[i] != c
        invariant
            from <= i <= cs@.len(),
            index_of_char(cs@.subrange(from as int, cs@.len() as int), c) == (i - from) + index_of_char(
                cs@.subrange(i as int, cs@.len() as int),
                c,
            ),
        decreases cs@.len() - i,
    {
        proof {
            lemma_index_step(cs@, i as int, c);
        }
        i = i + 1;
    }
    proof {
        let t = cs@.subrange(i as int, cs@.len() as int);
        if i < cs@.len() {
            assert(t[0] == c);
        }
    }
    i
}

pub(crate) fn slice_of(cs: &Vec<char>, from: usize, to: usize) -> (r: Vec<char>)
    requires
        from <= to <= cs@.len(),
    ensures
        r@ == cs@.subrange(from as int, to as int),
{
    let mut out: Vec<char> = Vec::new();
    let mut i: usize = from;
    while i < to
        invariant
            from <= i <= to <= cs@.len(),
            out@ == cs@.subrange(from as int, i as int),
        decreases to - i,
    {
        out.push(cs[i]);
        i = i + 1;
        assert(out@ =~= cs@.subrange(from as int, i as int));
    }
    out
}

/// Whether `cs[..k]` is the text `key`.
fn prefix_is(cs: &Vec<char>, k: usize, key: &str) -> (r: bool)
    requires
        k <= cs@.len(),
    ensures
        r == (cs@.subrange(0, k as int) == key@),
{
    let kc = chars_of(key);
    if kc.len() != k {
        return false;
    }
    let mut i: usize = 0;
    while i < k
        invariant
            i <= k <= cs@.len(),
            kc@ == key@,
            kc@.len() == k,
            forall|j: int| 0 <= j < i ==> cs@[j] == kc@[j],
        decreases k - i,
    {
        if cs[i] != kc[i] {
            assert(cs@.subrange(0, k as int)[i as int] != key@[i as int]);
            return false;
        }
        i = i + 1;
    }
    assert(cs@.subrange(0, k as int) =~= key@);
    true
}

/// Decodes the value of a piece.
fn piece_value(pv: &Vec<char>) -> (r: (usize, Option<String>))
    ensures
        r.0 <= pv@.len(),
        pv@.subrange(0, r.0 as int) == key_of(pv@),
        opt_view(r.1) == pct_decoded(value_of(pv@)),
{
    let k = char_index(pv, 0, '=');
    assert(pv@.subrange(0, pv@.len() as int) =~= pv@);
    let value = if k < pv.len() {
        string_of(pv, k + 1, pv.len())
    } else {
        String::new()
    };
    assert(value@ =~= value_of(pv@));
    let decoded = percent_decode(value.as_str());
    (k, decoded)
}

/// Parses an invite link (see `parsed_invite`): a `hang://` link, an
/// `http(s)://` link, or a bare query string.
pub fn parse_invite_url(input: &str) -> (r: Option<InviteLink>)
    ensures
        match r {
            Some(link) => parsed_invite(input@) == Some(
                (link.room_id@, opt_view(link.passcode), opt_view(link.file_name)),
            ),
            None => parsed_invite(input@) is None,
        },
{
    let all = chars_of(input);
    let (a, b) = trim_bounds(&all);
    let t = slice_of(&all, a, b);
    if t.len() == 0 {
        return None;
    }
    let linked = starts_with_text(&t, "hang://") || starts_with_text(&t, "http://") || starts_with_text(
        &t,
        "https://",
    );
    let start = if linked {
        let i = char_index(&t, 0, '?');
        if i < t.len() {
            i + 1
        } else {
            t.len()
        }
    } else {
        0
    };
    let end = char_index(&t, start, '#');
    let qv = slice_of(&t, start, end);
    let ghost q = qv@;
    proof {
        assert(t@ == trimmed(input@));
        assert(t@.subrange(0, t@.len() as int) =~= t@);
        assert(t@.subrange(start as int, t@.len() as int) =~= query_part(t@));
        assert(q =~= query_of(t@));
        assert(qv@.subrange(0, qv@.len() as int) =~= qv@);
    }
    let mut room: Option<Option<String>> = None;
    let mut code: Option<Option<String>> = None;
    let mut file: Option<Option<String>> = None;
    let ghost mut done: Seq<Seq<char>> = Seq::empty();
    let mut pos: usize = 0;
    proof {
        reveal_strlit("room");
        reveal_strlit("code");
        reveal_strlit("file");
        assert("room"@ != "code"@ && "room"@ != "file"@ && "code"@ != "file"@) by {
            assert("room"@[0] != "code"@[0]);
            assert("room"@[0] != "file"@[0]);
            assert("code"@[0] != "file"@[0]);
        }
    }
    loop
        invariant_except_break
            pos <= qv@.len(),
            q == qv@,
            pieces(q) == done + pieces(qv@.subrange(pos as int, qv@.len() as int)),
        invariant
            q == query_of(t@),
            t@ == trimmed(input@),
            "room"@ != "code"@ && "room"@ != "file"@ && "code"@ != "file"@,
            match room {
                Some(v) => lookup(done, "room"@) == Some(opt_view(v)),
                None => lookup(done, "room"@) is None,
            },
            match code {
                Some(v) => lookup(done, "code"@) == Some(opt_view(v)),
                None => lookup(done, "code"@) is None,
            },
            match file {
                Some(v) => lookup(done, "file"@) == Some(opt_view(v)),
                None => lookup(done, "file"@) is None,
            },
        ensures
            pieces(q) == done,
        decreases qv@.len() - pos,
    {
        let j = char_index(&qv, pos, '&');
        let piece = slice_of(&qv, pos, j);
        let (k, decoded) = piece_value(&piece);
        let ghost rest = qv@.subrange(pos as int, qv@.len() as int);
        proof {
            assert(piece@ =~= rest.subrange(0, j - pos));
            if j < qv@.len() {
                assert(rest.subrange(j - pos + 1, rest.len() as int) =~= qv@.subrange(j + 1, qv@.len() as int));
            } else {
                assert(rest.subrange(0, j - pos) =~= rest);
            }
        }
        let ghost before = done;
        proof {
            done = done.push(piece@);
            assert(done.drop_last() =~= before);
            assert(done.last() == piece@);
        }
        if prefix_is(&piece, k, "room") {
            room = Some(decoded);
        } else if prefix_is(&piece, k, "code") {
            code = Some(decoded);
        } else if prefix_is(&piece, k, "file") {
            file = Some(decoded);
        }
        if j >= qv.len() {
            proof {
                assert(pieces(q) =~= done);
            }
            break;
        }
        proof {
            assert(pieces(q) =~= done + pieces(qv@.subrange(j + 1, qv@.len() as int)));
        }
        pos = j + 1;
    }
    let room_id = match room {
        Some(Some(r)) => r,
        _ => return None,
    };
    let rc = chars_of(room_id.as_str());
    if rc.len() == 0 {
        return None;
    }
    let passcode = match code {
        Some(Some(c)) => Some(c),
        _ => None,
    };
    let file_name = match file {
        Some(Some(f)) => Some(f),
        _ => None,
    };
    Some(InviteLink { room_id, passcode, file_name })
}

/// No character of `s` is `c`.
pub open spec fn free_of(s: Seq<char>, c: char) -> bool {
    forall|i: int| 0 <= i < s.len() ==> s[i] != c
}

/// `text` is absent, or present and not empty.
pub open spec fn absent_or_filled(text: Option<Seq<char>>) -> bool {
    text is None || text->0.len() > 0
}

/// `&name=value` for a value that is present and not empty; nothing else.
pub open spec fn param_tail(name: Seq<char>, value: Option<Seq<char>>) -> Seq<char> {
    match value {
        Some(v) => if v.len() > 0 {
            seq!['&'] + name + seq!['='] + pct_encoded(v)
        } else {
            Seq::empty()
        },
        None => Seq::empty(),
    }
}

/// The invite link for a room, passcode and file name.
pub open spec fn built_invite(room: Seq<char>, code: Option<Seq<char>>, file: Option<Seq<char>>) -> Seq<char> {
    "hang://join?room="@ + pct_encoded(room) + param_tail("code"@, code) + param_tail("file"@, file)
}

proof fn lemma_index_concat(a: Seq<char>, b: Seq<char>, c: char)
    requires
        free_of(a, c),
    ensures
        index_of_char(a + b, c) == a.len() + index_of_char(b, c),
    decreases a.len(),
{
    if a.len() > 0 {
        let ab = a + b;
        assert(ab[0] == a[0]);
        assert(ab.subrange(1, ab.len() as int) =~= a.subrange(1, a.len() as int) + b);
        lemma_index_concat(a.subrange(1, a.len() as int), b, c);
    } else {
        assert(a + b =~= b);
    }
}

proof fn lemma_index_none(a: Seq<char>, c: char)
    requires
        free_of(a, c),
    ensures
        index_of_char(a, c) == a.len(),
{
    lemma_index_concat(a, Seq::empty(), c);
    assert(a + Seq::<char>::empty() =~= a);
}

proof fn lemma_pieces_last(p: Seq<char>)
    requires
        free_of(p, '&'),
    ensures
        pieces(p) == seq![p],
{
    lemma_index_none(p, '&');
}

proof fn lemma_pieces_split(p: Seq<char>, rest: Seq<char>)
    requires
        free_of(p, '&'),
    ensures
        pieces(p + seq!['&'] + rest) == seq![p] + pieces(rest),
{
    let s = p + seq!['&'] + rest;
    assert(s =~= p + (seq!['&'] + rest));
    lemma_index_concat(p, seq!['&'] + rest, '&');
    assert(s.subrange(0, p.len() as int) =~= p);
    assert(s.subrange(p.len() as int + 1, s.len() as int) =~= rest);
}

/// A `name=value` piece whose name has no `=`.
proof fn lemma_piece(name: Seq<char>, value: Seq<char>)
    requires
        free_of(name, '='),
    ensures
        key_of(name + seq!['='] + value) == name,
        value_of(name + seq!['='] + value) == value,
{
    let p = name + seq!['='] + value;
    assert(p =~= name + (seq!['='] + value));
    lemma_index_concat(name, seq!['='] + value, '=');
    assert(p.subrange(0, name.len() as int) =~= name);
    assert(p.subrange(name.len() as int + 1, p.len() as int) =~= value);
}

proof fn lemma_safe_free(s: Seq<char>, c: char)
    requires
        forall|i: int| 0 <= i < s.len() ==> url_safe(#[trigger] s[i]),
        !url_safe(c),
    ensures
        free_of(s, c),
{
    assert forall|i: int| 0 <= i < s.len() implies s[i] != c by {
        assert(url_safe(s[i]));
    }
}

proof fn lemma_untrimmed(s: Seq<char>)
    requires
        s.len() > 0,
        !is_white(s[0]),
        !is_white(s.last()),
    ensures
        trimmed(s) == s,
{
    assert(trim_start(s) == s);
}

/// What `urlencoding` documents of the encoding of `s`: only URL-safe
/// characters, and decoding gives `s` back.
pub open spec fn encodes_back(s: Seq<char>) -> bool {
    &&& forall|i: int| 0 <= i < pct_encoded(s).len() ==> url_safe(#[trigger] pct_encoded(s)[i])
    &&& pct_decoded(pct_encoded(s)) == Some(s)
}

/// The characters an invite query is made of.
pub open spec fn tame(s: Seq<char>) -> bool {
    forall|i: int| 0 <= i < s.len() ==> url_safe(#[trigger] s[i]) || s[i] == '=' || s[i] == '&'
}

proof fn lemma_tame_concat(a: Seq<char>, b: Seq<char>)
    requires
        tame(a),
        tame(b),
    ensures
        tame(a + b),
{
    assert forall|i: int| 0 <= i < (a + b).len() implies url_safe(#[trigger] (a + b)[i]) || (a
        + b)[i] == '=' || (a + b)[i] == '&' by {
        if i < a.len() {
            assert((a + b)[i] == a[i]);
        } else {
            assert((a + b)[i] == b[i - a.len()]);
        }
    }
}

proof fn lemma_tail_tame(name: Seq<char>, v: Option<Seq<char>>)
    requires
        name == "code"@ || name == "file"@,
        v is Some ==> encodes_back(v->0),
    ensures
        tame(param_tail(name, v)),
{
    reveal_strlit("code");
    reveal_strlit("file");
    if v is Some && v->0.len() > 0 {
        let e = pct_encoded(v->0);
        assert(tame(seq!['&'] + name + seq!['=']));
        assert(tame(e));
        lemma_tame_concat(seq!['&'] + name + seq!['='], e);
    } else {
        assert(param_tail(name, v) =~= Seq::<char>::empty());
    }
}

/// The query of the link built of `room`, `code` and `file`.
pub open spec fn invite_query(room: Seq<char>, code: Option<Seq<char>>, file: Option<Seq<char>>) -> Seq<char> {
    "room="@ + pct_encoded(room) + param_tail("code"@, code) + param_tail("file"@, file)
}

proof fn lemma_link_query(room: Seq<char>, code: Option<Seq<char>>, file: Option<Seq<char>>)
    requires
        encodes_back(room),
        code is Some ==> encodes_back(code->0),
        file is Some ==> encodes_back(file->0),
    ensures
        trimmed(built_invite(room, code, file)) == built_invite(room, code, file),
        built_invite(room, code, file).len() > 0,
        query_of(built_invite(room, code, file)) == invite_query(room, code, file),
{
    reveal_strlit("hang://join?room=");
    reveal_strlit("hang://join?");
    reveal_strlit("hang://join");
    reveal_strlit("hang://");
    reveal_strlit("room=");
    let er = pct_encoded(room);
    let tc = param_tail("code"@, code);
    let tf = param_tail("file"@, file);
    let b = built_invite(room, code, file);
    let head = "hang://join?"@;
    let q = invite_query(room, code, file);
    assert("hang://join?room="@ =~= head + "room="@);
    assert(b =~= head + q);
    assert(tame("room="@));
    assert(tame(er));
    lemma_tail_tame("code"@, code);
    lemma_tail_tame("file"@, file);
    lemma_tame_concat("room="@, er);
    lemma_tame_concat("room="@ + er, tc);
    lemma_tame_concat("room="@ + er + tc, tf);
    assert(b.last() == q[q.len() - 1]);
    assert(!is_white(b.last()));
    lemma_untrimmed(b);
    assert(begins_with(b, "hang://"@)) by {
        assert(b.subrange(0, 7) =~= "hang://"@);
    }
    assert(free_of("hang://join"@, '?'));
    assert(b =~= "hang://join"@ + (seq!['?'] + q));
    lemma_index_concat("hang://join"@, seq!['?'] + q, '?');
    assert(b.subrange(12, b.len() as int) =~= q);
    assert(query_part(b) == q);
    assert(free_of(q, '#')) by {
        assert forall|i: int| 0 <= i < q.len() implies q[i] != '#' by {
            assert(url_safe(q[i]) || q[i] == '=' || q[i] == '&');
        }
    }
    lemma_index_none(q, '#');
    assert(q.subrange(0, q.len() as int) =~= q);
}

proof fn lemma_query_fields(room: Seq<char>, code: Option<Seq<char>>, file: Option<Seq<char>>)
    requires
        absent_or_filled(code),
        absent_or_filled(file),
        encodes_back(room),
        code is Some ==> encodes_back(code->0),
        file is Some ==> encodes_back(file->0),
    ensures
        found(lookup(pieces(invite_query(room, code, file)), "room"@)) == Some(room),
        found(lookup(pieces(invite_query(room, code, file)), "code"@)) == code,
        found(lookup(pieces(invite_query(room, code, file)), "file"@)) == file,
{
    reveal_with_fuel(lookup, 4);
    reveal_strlit("room=");
    reveal_strlit("room");
    reveal_strlit("code");
    reveal_strlit("file");
    let er = pct_encoded(room);
    let tc = param_tail("code"@, code);
    let tf = param_tail("file"@, file);
    let q = invite_query(room, code, file);
    let pr = "room="@ + er;
    lemma_safe_free(er, '&');
    lemma_safe_free(er, '=');
    assert(free_of(pr, '&'));
    assert(free_of("room"@, '='));
    assert(pr =~= "room"@ + seq!['='] + er);
    lemma_piece("room"@, er);
    assert(free_of("code"@, '=') && free_of("file"@, '='));
    assert("room"@ != "code"@ && "room"@ != "file"@ && "code"@ != "file"@) by {
        assert("room"@[0] != "code"@[0]);
        assert("room"@[0] != "file"@[0]);
        assert("code"@[0] != "file"@[0]);
    }
    let pc = "code"@ + seq!['='] + pct_encoded(code->0);
    let pf = "file"@ + seq!['='] + pct_encoded(file->0);
    if code is Some {
        lemma_safe_free(pct_encoded(code->0), '&');
        lemma_safe_free(pct_encoded(code->0), '=');
        lemma_piece("code"@, pct_encoded(code->0));
        assert(tc =~= seq!['&'] + pc);
        assert(free_of(pc, '&'));
    } else {
        assert(tc =~= Seq::<char>::empty());
    }
    if file is Some {
        lemma_safe_free(pct_encoded(file->0), '&');
        lemma_safe_free(pct_encoded(file->0), '=');
        lemma_piece("file"@, pct_encoded(file->0));
        assert(tf =~= seq!['&'] + pf);
        assert(free_of(pf, '&'));
    } else {
        assert(tf =~= Seq::<char>::empty());
    }
    let pcs = pieces(q);
    if code is Some && file is Some {
        assert(q =~= pr + seq!['&'] + (pc + seq!['&'] + pf));
        lemma_pieces_split(pr, pc + seq!['&'] + pf);
        lemma_pieces_split(pc, pf);
        lemma_pieces_last(pf);
        assert(pcs =~= seq![pr, pc, pf]);
        assert(pcs.drop_last() =~= seq![pr, pc]);
        assert(pcs.drop_last().drop_last() =~= seq![pr]);
        assert(pcs.drop_last().drop_last().drop_last() =~= Seq::<Seq<char>>::empty());
    } else if code is Some {
        assert(q =~= pr + seq!['&'] + pc);
        lemma_pieces_split(pr, pc);
        lemma_pieces_last(pc);
        assert(pcs =~= seq![pr, pc]);
        assert(pcs.drop_last() =~= seq![pr]);
        assert(pcs.drop_last().drop_last() =~= Seq::<Seq<char>>::empty());
    } else if file is Some {
        assert(q =~= pr + seq!['&'] + pf);
        lemma_pieces_split(pr, pf);
        lemma_pieces_last(pf);
        assert(pcs =~= seq![pr, pf]);
        assert(pcs.drop_last() =~= seq![pr]);
        assert(pcs.drop_last().drop_last() =~= Seq::<Seq<char>>::empty());
    } else {
        assert(q =~= pr);
        lemma_pieces_last(pr);
        assert(pcs =~= seq![pr]);
        assert(pcs.drop_last() =~= Seq::<Seq<char>>::empty());
    }
}

/// The link built of `room`, `code` and `file` parses back to them.
proof fn lemma_round_trip(room: Seq<char>, code: Option<Seq<char>>, file: Option<Seq<char>>)
    requires
        room.len() > 0,
        absent_or_filled(code),
        absent_or_filled(file),
        encodes_back(room),
        code is Some ==> encodes_back(code->0),
        file is Some ==> encodes_back(file->0),
    ensures
        parsed_invite(built_invite(room, code, file)) == Some((room, code, file)),
{
    lemma_link_query(room, code, file);
    lemma_query_fields(room, code, file);
}

/// The invite link for `room_id`, with the passcode and the file name when
/// they are present and not empty. Its text parses back to exactly these
/// three whenever the room is not empty and each of the other two is absent
/// or not empty.
pub fn build_invite_url(room_id: &str, passcode: Option<&str>, file_name: Option<&str>) -> (r: String)
    ensures
        ({
            let code = match passcode {
                Some(p) => Some(p@),
                None => None,
            };
            let file = match file_name {
                Some(f) => Some(f@),
                None => None,
            };
            &&& r@ == built_invite(room_id@, code, file)
            &&& room_id@.len() > 0 && absent_or_filled(code) && absent_or_filled(file) ==> parsed_invite(r@)
                == Some((room_id@, code, file))
        }),
{
    let ghost code = match passcode {
        Some(p) => Some(p@),
        None => None,
    };
    let ghost file = match file_name {
        Some(f) => Some(f@),
        None => None,
    };
    let mut url = String::from_str("hang://join?room=");
    let er = percent_encode(room_id);
    push_str(&mut url, er.as_str());
    match passcode {
        Some(p) => {
            let ec = percent_encode(p);
            if p.unicode_len() > 0 {
                push_str(&mut url, "&code=");
                push_str(&mut url, ec.as_str());
            }
        },
        None => {},
    }
    match file_name {
        Some(f) => {
            let ef = percent_encode(f);
            if f.unicode_len() > 0 {
                push_str(&mut url, "&file=");
                push_str(&mut url, ef.as_str());
            }
        },
        None => {},
    }
    proof {
        reveal_strlit("&code=");
        reveal_strlit("&file=");
        reveal_strlit("code");
        reveal_strlit("file");
        assert("&code="@ =~= seq!['&'] + "code"@ + seq!['=']);
        assert("&file="@ =~= seq!['&'] + "file"@ + seq!['=']);
        assert(url@ =~= built_invite(room_id@, code, file));
        if room_id@.len() > 0 && absent_or_filled(code) && absent_or_filled(file) {
            lemma_round_trip(room_id@, code, file);
        }
    }
    url
}

} // verus!
