//! Recognising YouTube links and the video id in them, and the quality
//! choices offered for them.
use vstd::prelude::*;
use crate::invite::{index_of_char, pieces};
use crate::text::{chars_of, string_of};

verus! {

/// Video quality choices.
#[derive(PartialEq, Eq, Structural, Clone, Copy, Debug)]
pub enum VideoQuality {
    Best,
    Quality4K,
    Quality1440p,
    Quality1080p,
    Quality720p,
    Quality480p,
    Quality360p,
    AudioOnly,
}

impl VideoQuality {
    pub open spec fn label(self) -> Seq<char> {
        match self {
            VideoQuality::Best => "Best Available"@,
            VideoQuality::Quality4K => "4K (2160p)"@,
            VideoQuality::Quality1440p => "1440p (2K)"@,
            VideoQuality::Quality1080p => "1080p (Full HD)"@,
            VideoQuality::Quality720p => "720p (HD)"@,
            VideoQuality::Quality480p => "480p"@,
            VideoQuality::Quality360p => "360p"@,
            VideoQuality::AudioOnly => "Audio Only"@,
        }
    }

    pub open spec fn format_selector(self) -> Seq<char> {
        match self {
            VideoQuality::Best => "b"@,
            VideoQuality::Quality4K => "b[height<=2160]"@,
            VideoQuality::Quality1440p => "b[height<=1440]"@,
            VideoQuality::Quality1080p => "b[height<=1080]"@,
            VideoQuality::Quality720p => "b[height<=720]"@,
            VideoQuality::Quality480p => "b[height<=480]"@,
            VideoQuality::Quality360p => "b[height<=360]"@,
            VideoQuality::AudioOnly => "ba/b"@,
        }
    }

    /// The label shown for this quality.
    pub fn as_str(&self) -> (r: &'static str)
        ensures
            r@ == self.label(),
    {
        match self {
            VideoQuality::Best => "Best Available",
            VideoQuality::Quality4K => "4K (2160p)",
            VideoQuality::Quality1440p => "1440p (2K)",
            VideoQuality::Quality1080p => "1080p (Full HD)",
            VideoQuality::Quality720p => "720p (HD)",
            VideoQuality::Quality480p => "480p",
            VideoQuality::Quality360p => "360p",
            VideoQuality::AudioOnly => "Audio Only",
        }
    }

    /// All qualities, best first.
    pub fn all() -> (r: Vec<VideoQuality>)
        ensures
            r@ == seq![
                VideoQuality::Best,
                VideoQuality::Quality4K,
                VideoQuality::Quality1440p,
                VideoQuality::Quality1080p,
                VideoQuality::Quality720p,
                VideoQuality::Quality480p,
                VideoQuality::Quality360p,
                VideoQuality::AudioOnly,
            ],
    {
        let mut v: Vec<VideoQuality> = Vec::new();
        v.push(VideoQuality::Best);
        v.push(VideoQuality::Quality4K);
        v.push(VideoQuality::Quality1440p);
        v.push(VideoQuality::Quality1080p);
        v.push(VideoQuality::Quality720p);
        v.push(VideoQuality::Quality480p);
        v.push(VideoQuality::Quality360p);
        v.push(VideoQuality::AudioOnly);
        assert(v@ =~= seq![
            VideoQuality::Best,
            VideoQuality::Quality4K,
            VideoQuality::Quality1440p,
            VideoQuality::Quality1080p,
            VideoQuality::Quality720p,
            VideoQuality::Quality480p,
            VideoQuality::Quality360p,
            VideoQuality::AudioOnly,
        ]);
        v
    }

    /// The stream selector asked of the resolver: one stream with both video
    /// and audio, no higher than the chosen height.
    pub fn to_format_string(&self) -> (r: &'static str)
        ensures
            r@ == self.format_selector(),
    {
        match self {
            VideoQuality::Best => "b",
            VideoQuality::Quality4K => "b[height<=2160]",
            VideoQuality::Quality1440p => "b[height<=1440]",
            VideoQuality::Quality1080p => "b[height<=1080]",
            VideoQuality::Quality720p => "b[height<=720]",
            VideoQuality::Quality480p => "b[height<=480]",
            VideoQuality::Quality360p => "b[height<=360]",
            VideoQuality::AudioOnly => "ba/b",
        }
    }

    pub fn default() -> (r: VideoQuality)
        ensures
            r == VideoQuality::Best,
    {
        VideoQuality::Best
    }
}

/// A video the resolver found.
#[derive(Clone, Debug)]
pub struct YouTubeVideo {
    pub title: String,
    pub stream_url: String,
    pub quality: VideoQuality,
}

/// What a background resolution reports.
#[derive(Clone, Debug)]
pub enum YouTubeLoadResult {
    Success(YouTubeVideo),
    Error(String),
    /// The resolver tool is being fetched first.
    Downloading,
}

/// Index of the first occurrence of `p` in `s`, or the length of `s`.
pub open spec fn index_of_text(s: Seq<char>, p: Seq<char>) -> int
    decreases s.len(),
{
    if s.len() < p.len() || s.len() == 0 {
        s.len() as int
    } else if s.subrange(0, p.len() as int) == p {
        0
    } else {
        1 + index_of_text(s.subrange(1, s.len() as int), p)
    }
}

/// `p` (not empty) occurs in `s`.
pub open spec fn has_text(s: Seq<char>, p: Seq<char>) -> bool {
    index_of_text(s, p) < s.len()
}

proof fn lemma_text_step(s: Seq<char>, i: int, p: Seq<char>)
    requires
        0 <= i < s.len(),
        i + p.len() <= s.len(),
        s.subrange(i, i + p.len()) != p,
    ensures
        index_of_text(s.subrange(i, s.len() as int), p) == 1 + index_of_text(
            s.subrange(i + 1, s.len() as int),
            p,
        ),
{
    let t = s.subrange(i, s.len() as int);
    assert(t.subrange(0, p.len() as int) =~= s.subrange(i, i + p.len()));
    assert(t.subrange(1, t.len() as int) =~= s.subrange(i + 1, s.len() as int));
}

proof fn lemma_text_bounded(s: Seq<char>, p: Seq<char>)
    ensures
        0 <= index_of_text(s, p) <= s.len(),
        index_of_text(s, p) < s.len() ==> index_of_text(s, p) + p.len() <= s.len(),
    decreases s.len(),
{
    if s.len() >= p.len() && s.len() > 0 && s.subrange(0, p.len() as int) != p {
        lemma_text_bounded(s.subrange(1, s.len() as int), p);
    }
}

/// Index of the first occurrence of `p` in `cs[from..]` (counted in
/// `cs`), or the length of `cs`.
fn text_index(cs: &Vec<char>, from: usize, p: &Vec<char>) -> (r: usize)
    requires
        from <= cs@.len(),
    ensures
        r == from + index_of_text(cs@.subrange(from as int, cs@.len() as int), p@),
        from <= r <= cs@.len(),
{
    let n = cs.len();
    let m = p.len();
    let mut i: usize = from;
    loop
        invariant
            from <= i <= n,
            n == cs@.len(),
            m == p@.len(),
            index_of_text(cs@.subrange(from as int, n as int), p@) == (i - from) + index_of_text(
                cs@.subrange(i as int, n as int),
                p@,
            ),
        decreases n - i,
    {
        let ghost t = cs@.subrange(i as int, n as int);
        if n - i < m || i == n {
            assert(t.len() < p@.len() || t.len() == 0);
            return n;
        }
        let mut k: usize = 0;
        let mut same = true;
        while k < m
            invariant
                i + m <= n,
                n == cs@.len(),
                m == p@.len(),
                k <= m,
                same == (forall|j: int| 0 <= j < k ==> cs@[i + j] == p@[j]),
            decreases m - k,
        {
            if cs[i + k] != p[k] {
                same = false;
            }
            k = k + 1;
        }
        proof {
            if same {
                assert(cs@.subrange(i as int, i + m) =~= p@);
                assert(t.subrange(0, m as int) =~= p@);
            } else {
                let j = choose|j: int| 0 <= j < m && cs@[i + j] != p@[j];
                assert(cs@.subrange(i as int, i + m)[j] != p@[j]);
                lemma_text_step(cs@, i as int, p@);
            }
        }
        if same {
            return i;
        }
        i = i + 1;
    }
}

fn holds_text(cs: &Vec<char>, p: &str) -> (r: bool)
    ensures
        r == has_text(cs@, p@),
{
    let pc = chars_of(p);
    let i = text_index(cs, 0, &pc);
    assert(cs@.subrange(0, cs@.len() as int) =~= cs@);
    i < cs.len()
}

/// Whether `url` is a YouTube watch, short, live or `youtu.be` link.
pub open spec fn youtube_link(url: Seq<char>) -> bool {
    has_text(url, "youtube.com/watch"@) || has_text(url, "youtu.be/"@) || has_text(
        url,
        "youtube.com/shorts/"@,
    ) || has_text(url, "youtube.com/live/"@)
}

/// Whether `url` is a YouTube link.
pub fn is_youtube_url(url: &str) -> (r: bool)
    ensures
        r == youtube_link(url@),
{
    let cs = chars_of(url);
    holds_text(&cs, "youtube.com/watch") || holds_text(&cs, "youtu.be/") || holds_text(
        &cs,
        "youtube.com/shorts/",
    ) || holds_text(&cs, "youtube.com/live/")
}

/// Index of the first `?`, `&` (and, when `slash`, `/`) in `s`, or its
/// length.
pub open spec fn index_of_stop(s: Seq<char>, slash: bool) -> int
    decreases s.len(),
{
    if s.len() == 0 {
        0
    } else if s[0] == '?' || s[0] == '&' || (slash && s[0] == '/') {
        0
    } else {
        1 + index_of_stop(s.subrange(1, s.len() as int), slash)
    }
}

/// `s` up to its first stop character.
pub open spec fn cut_at_stop(s: Seq<char>, slash: bool) -> Seq<char> {
    s.subrange(0, index_of_stop(s, slash))
}

/// What follows the last `/` of `s` (all of `s` when it has none).
pub open spec fn after_last_slash(s: Seq<char>) -> Seq<char>
    decreases s.len(),
{
    if s.len() == 0 {
        s
    } else if s.last() == '/' {
        Seq::empty()
    } else {
        after_last_slash(s.drop_last()).push(s.last())
    }
}

/// The value of the first `v=` parameter among `pcs`.
pub open spec fn first_v(pcs: Seq<Seq<char>>) -> Option<Seq<char>>
    decreases pcs.len(),
{
    if pcs.len() == 0 {
        None
    } else if pcs[0].len() >= 2 && pcs[0][0] == 'v' && pcs[0][1] == '=' {
        Some(pcs[0].subrange(2, pcs[0].len() as int))
    } else {
        first_v(pcs.subrange(1, pcs.len() as int))
    }
}

/// The `v=` parameter of the part of `s` between its first and second `?`.
pub open spec fn watch_id(s: Seq<char>) -> Option<Seq<char>> {
    let i = index_of_char(s, '?');
    if i < s.len() {
        let q = s.subrange(i + 1, s.len() as int);
        first_v(pieces(q.subrange(0, index_of_char(q, '?'))))
    } else {
        None
    }
}

/// The segment after the first `youtu.be/`, up to the next one.
pub open spec fn short_link_segment(s: Seq<char>) -> Seq<char> {
    let p = "youtu.be/"@;
    let after = s.subrange(index_of_text(s, p) + p.len(), s.len() as int);
    after.subrange(0, index_of_text(after, p))
}

/// The video id of a YouTube link: after `youtu.be/`; else the `v=`
/// parameter of a watch link; else the last path segment of a `/shorts/`
/// or `/live/` link; each cut at a query separator.
pub open spec fn video_id(url: Seq<char>) -> Option<Seq<char>> {
    if has_text(url, "youtu.be/"@) {
        Some(cut_at_stop(short_link_segment(url), true))
    } else if has_text(url, "youtube.com/watch"@) && watch_id(url) is Some {
        watch_id(url)
    } else if has_text(url, "/shorts/"@) || has_text(url, "/live/"@) {
        Some(cut_at_stop(after_last_slash(url), false))
    } else {
        None
    }
}

proof fn lemma_stop_step(s: Seq<char>, i: int, slash: bool)
    requires
        0 <= i < s.len(),
        !(s[i] == '?' || s[i] == '&' || (slash && s[i] == '/')),
    ensures
        index_of_stop(s.subrange(i, s.len() as int), slash) == 1 + index_of_stop(
            s.subrange(i + 1, s.len() as int),
            slash,
        ),
{
    let t = s.subrange(i, s.len() as int);
    assert(t.subrange(1, t.len() as int) =~= s.subrange(i + 1, s.len() as int));
}

/// `cs` up to its first stop character.
fn cut_stop(cs: &Vec<char>, slash: bool) -> (r: String)
    ensures
        r@ == cut_at_stop(cs@, slash),
{
    let mut i: usize = 0;
    assert(cs@.subrange(0, cs@.len() as int) =~= cs@);
    while i < cs.len() && !(cs[i] == '?' || cs[i] == '&' || (slash && cs[i] == '/'))
        invariant
            i <= cs@.len(),
            index_of_stop(cs@, slash) == i + index_of_stop(cs@.subrange(i as int, cs@.len() as int), slash),
        decreases cs@.len() - i,
    {
        proof {
            lemma_stop_step(cs@, i as int, slash);
        }
        i = i + 1;
    }
    string_of(cs, 0, i)
}

proof fn lemma_after_last_slash(s: Seq<char>, k: int)
    requires
        0 <= k <= s.len(),
        forall|j: int| k <= j < s.len() ==> s[j] != '/',
        k == 0 || s[k - 1] == '/',
    ensures
        after_last_slash(s) == s.subrange(k, s.len() as int),
    decreases s.len(),
{
    if s.len() > k {
        lemma_after_last_slash(s.drop_last(), k);
        assert(s.drop_last().subrange(k, s.len() - 1).push(s.last()) =~= s.subrange(k, s.len() as int));
    } else if k > 0 {
        assert(s.subrange(k, s.len() as int) =~= Seq::<char>::empty());
    } else {
        assert(s.len() == 0);
    }
}

/// The video id of a YouTube link (see `video_id`).
pub fn extract_video_id(url: &str) -> (r: Option<String>)
    ensures
        match r {
            Some(id) => video_id(url@) == Some(id@),
            None => video_id(url@) is None,
        },
{
    let cs = chars_of(url);
    let n = cs.len();
    if holds_text(&cs, "youtu.be/") {
        let p = chars_of("youtu.be/");
        let i = text_index(&cs, 0, &p);
        proof {
            assert(cs@.subrange(0, n as int) =~= cs@);
            lemma_text_bounded(cs@, p@);
        }
        let start = i + p.len();
        let j = text_index(&cs, start, &p);
        let seg = crate::invite::slice_of(&cs, start, j);
        proof {
            let after = cs@.subrange(start as int, n as int);
            lemma_text_bounded(after, p@);
            assert(seg@ =~= after.subrange(0, index_of_text(after, p@)));
        }
        return Some(cut_stop(&seg, true));
    }
    if holds_text(&cs, "youtube.com/watch") {
        let q = char_index_after(&cs);
        match q {
            Some(start) => {
                let end = crate::invite::char_index(&cs, start, '?');
                let query = crate::invite::slice_of(&cs, start, end);
                let found = first_v_param(&query);
                proof {
                    let i = index_of_char(cs@, '?');
                    let qq = cs@.subrange(i + 1, n as int);
                    assert(query@ =~= qq.subrange(0, index_of_char(qq, '?')));
                }
                if found.is_some() {
                    return found;
                }
            },
            None => {},
        }
    }
    if holds_text(&cs, "/shorts/") || holds_text(&cs, "/live/") {
        let mut k: usize = n;
        while k > 0 && cs[k - 1] != '/'
            invariant
                k <= n == cs@.len(),
                forall|j: int| k <= j < n ==> cs@[j] != '/',
            decreases k,
        {
            k = k - 1;
        }
        let seg = crate::invite::slice_of(&cs, k, n);
        proof {
            lemma_after_last_slash(cs@, k as int);
        }
        return Some(cut_stop(&seg, false));
    }
    None
}

/// The index just after the first `?` of `cs`, if it has one.
fn char_index_after(cs: &Vec<char>) -> (r: Option<usize>)
    ensures
        match r {
            Some(s) => index_of_char(cs@, '?') < cs@.len() && s == index_of_char(cs@, '?') + 1,
            None => index_of_char(cs@, '?') >= cs@.len(),
        },
{
    let i = crate::invite::char_index(cs, 0, '?');
    assert(cs@.subrange(0, cs@.len() as int) =~= cs@);
    if i < cs.len() {
        Some(i + 1)
    } else {
        None
    }
}

proof fn lemma_first_v_step(pcs: Seq<Seq<char>>, done: int)
    requires
        0 <= done < pcs.len(),
        !(pcs[done].len() >= 2 && pcs[done][0] == 'v' && pcs[done][1] == '='),
    ensures
        first_v(pcs.subrange(done, pcs.len() as int)) == first_v(pcs.subrange(done + 1, pcs.len() as int)),
{
    let t = pcs.subrange(done, pcs.len() as int);
    assert(t.subrange(1, t.len() as int) =~= pcs.subrange(done + 1, pcs.len() as int));
}

/// The value of the first `v=` parameter of `query`.
fn first_v_param(query: &Vec<char>) -> (r: Option<String>)
    ensures
        match r {
            Some(v) => first_v(pieces(query@)) == Some(v@),
            None => first_v(pieces(query@)) is None,
        },
{
    let n = query.len();
    let mut pos: usize = 0;
    let ghost all = pieces(query@);
    let ghost mut done: Seq<Seq<char>> = Seq::empty();
    assert(query@.subrange(0, n as int) =~= query@);
    loop
        invariant_except_break
            pos <= n == query@.len(),
            all == done + pieces(query@.subrange(pos as int, n as int)),
            first_v(all) == first_v(pieces(query@.subrange(pos as int, n as int))),
        invariant
            all == pieces(query@),
        ensures
            first_v(all) is None,
        decreases n - pos,
    {
        let j = crate::invite::char_index(query, pos, '&');
        let piece = crate::invite::slice_of(query, pos, j);
        let ghost rest = query@.subrange(pos as int, n as int);
        proof {
            assert(piece@ =~= rest.subrange(0, j - pos));
            if j < n {
                assert(rest.subrange(j - pos + 1, rest.len() as int) =~= query@.subrange(j + 1, n as int));
            } else {
                assert(rest.subrange(0, j - pos) =~= rest);
            }
            assert(pieces(rest)[0] == piece@);
        }
        if piece.len() >= 2 && piece[0] == 'v' && piece[1] == '=' {
            return Some(string_of(&piece, 2, piece.len()));
        }
        proof {
            let pr = pieces(rest);
            assert(pr.subrange(1, pr.len() as int) =~= (if j < n {
                pieces(query@.subrange(j + 1, n as int))
            } else {
                Seq::empty()
            }));
            lemma_first_v_step(pr, 0);
            assert(pr.subrange(0, pr.len() as int) =~= pr);
        }
        if j >= n {
            break;
        }
        proof {
            done = done.push(piece@);
        }
        pos = j + 1;
    }
    None
}

} // verus!
