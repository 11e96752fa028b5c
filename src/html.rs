//! Escaping text for the invite landing page.
use vstd::prelude::*;
use crate::invite::{build_invite_url, built_invite, opt_view};
use crate::names::{normalize_passcode, normalized_passcode};
use crate::text::{chars_of, push_char, push_str};

verus! {

/// The escaped form of one character.
pub open spec fn escaped_char(c: char) -> Seq<char> {
    if c == '&' {
        "&amp;"@
    } else if c == '<' {
        "&lt;"@
    } else if c == '>' {
        "&gt;"@
    } else if c == '"' {
        "&quot;"@
    } else if c == '\'' {
        "&#39;"@
    } else {
        seq![c]
    }
}

/// `s` with `&`, `<`, `>`, `"` and `'` replaced by entities.
pub open spec fn escaped(s: Seq<char>) -> Seq<char>
    decreases s.len(),
{
    if s.len() == 0 {
        Seq::empty()
    } else {
        escaped(s.drop_last()) + escaped_char(s.last())
    }
}

/// Escapes `input` for use as HTML text.
pub fn html_escape(input: &str) -> (r: String)
    ensures
        r@ == escaped(input@),
{
    let cs = chars_of(input);
    let mut out = String::new();
    let mut i: usize = 0;
    while i < cs.len()
        invariant
            i <= cs@.len(),
            out@ == escaped(cs@.subrange(0, i as int)),
        decreases cs@.len() - i,
    {
        let c = cs[i];
        proof {
            assert(cs@.subrange(0, i + 1).drop_last() =~= cs@.subrange(0, i as int));
            reveal_strlit("&amp;");
            reveal_strlit("&lt;");
            reveal_strlit("&gt;");
            reveal_strlit("&quot;");
            reveal_strlit("&#39;");
        }
        if c == '&' {
            push_str(&mut out, "&amp;");
        } else if c == '<' {
            push_str(&mut out, "&lt;");
        } else if c == '>' {
            push_str(&mut out, "&gt;");
        } else if c == '"' {
            push_str(&mut out, "&quot;");
        } else if c == '\'' {
            push_str(&mut out, "&#39;");
        } else {
            push_char(&mut out, c);
        }
        i = i + 1;
    }
    assert(cs@.subrange(0, cs@.len() as int) =~= cs@);
    out
}

/// Escapes `input` for use inside a quoted HTML attribute; the same
/// entities as for text.
pub fn html_escape_attr(input: &str) -> (r: String)
    ensures
        r@ == escaped(input@),
{
    html_escape(input)
}

/// `text` as a JSON string literal, as `serde_json::to_string` writes it.
pub uninterp spec fn json_quoted(text: Seq<char>) -> Seq<char>;

/// Relies on `serde_json::to_string` for a string: the quoted, escaped JSON
/// literal of the text (it cannot fail for a string; an empty text stands
/// for a failure).
#[verifier::external_body]
fn json_string(text: &str) -> (r: String)
    ensures
        r@ == json_quoted(text@),
{
    match serde_json::to_string(text) {
        Ok(quoted) => quoted,
        Err(_) => String::new(),
    }
}

pub open spec fn page_heading(room: Option<Seq<char>>) -> Seq<char> {
    match room {
        Some(r) => "Join Hang Room "@ + escaped(r),
        None => "Hang Invite"@,
    }
}

pub open spec fn passcode_block(code: Option<Seq<char>>) -> Seq<char> {
    match code {
        Some(c) => "<div class=\"info\">Passcode: <code>"@ + escaped(c) + "</code></div>"@,
        None => "<div class=\"info muted\">No passcode included in this invite.</div>"@,
    }
}

pub open spec fn file_block(file: Option<Seq<char>>) -> Seq<char> {
    match file {
        Some(f) => "<div class=\"info\">Expected file: <code>"@ + escaped(f) + "</code></div>"@,
        None => "<div class=\"info muted\">Host did not specify a file name.</div>"@,
    }
}

pub open spec fn launch_block(room: Option<Seq<char>>, code: Option<Seq<char>>, file: Option<Seq<char>>) -> Seq<char> {
    match room {
        Some(r) => "<a class=\"primary\" href=\""@ + escaped(built_invite(r, code, file))
            + "\">Open Hang Client</a>"@,
        None => "<p class=\"muted\">Missing room code. Ask the host for a valid invite link.</p>"@,
    }
}

pub open spec fn launch_script(room: Option<Seq<char>>, code: Option<Seq<char>>, file: Option<Seq<char>>) -> Seq<char> {
    match room {
        Some(r) => "<script>setTimeout(function(){window.location.href="@ + json_quoted(
            built_invite(r, code, file),
        ) + ";}, 450);</script>"@,
        None => Seq::empty(),
    }
}

/// The invite landing page for the given room, passcode and file name,
/// each already trimmed and absent when empty.
pub open spec fn join_page(room: Option<Seq<char>>, code: Option<Seq<char>>, file: Option<Seq<char>>) -> Seq<char> {
    "<!DOCTYPE html><html lang=\"en\"><head><meta charset=\"utf-8\" /><title>Hang Invite</title>"@
        + launch_script(room, code, file) + "</head><body><div class=\"card\"><h1>"@ + page_heading(room)
        + "</h1>"@ + file_block(file) + passcode_block(code)
        + "<div class=\"info muted\">1. Ensure the Hang desktop client is installed.</div><div class=\"info muted\">2. Load the same video file locally before joining.</div><div class=\"actions\">"@
        + launch_block(room, code, file)
        + "<a class=\"secondary\" href=\"/downloads/hang-client.exe\">Download Hang Client</a></div></div></body></html>"@
}

fn present(value: Option<String>) -> (r: Option<String>)
    ensures
        opt_view(r) == match value {
            Some(v) => normalized_passcode(v@),
            None => None,
        },
{
    match value {
        Some(v) => normalize_passcode(v.as_str()),
        None => None,
    }
}

fn as_text(value: &Option<String>) -> (r: Option<&str>)
    ensures
        match r {
            Some(t) => value is Some && t@ == value->0@,
            None => value is None,
        },
{
    match value {
        Some(v) => Some(v.as_str()),
        None => None,
    }
}

fn link_of(room: &Option<String>, code: &Option<String>, file: &Option<String>) -> (r: Option<String>)
    ensures
        match r {
            Some(l) => room is Some && l@ == built_invite(room->0@, opt_view(*code), opt_view(*file)),
            None => room is None,
        },
{
    match room {
        Some(r) => Some(build_invite_url(r.as_str(), as_text(code), as_text(file))),
        None => None,
    }
}

fn script_text(room: &Option<String>, code: &Option<String>, file: &Option<String>) -> (r: String)
    ensures
        r@ == launch_script(opt_view(*room), opt_view(*code), opt_view(*file)),
{
    match link_of(room, code, file) {
        Some(url) => {
            let mut t = String::from_str("<script>setTimeout(function(){window.location.href=");
            push_str(&mut t, json_string(url.as_str()).as_str());
            push_str(&mut t, ";}, 450);</script>");
            t
        },
        None => String::new(),
    }
}

fn heading_text(room: &Option<String>) -> (r: String)
    ensures
        r@ == page_heading(opt_view(*room)),
{
    match room {
        Some(r) => {
            let mut t = String::from_str("Join Hang Room ");
            push_str(&mut t, html_escape(r.as_str()).as_str());
            t
        },
        None => String::from_str("Hang Invite"),
    }
}

fn file_text(file: &Option<String>) -> (r: String)
    ensures
        r@ == file_block(opt_view(*file)),
{
    match file {
        Some(f) => {
            let mut t = String::from_str("<div class=\"info\">Expected file: <code>");
            push_str(&mut t, html_escape(f.as_str()).as_str());
            push_str(&mut t, "</code></div>");
            t
        },
        None => String::from_str("<div class=\"info muted\">Host did not specify a file name.</div>"),
    }
}

fn passcode_text(code: &Option<String>) -> (r: String)
    ensures
        r@ == passcode_block(opt_view(*code)),
{
    match code {
        Some(c) => {
            let mut t = String::from_str("<div class=\"info\">Passcode: <code>");
            push_str(&mut t, html_escape(c.as_str()).as_str());
            push_str(&mut t, "</code></div>");
            t
        },
        None => String::from_str("<div class=\"info muted\">No passcode included in this invite.</div>"),
    }
}

fn launch_text(room: &Option<String>, code: &Option<String>, file: &Option<String>) -> (r: String)
    ensures
        r@ == launch_block(opt_view(*room), opt_view(*code), opt_view(*file)),
{
    match link_of(room, code, file) {
        Some(url) => {
            let mut t = String::from_str("<a class=\"primary\" href=\"");
            push_str(&mut t, html_escape_attr(url.as_str()).as_str());
            push_str(&mut t, "\">Open Hang Client</a>");
            t
        },
        None => String::from_str("<p class=\"muted\">Missing room code. Ask the host for a valid invite link.</p>"),
    }
}

/// The invite landing page: the room, passcode and file name offered are
/// trimmed, and dropped when empty (see `join_page`).
pub fn render_join_page(room: Option<String>, code: Option<String>, file: Option<String>) -> (r: String)
    ensures
        r@ == join_page(
            match room {
                Some(v) => normalized_passcode(v@),
                None => None,
            },
            match code {
                Some(v) => normalized_passcode(v@),
                None => None,
            },
            match file {
                Some(v) => normalized_passcode(v@),
                None => None,
            },
        ),
{
    let room = present(room);
    let code = present(code);
    let file = present(file);
    let script = script_text(&room, &code, &file);
    let heading = heading_text(&room);
    let file_part = file_text(&file);
    let passcode_part = passcode_text(&code);
    let launch = launch_text(&room, &code, &file);
    let mut page = String::from_str(
        "<!DOCTYPE html><html lang=\"en\"><head><meta charset=\"utf-8\" /><title>Hang Invite</title>",
    );
    push_str(&mut page, script.as_str());
    push_str(&mut page, "</head><body><div class=\"card\"><h1>");
    push_str(&mut page, heading.as_str());
    push_str(&mut page, "</h1>");
    push_str(&mut page, file_part.as_str());
    push_str(&mut page, passcode_part.as_str());
    push_str(
        &mut page,
        "<div class=\"info muted\">1. Ensure the Hang desktop client is installed.</div><div class=\"info muted\">2. Load the same video file locally before joining.</div><div class=\"actions\">",
    );
    push_str(&mut page, launch.as_str());
    push_str(
        &mut page,
        "<a class=\"secondary\" href=\"/downloads/hang-client.exe\">Download Hang Client</a></div></div></body></html>",
    );
    assert(page@ =~= join_page(opt_view(room), opt_view(code), opt_view(file)));
    page
}

} // verus!
