//! The command line's color scheme: which status is shown in which color
//! of the palette, how pretty-printed JSON is colored, and how an uptime
//! is written. Writing the escape codes is left to the terminal layer.
use vstd::prelude::*;
use crate::text::{
    contains_chars, contains_seq, dec, extend_chars, find_sub, find_sub_exec, leading_ws, lines,
    push_dec, slice_chars, split_lines, str_chars, str_eq, string_from_chars, strip_all_prefix,
    strip_all_suffix, trim_end_char, trim_start, trim_start_idx, trim_start_matches,
    char_views,
};

verus! {

/// The colors of the palette.
#[derive(PartialEq, Eq, Structural, Clone, Copy, Debug)]
pub enum Palette {
    Bright,
    Green,
    Dim,
    Amber,
    Red,
    Blue,
    White,
}

/// The 24-bit color of a palette entry.
pub open spec fn spec_rgb(p: Palette) -> (u8, u8, u8) {
    match p {
        Palette::Bright => (118u8, 255u8, 3u8),
        Palette::Green => (76u8, 175u8, 80u8),
        Palette::Dim => (74u8, 124u8, 74u8),
        Palette::Amber => (255u8, 179u8, 0u8),
        Palette::Red => (239u8, 83u8, 80u8),
        Palette::Blue => (66u8, 165u8, 245u8),
        Palette::White => (200u8, 230u8, 201u8),
    }
}

impl Palette {
    /// The red, green and blue components of the color.
    pub fn rgb(&self) -> (r: (u8, u8, u8))
        ensures
            r == spec_rgb(*self),
    {
        match self {
            Palette::Bright => (118, 255, 3),
            Palette::Green => (76, 175, 80),
            Palette::Dim => (74, 124, 74),
            Palette::Amber => (255, 179, 0),
            Palette::Red => (239, 83, 80),
            Palette::Blue => (66, 165, 245),
            Palette::White => (200, 230, 201),
        }
    }
}

/// Text to be shown in a color.
pub struct Styled {
    pub text: String,
    pub color: Palette,
}

/// The color of a status word in listings, and the word shown.
pub open spec fn spec_color_status(s: Seq<char>) -> (Seq<char>, Palette) {
    if s == "RUNNING"@ {
        (s, Palette::Bright)
    } else if s == "MIGRATING"@ {
        (s, Palette::Blue)
    } else if s == "BOOTING"@ {
        (s, Palette::Amber)
    } else if s == "STOPPED"@ {
        (s, Palette::Dim)
    } else if s == "ERROR"@ {
        (s, Palette::Red)
    } else if s == "HEALTHY"@ {
        (s, Palette::Green)
    } else if s == "HIGH_LOAD"@ {
        (s, Palette::Amber)
    } else if s == "CRITICAL"@ {
        (s, Palette::Red)
    } else if s == "OFFLINE"@ {
        (s, Palette::Red)
    } else if s == "ALLOW"@ {
        (s, Palette::Bright)
    } else if s == "DENY"@ {
        (s, Palette::Red)
    } else if s == "LOG"@ {
        (s, Palette::Amber)
    } else {
        (s, Palette::White)
    }
}

fn styled(text: &str, color: Palette) -> (r: Styled)
    ensures
        r.text@ == text@,
        r.color == color,
{
    Styled { text: text.to_owned(), color }
}

/// A status word in its color: running and allowed in the bright green,
/// migrating in blue, booting, high load and logged in amber, stopped
/// dimmed, errors, critical, offline and denied in red, healthy in green,
/// anything else in white.
pub fn color_status(status: &str) -> (r: Styled)
    ensures
        (r.text@, r.color) == spec_color_status(status@),
{
    let c = if crate::text::str_eq(status, "RUNNING") {
        Palette::Bright
    } else if crate::text::str_eq(status, "MIGRATING") {
        Palette::Blue
    } else if crate::text::str_eq(status, "BOOTING") {
        Palette::Amber
    } else if crate::text::str_eq(status, "STOPPED") {
        Palette::Dim
    } else if crate::text::str_eq(status, "ERROR") {
        Palette::Red
    } else if crate::text::str_eq(status, "HEALTHY") {
        Palette::Green
    } else if crate::text::str_eq(status, "HIGH_LOAD") {
        Palette::Amber
    } else if crate::text::str_eq(status, "CRITICAL") {
        Palette::Red
    } else if crate::text::str_eq(status, "OFFLINE") {
        Palette::Red
    } else if crate::text::str_eq(status, "ALLOW") {
        Palette::Bright
    } else if crate::text::str_eq(status, "DENY") {
        Palette::Red
    } else if crate::text::str_eq(status, "LOG") {
        Palette::Amber
    } else {
        Palette::White
    };
    styled(status, c)
}

/// The label and color of a backup's status in listings.
pub open spec fn spec_color_status_bup(s: Seq<char>) -> (Seq<char>, Palette) {
    if s == "Completed"@ {
        ("COMPLETED"@, Palette::Bright)
    } else if s == "Running"@ {
        ("RUNNING"@, Palette::Blue)
    } else if s == "Failed"@ {
        ("FAILED"@, Palette::Red)
    } else if s == "Verifying"@ {
        ("VERIFYING"@, Palette::Amber)
    } else {
        (s, Palette::Dim)
    }
}

/// A backup's status as listed: known states upper-cased in their color
/// (completed bright, running blue, failed red, verifying amber), any
/// other text as it is, dimmed.
pub fn color_status_bup(s: &str) -> (r: Styled)
    ensures
        (r.text@, r.color) == spec_color_status_bup(s@),
{
    if crate::text::str_eq(s, "Completed") {
        styled("COMPLETED", Palette::Bright)
    } else if crate::text::str_eq(s, "Running") {
        styled("RUNNING", Palette::Blue)
    } else if crate::text::str_eq(s, "Failed") {
        styled("FAILED", Palette::Red)
    } else if crate::text::str_eq(s, "Verifying") {
        styled("VERIFYING", Palette::Amber)
    } else {
        styled(s, Palette::Dim)
    }
}


/// An uptime as shown in listings: days and hours when it is at least a
/// day, else hours and minutes when at least an hour, else minutes.
pub open spec fn spec_format_uptime(secs: u64) -> Seq<char> {
    let d = secs / 86400;
    let h = (secs % 86400) / 3600;
    let m = (secs % 3600) / 60;
    if d > 0 {
        dec(d as nat) + "d "@ + dec(h as nat) + "h"@
    } else if h > 0 {
        dec(h as nat) + "h "@ + dec(m as nat) + "m"@
    } else {
        dec(m as nat) + "m"@
    }
}

/// Writes an uptime given in seconds (`2d 3h`, `4h 5m`, `7m`).
pub fn format_uptime(secs: u64) -> (r: String)
    ensures
        r@ == spec_format_uptime(secs),
{
    let d = secs / 86400;
    let h = (secs % 86400) / 3600;
    let m = (secs % 3600) / 60;
    let mut v: Vec<char> = Vec::new();
    if d > 0 {
        push_dec(&mut v, d);
        crate::text::extend_str(&mut v, "d ");
        push_dec(&mut v, h);
        crate::text::extend_str(&mut v, "h");
    } else if h > 0 {
        push_dec(&mut v, h);
        crate::text::extend_str(&mut v, "h ");
        push_dec(&mut v, m);
        crate::text::extend_str(&mut v, "m");
    } else {
        push_dec(&mut v, m);
        crate::text::extend_str(&mut v, "m");
    }
    string_from_chars(v.as_slice())
}

/// Whether a character is numeric in Unicode's sense.
pub uninterp spec fn numeric_char(c: char) -> bool;

/// Calls `char::is_numeric`: whether `c` belongs to Unicode's numeric
/// general categories (Nd, Nl, No), a function of `c` alone; among the
/// ASCII characters exactly the digits do.
#[verifier::external_body]
fn is_numeric(c: char) -> (r: bool)
    ensures
        r == numeric_char(c),
        (c as u32) < 128 ==> (r <==> '0' <= c <= '9'),
{
    c.is_numeric()
}

/// Whether `c` is numeric: among ASCII characters the digits, beyond
/// ASCII as Unicode classifies it.
pub open spec fn numeric(c: char) -> bool {
    if (c as u32) < 128 {
        '0' <= c <= '9'
    } else {
        numeric_char(c)
    }
}

/// How a line of pretty-printed JSON is shown.
pub enum JsonLine {
    /// The line as it is.
    Plain(String),
    /// A `"key": value` line: its indentation, the key (quoted) dimmed,
    /// `: `, then the value's text in its color (uncolored when `None`).
    Field { indent: String, key: String, value: String, value_color: Option<Palette> },
}

/// A shown JSON line as plain values: whether it is a field, then the
/// plain text or the indentation, the key, the value and its color.
pub open spec fn json_line_view(j: JsonLine) -> (bool, Seq<char>, Seq<char>, Seq<char>, Option<Palette>) {
    match j {
        JsonLine::Plain(l) => (false, l@, Seq::empty(), Seq::empty(), None),
        JsonLine::Field { indent, key, value, value_color } => (
            true,
            indent@,
            key@,
            value@,
            value_color,
        ),
    }
}

/// What separates a key from its value in pretty-printed JSON.
pub open spec fn key_sep() -> Seq<char> {
    seq!['"', ':', ' ']
}

/// `s` without the double quotes around it (as `trim_matches('"')`).
pub open spec fn strip_quotes(s: Seq<char>) -> Seq<char> {
    strip_all_suffix(strip_all_prefix(s, seq!['"']), '"')
}

/// The text and color of a value: a string without its trailing commas
/// and quotes in green; `true` and `false` in blue; a number (or anything
/// starting with a numeric character or `-`) without its trailing commas
/// in amber; anything else as it is, uncolored.
pub open spec fn value_style(v: Seq<char>) -> (Seq<char>, Option<Palette>) {
    if v.len() > 0 && v[0] == '"' {
        (strip_quotes(strip_all_suffix(v, ',')), Some(Palette::Green))
    } else if v == "true"@ || v == "false"@ {
        (v, Some(Palette::Blue))
    } else if v.len() > 0 && (numeric(v[0]) || v[0] == '-') {
        (strip_all_suffix(v, ','), Some(Palette::Amber))
    } else {
        (v, None)
    }
}

/// How one line is shown: a line whose text (after its indentation)
/// starts with `"` and holds `": ` is split at the first `": ` into key
/// and value; any other line is shown as it is.
pub open spec fn spec_json_line(line: Seq<char>) -> (bool, Seq<char>, Seq<char>, Seq<char>, Option<Palette>) {
    let t = trim_start(line);
    if t.len() > 0 && t[0] == '"' && contains_seq(t, key_sep()) {
        let p = find_sub(t, key_sep());
        let (v, c) = value_style(t.subrange(p + 3, t.len() as int));
        (true, line.subrange(0, trim_start_idx(line)), t.subrange(0, p + 1), v, c)
    } else {
        (false, line, Seq::empty(), Seq::empty(), None)
    }
}

fn value_style_exec(v: &[char]) -> (r: (String, Option<Palette>))
    ensures
        (r.0@, r.1) == value_style(v@),
{
    proof {
        reveal_strlit("true");
        reveal_strlit("false");
    }
    if v.len() > 0 && v[0] == '"' {
        let a = trim_end_char(v, ',');
        let q = vec!['"'];
        let b = trim_start_matches(a.as_slice(), q.as_slice());
        assert(q@ =~= seq!['"']);
        let c = trim_end_char(b.as_slice(), '"');
        (string_from_chars(c.as_slice()), Some(Palette::Green))
    } else if crate::text::chars_eq_str(v, "true") || crate::text::chars_eq_str(v, "false") {
        (string_from_chars(v), Some(Palette::Blue))
    } else if v.len() > 0 && (is_numeric(v[0]) || v[0] == '-') {
        let a = trim_end_char(v, ',');
        (string_from_chars(a.as_slice()), Some(Palette::Amber))
    } else {
        (string_from_chars(v), None)
    }
}

fn json_line(line: &[char]) -> (r: JsonLine)
    ensures
        json_line_view(r) == spec_json_line(line@),
{
    let k = leading_ws(line);
    let t = slice_chars(line, k, line.len());
    let sep = vec!['"', ':', ' '];
    assert(sep@ =~= key_sep());
    assert(t@ =~= trim_start(line@));
    if t.len() > 0 && t[0] == '"' && contains_chars(t.as_slice(), sep.as_slice()) {
        let p = find_sub_exec(t.as_slice(), sep.as_slice());
        proof {
            crate::text::lemma_find_sub(t@, sep@);
        }
        assert(p + 3 <= t.len());
        let key = slice_chars(t.as_slice(), 0, p + 1);
        let val = slice_chars(t.as_slice(), p + 3, t.len());
        let (value, value_color) = value_style_exec(val.as_slice());
        let indent = slice_chars(line, 0, k);
        JsonLine::Field {
            indent: string_from_chars(indent.as_slice()),
            key: string_from_chars(key.as_slice()),
            value,
            value_color,
        }
    } else {
        JsonLine::Plain(string_from_chars(line))
    }
}

/// Colors pretty-printed JSON line by line (each shown line is followed
/// by a newline when written out).
pub fn highlight_json(s: &str) -> (r: Vec<JsonLine>)
    ensures
        r@.map_values(|j: JsonLine| json_line_view(j)) == lines(s@).map_values(
            |l: Seq<char>| spec_json_line(l),
        ),
{
    let ls = split_lines(str_chars(s).as_slice());
    let ghost all = char_views(ls@);
    let mut r: Vec<JsonLine> = Vec::new();
    let n = ls.len();
    let mut i: usize = 0;
    while i < n
        invariant
            i <= n,
            n == ls@.len(),
            all == char_views(ls@),
            all == lines(s@),
            r@.map_values(|j: JsonLine| json_line_view(j)) == all.subrange(0, i as int).map_values(
                |l: Seq<char>| spec_json_line(l),
            ),
        decreases n - i,
    {
        let line = json_line(ls[i].as_slice());
        let ghost before = r@;
        let ghost pushed = line;
        r.push(line);
        proof {
            assert(r@ == before.push(pushed));
            let a = r@.map_values(|j: JsonLine| json_line_view(j));
            let b = all.subrange(0, i + 1).map_values(|l: Seq<char>| spec_json_line(l));
            let a0 = before.map_values(|j: JsonLine| json_line_view(j));
            let b0 = all.subrange(0, i as int).map_values(|l: Seq<char>| spec_json_line(l));
            assert(a0 == b0);
            assert(a0.len() == before.len());
            assert(before.len() == i);
            assert(all[i as int] == ls@[i as int]@);
            assert forall|k: int| 0 <= k < a.len() implies a[k] == b[k] by {
                if k < i {
                    assert(r@[k] == before[k]);
                    assert(a[k] == a0[k]);
                    assert(b[k] == b0[k]);
                }
            }
            assert(a =~= b);
        }
        i = i + 1;
    }
    assert(all.subrange(0, n as int) =~= all);
    r
}

} // verus!
