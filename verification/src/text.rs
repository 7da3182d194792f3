//! Character-level text helpers shared by the formatting and parsing code:
//! decimal and hexadecimal rendering, decimal parsing, whitespace trimming.
use vstd::prelude::*;

verus! {

/// `String::push` appends one character to the string.
pub assume_specification[ String::push ](s: &mut String, ch: char)
    ensures
        final(s)@ == old(s)@.push(ch),
;

/// The characters of `s`, in order.
pub fn str_chars(s: &str) -> (r: Vec<char>)
    ensures
        r@ == s@,
{
    let n = s.unicode_len();
    let mut v: Vec<char> = Vec::with_capacity(n);
    let mut i: usize = 0;
    while i < n
        invariant
            i <= n,
            n == s@.len(),
            v@ == s@.subrange(0, i as int),
        decreases n - i,
    {
        let c = s.get_char(i);
        v.push(c);
        i = i + 1;
        assert(v@ =~= s@.subrange(0, i as int));
    }
    assert(v@ =~= s@);
    v
}

/// A `String` holding the characters of `v`.
pub fn string_from_chars(v: &[char]) -> (r: String)
    ensures
        r@ == v@,
{
    let mut s = String::new();
    let n = v.len();
    let mut i: usize = 0;
    while i < n
        invariant
            i <= n,
            n == v@.len(),
            s@ == v@.subrange(0, i as int),
        decreases n - i,
    {
        s.push(v[i]);
        i = i + 1;
        assert(s@ =~= v@.subrange(0, i as int));
    }
    assert(s@ =~= v@);
    s
}

/// Appends the characters of `src` to `dst`.
pub fn extend_chars(dst: &mut Vec<char>, src: &[char])
    ensures
        final(dst)@ == old(dst)@ + src@,
{
    let n = src.len();
    let mut i: usize = 0;
    while i < n
        invariant
            i <= n,
            n == src@.len(),
            dst@ == old(dst)@ + src@.subrange(0, i as int),
        decreases n - i,
    {
        dst.push(src[i]);
        i = i + 1;
        assert(dst@ =~= old(dst)@ + src@.subrange(0, i as int));
    }
    assert(src@.subrange(0, n as int) =~= src@);
}

/// Appends the characters of `src` to `dst`.
pub fn extend_str(dst: &mut Vec<char>, src: &str)
    ensures
        final(dst)@ == old(dst)@ + src@,
{
    let v = str_chars(src);
    extend_chars(dst, v.as_slice());
}

/// Whether `a` and `b` hold the same characters.
pub fn chars_eq(a: &[char], b: &[char]) -> (r: bool)
    ensures
        r == (a@ == b@),
{
    if a.len() != b.len() {
        return false;
    }
    let n = a.len();
    let mut i: usize = 0;
    while i < n
        invariant
            i <= n,
            n == a@.len(),
            n == b@.len(),
            forall|j: int| 0 <= j < i ==> a@[j] == b@[j],
        decreases n - i,
    {
        if a[i] != b[i] {
            return false;
        }
        i = i + 1;
    }
    assert(a@ =~= b@);
    true
}

/// Whether `a` holds the same characters as the string `b`.
pub fn chars_eq_str(a: &[char], b: &str) -> (r: bool)
    ensures
        r == (a@ == b@),
{
    let bv = str_chars(b);
    chars_eq(a, bv.as_slice())
}

/// Whether the strings `a` and `b` are equal.
pub fn str_eq(a: &str, b: &str) -> (r: bool)
    ensures
        r == (a@ == b@),
{
    let av = str_chars(a);
    chars_eq_str(av.as_slice(), b)
}

/// Whether `s` begins with `prefix`.
pub open spec fn has_prefix(s: Seq<char>, prefix: Seq<char>) -> bool {
    prefix.len() <= s.len() && s.subrange(0, prefix.len() as int) == prefix
}

/// Whether `s` begins with `prefix`.
pub fn starts_with(s: &[char], prefix: &[char]) -> (r: bool)
    ensures
        r == has_prefix(s@, prefix@),
{
    if prefix.len() > s.len() {
        return false;
    }
    let n = prefix.len();
    let mut i: usize = 0;
    while i < n
        invariant
            i <= n,
            n == prefix@.len(),
            n <= s@.len(),
            forall|j: int| 0 <= j < i ==> s@[j] == prefix@[j],
        decreases n - i,
    {
        if s[i] != prefix[i] {
            assert(s@.subrange(0, n as int)[i as int] != prefix@[i as int]);
            return false;
        }
        i = i + 1;
    }
    assert(s@.subrange(0, n as int) =~= prefix@);
    true
}

/// The characters `v[from..to]`.
pub fn slice_chars(v: &[char], from: usize, to: usize) -> (r: Vec<char>)
    requires
        from <= to <= v@.len(),
    ensures
        r@ == v@.subrange(from as int, to as int),
{
    let mut out: Vec<char> = Vec::new();
    let mut i: usize = from;
    while i < to
        invariant
            from <= i <= to,
            to <= v@.len(),
            out@ == v@.subrange(from as int, i as int),
        decreases to - i,
    {
        out.push(v[i]);
        i = i + 1;
        assert(out@ =~= v@.subrange(from as int, i as int));
    }
    out
}

/// The decimal digit character for `d` (0..=9).
pub open spec fn digit_char(d: int) -> char {
    (48 + d) as char
}

/// Decimal representation of `n`, without leading zeroes.
pub open spec fn dec(n: nat) -> Seq<char>
    decreases n,
{
    if n < 10 {
        seq![digit_char(n as int)]
    } else {
        dec(n / 10).push(digit_char((n % 10) as int))
    }
}

/// The decimal digit character for `d`.
pub fn digit(d: u64) -> (c: char)
    requires
        d < 10,
    ensures
        c == digit_char(d as int),
{
    let b: u8 = 48 + (d as u8);
    b as char
}

/// Appends the decimal representation of `n` to `out`.
pub fn push_dec(out: &mut Vec<char>, n: u64)
    ensures
        final(out)@ == old(out)@ + dec(n as nat),
    decreases n,
{
    if n >= 10 {
        push_dec(out, n / 10);
    }
    out.push(digit(n % 10));
    assert(final(out)@ =~= old(out)@ + dec(n as nat));
}

/// The lowercase hexadecimal digit character for `d` (0..=15).
pub open spec fn hex_char(d: int) -> char {
    if d < 10 {
        (48 + d) as char
    } else {
        (87 + d) as char
    }
}

/// The two lowercase hexadecimal digits of a byte.
pub open spec fn hex2(b: u8) -> Seq<char> {
    seq![hex_char((b / 16) as int), hex_char((b % 16) as int)]
}

/// Appends the two lowercase hexadecimal digits of `b` to `out`.
pub fn push_hex2(out: &mut Vec<char>, b: u8)
    ensures
        final(out)@ == old(out)@ + hex2(b),
{
    let hi = b / 16;
    let lo = b % 16;
    let ch = if hi < 10 {
        (48 + hi) as char
    } else {
        (87 + hi) as char
    };
    let cl = if lo < 10 {
        (48 + lo) as char
    } else {
        (87 + lo) as char
    };
    out.push(ch);
    out.push(cl);
    assert(final(out)@ =~= old(out)@ + hex2(b));
}

/// Whether `c` is an ASCII decimal digit.
pub open spec fn is_digit(c: char) -> bool {
    '0' <= c <= '9'
}

/// Whether `c` has the Unicode `White_Space` property (what
/// `char::is_whitespace` tests).
pub open spec fn is_ws(c: char) -> bool {
    ||| ('\u{9}' <= c <= '\u{d}')
    ||| c == ' '
    ||| c == '\u{85}'
    ||| c == '\u{a0}'
    ||| c == '\u{1680}'
    ||| ('\u{2000}' <= c <= '\u{200a}')
    ||| c == '\u{2028}'
    ||| c == '\u{2029}'
    ||| c == '\u{202f}'
    ||| c == '\u{205f}'
    ||| c == '\u{3000}'
}

/// Whether `c` is a Unicode whitespace character.
pub fn is_whitespace(c: char) -> (r: bool)
    ensures
        r == is_ws(c),
{
    ('\u{9}' <= c && c <= '\u{d}') || c == ' ' || c == '\u{85}' || c == '\u{a0}' || c
        == '\u{1680}' || ('\u{2000}' <= c && c <= '\u{200a}') || c == '\u{2028}' || c
        == '\u{2029}' || c == '\u{202f}' || c == '\u{205f}' || c == '\u{3000}'
}

/// Index of the first non-whitespace character of `s` (or its length).
pub open spec fn trim_start_idx(s: Seq<char>) -> int
    decreases s.len(),
{
    if s.len() == 0 || !is_ws(s[0]) {
        0
    } else {
        1 + trim_start_idx(s.drop_first())
    }
}

/// Index just past the last non-whitespace character of `s` (or 0).
pub open spec fn trim_end_idx(s: Seq<char>) -> int
    decreases s.len(),
{
    if s.len() == 0 || !is_ws(s.last()) {
        s.len() as int
    } else {
        trim_end_idx(s.drop_last())
    }
}

/// `s` with leading and trailing whitespace removed (as `str::trim`).
pub open spec fn trim(s: Seq<char>) -> Seq<char> {
    let a = trim_start_idx(s);
    let t = s.subrange(a, s.len() as int);
    t.subrange(0, trim_end_idx(t))
}

proof fn lemma_trim_start_idx(s: Seq<char>)
    ensures
        0 <= trim_start_idx(s) <= s.len(),
        forall|j: int| 0 <= j < trim_start_idx(s) ==> is_ws(#[trigger] s[j]),
        trim_start_idx(s) < s.len() ==> !is_ws(s[trim_start_idx(s)]),
    decreases s.len(),
{
    if s.len() > 0 && is_ws(s[0]) {
        lemma_trim_start_idx(s.drop_first());
        assert forall|j: int| 0 <= j < trim_start_idx(s) implies is_ws(#[trigger] s[j]) by {
            if j > 0 {
                assert(s[j] == s.drop_first()[j - 1]);
            }
        }
    }
}

proof fn lemma_trim_end_idx(s: Seq<char>)
    ensures
        0 <= trim_end_idx(s) <= s.len(),
        forall|j: int| trim_end_idx(s) <= j < s.len() ==> is_ws(#[trigger] s[j]),
        trim_end_idx(s) > 0 ==> !is_ws(s[trim_end_idx(s) - 1]),
    decreases s.len(),
{
    if s.len() > 0 && is_ws(s.last()) {
        lemma_trim_end_idx(s.drop_last());
        assert forall|j: int| trim_end_idx(s) <= j < s.len() implies is_ws(#[trigger] s[j]) by {
            if j < s.len() - 1 {
                assert(s[j] == s.drop_last()[j]);
            }
        }
    }
}

/// `s` with leading and trailing whitespace removed.
pub fn trim_chars(s: &[char]) -> (r: Vec<char>)
    ensures
        r@ == trim(s@),
{
    let n = s.len();
    let mut a: usize = 0;
    proof {
        lemma_trim_start_idx(s@);
    }
    while a < n && is_whitespace(s[a])
        invariant
            a <= n,
            n == s@.len(),
            a <= trim_start_idx(s@),
            0 <= trim_start_idx(s@) <= s@.len(),
            forall|j: int| 0 <= j < trim_start_idx(s@) ==> is_ws(#[trigger] s@[j]),
            trim_start_idx(s@) < s@.len() ==> !is_ws(s@[trim_start_idx(s@)]),
        decreases n - a,
    {
        a = a + 1;
    }
    let ghost t = s@.subrange(a as int, n as int);
    proof {
        lemma_trim_end_idx(t);
    }
    let mut b: usize = n;
    while b > a && is_whitespace(s[b - 1])
        invariant
            a <= b <= n,
            n == s@.len(),
            t == s@.subrange(a as int, n as int),
            b - a >= trim_end_idx(t),
            0 <= trim_end_idx(t) <= t.len(),
            forall|j: int| trim_end_idx(t) <= j < t.len() ==> is_ws(#[trigger] t[j]),
            trim_end_idx(t) > 0 ==> !is_ws(t[trim_end_idx(t) - 1]),
        decreases b,
    {
        assert(s@[b - 1] == t[b - 1 - a]);
        b = b - 1;
    }
    proof {
        if b > a {
            assert(s@[b - 1] == t[b - 1 - a]);
        }
        assert(b - a == trim_end_idx(t));
    }
    let r = slice_chars(s, a, b);
    assert(r@ =~= trim(s@));
    r
}


/// The pieces of `parts` joined with `sep` between each two.
pub open spec fn joined(parts: Seq<Seq<char>>, sep: Seq<char>) -> Seq<char>
    decreases parts.len(),
{
    if parts.len() == 0 {
        Seq::empty()
    } else if parts.len() == 1 {
        parts[0]
    } else {
        joined(parts.drop_last(), sep) + sep + parts.last()
    }
}

/// The views of a sequence of strings.
pub open spec fn string_views(s: Seq<String>) -> Seq<Seq<char>> {
    s.map_values(|x: String| x@)
}

/// The views of a sequence of character vectors.
pub open spec fn char_views(s: Seq<Vec<char>>) -> Seq<Seq<char>> {
    s.map_values(|x: Vec<char>| x@)
}

/// The strings of `parts` joined with `sep` (as `[String]::join`).
pub fn join_strings(parts: &[String], sep: &str) -> (r: String)
    ensures
        r@ == joined(string_views(parts@), sep@),
{
    let n = parts.len();
    let mut out: Vec<char> = Vec::new();
    let mut i: usize = 0;
    while i < n
        invariant
            i <= n,
            n == parts@.len(),
            out@ == joined(string_views(parts@.subrange(0, i as int)), sep@),
        decreases n - i,
    {
        let ghost before = string_views(parts@.subrange(0, i as int));
        if i > 0 {
            extend_str(&mut out, sep);
        }
        extend_str(&mut out, parts[i].as_str());
        proof {
            let now = string_views(parts@.subrange(0, i + 1));
            assert(now.drop_last() =~= before);
            assert(now.last() == parts@[i as int]@);
            if i == 0 {
                assert(now =~= seq![parts@[0]@]);
            }
        }
        i = i + 1;
    }
    assert(parts@.subrange(0, n as int) =~= parts@);
    string_from_chars(out.as_slice())
}

/// Splitting `s` at whitespace: the words completed so far and the word
/// in progress at the end.
pub open spec fn split_ws(s: Seq<char>) -> (Seq<Seq<char>>, Seq<char>)
    decreases s.len(),
{
    if s.len() == 0 {
        (Seq::empty(), Seq::empty())
    } else {
        let (ws, cur) = split_ws(s.drop_last());
        if is_ws(s.last()) {
            if cur.len() > 0 {
                (ws.push(cur), Seq::empty())
            } else {
                (ws, Seq::empty())
            }
        } else {
            (ws, cur.push(s.last()))
        }
    }
}

/// The maximal runs of non-whitespace characters of `s`, in order (as
/// `str::split_whitespace`).
pub open spec fn words(s: Seq<char>) -> Seq<Seq<char>> {
    let (ws, cur) = split_ws(s);
    if cur.len() > 0 {
        ws.push(cur)
    } else {
        ws
    }
}

/// The words of `s`.
pub fn split_words(s: &[char]) -> (r: Vec<Vec<char>>)
    ensures
        char_views(r@) == words(s@),
{
    let n = s.len();
    let mut out: Vec<Vec<char>> = Vec::new();
    let mut cur: Vec<char> = Vec::new();
    let mut i: usize = 0;
    while i < n
        invariant
            i <= n,
            n == s@.len(),
            (char_views(out@), cur@) == split_ws(s@.subrange(0, i as int)),
        decreases n - i,
    {
        let ghost pre = s@.subrange(0, i as int);
        assert(s@.subrange(0, i + 1).drop_last() =~= pre);
        if is_whitespace(s[i]) {
            if cur.len() > 0 {
                let ghost before = out@;
                let w = cur;
                out.push(w);
                cur = Vec::new();
                assert(char_views(out@) =~= char_views(before).push(w@));
            }
        } else {
            cur.push(s[i]);
        }
        i = i + 1;
    }
    assert(s@.subrange(0, n as int) =~= s@);
    if cur.len() > 0 {
        let ghost before = out@;
        let w = cur;
        out.push(w);
        assert(char_views(out@) =~= char_views(before).push(w@));
    }
    out
}

/// `line` without one trailing carriage return.
pub open spec fn strip_cr(line: Seq<char>) -> Seq<char> {
    if line.len() > 0 && line.last() == '\r' {
        line.drop_last()
    } else {
        line
    }
}

/// Splitting `s` at newlines: the lines completed so far (each without
/// its `\r\n` or `\n`) and the line in progress at the end.
pub open spec fn split_nl(s: Seq<char>) -> (Seq<Seq<char>>, Seq<char>)
    decreases s.len(),
{
    if s.len() == 0 {
        (Seq::empty(), Seq::empty())
    } else {
        let (ls, cur) = split_nl(s.drop_last());
        if s.last() == '\n' {
            (ls.push(strip_cr(cur)), Seq::empty())
        } else {
            (ls, cur.push(s.last()))
        }
    }
}

/// The lines of `s` (as `str::lines`): split at `\n`, a `\r` before the
/// `\n` dropped, and no empty last line after a final newline.
pub open spec fn lines(s: Seq<char>) -> Seq<Seq<char>> {
    let (ls, cur) = split_nl(s);
    if cur.len() > 0 {
        ls.push(cur)
    } else {
        ls
    }
}

/// The lines of `s`.
pub fn split_lines(s: &[char]) -> (r: Vec<Vec<char>>)
    ensures
        char_views(r@) == lines(s@),
{
    let n = s.len();
    let mut out: Vec<Vec<char>> = Vec::new();
    let mut cur: Vec<char> = Vec::new();
    let mut i: usize = 0;
    while i < n
        invariant
            i <= n,
            n == s@.len(),
            (char_views(out@), cur@) == split_nl(s@.subrange(0, i as int)),
        decreases n - i,
    {
        let ghost pre = s@.subrange(0, i as int);
        assert(s@.subrange(0, i + 1).drop_last() =~= pre);
        if s[i] == '\n' {
            let ghost before = out@;
            let m = cur.len();
            let w = if m > 0 && cur[m - 1] == '\r' {
                slice_chars(cur.as_slice(), 0, m - 1)
            } else {
                cur
            };
            assert(w@ == strip_cr(split_nl(pre).1));
            out.push(w);
            cur = Vec::new();
            assert(char_views(out@) =~= char_views(before).push(w@));
        } else {
            cur.push(s[i]);
        }
        i = i + 1;
    }
    assert(s@.subrange(0, n as int) =~= s@);
    if cur.len() > 0 {
        let ghost before = out@;
        let w = cur;
        out.push(w);
        assert(char_views(out@) =~= char_views(before).push(w@));
    }
    out
}


/// Appends a copy of `s` to the list of strings `v`.
pub fn push_str(v: &mut Vec<String>, s: &str)
    ensures
        string_views(final(v)@) == string_views(old(v)@).push(s@),
{
    let ghost before = v@;
    v.push(s.to_owned());
    assert(string_views(v@) =~= string_views(before).push(s@));
}

/// The decimal representation of `n` as a `String`.
pub fn dec_string(n: u64) -> (r: String)
    ensures
        r@ == dec(n as nat),
{
    let mut v: Vec<char> = Vec::new();
    push_dec(&mut v, n);
    assert(v@ =~= dec(n as nat));
    string_from_chars(v.as_slice())
}

/// Index of the first `c` in `s`, or the length of `s` where there is none.
pub open spec fn index_of_char(s: Seq<char>, c: char) -> int
    decreases s.len(),
{
    if s.len() == 0 {
        0
    } else if s[0] == c {
        0
    } else {
        1 + index_of_char(s.drop_first(), c)
    }
}

/// `index_of_char` is the first position holding `c` (or the length).
pub proof fn lemma_index_of_char(s: Seq<char>, c: char, i: int)
    requires
        0 <= i <= s.len(),
        forall|j: int| 0 <= j < i ==> s[j] != c,
        i == s.len() || s[i] == c,
    ensures
        index_of_char(s, c) == i,
    decreases s.len(),
{
    if s.len() > 0 && s[0] != c {
        assert forall|j: int| 0 <= j < i - 1 implies s.drop_first()[j] != c by {
            assert(s.drop_first()[j] == s[j + 1]);
        }
        lemma_index_of_char(s.drop_first(), c, i - 1);
    }
}

/// Index of the first `c` in `s`, or `s.len()`.
pub fn find_char(s: &[char], c: char) -> (r: usize)
    ensures
        r == index_of_char(s@, c),
        r <= s@.len(),
{
    let n = s.len();
    let mut i: usize = 0;
    while i < n && s[i] != c
        invariant
            i <= n,
            n == s@.len(),
            forall|j: int| 0 <= j < i ==> s@[j] != c,
        decreases n - i,
    {
        i = i + 1;
    }
    proof {
        lemma_index_of_char(s@, c, i as int);
    }
    i
}

/// `s` with every leading repetition of `p` removed (as
/// `str::trim_start_matches` with a string pattern).
pub open spec fn strip_all_prefix(s: Seq<char>, p: Seq<char>) -> Seq<char>
    decreases s.len(),
{
    if p.len() > 0 && has_prefix(s, p) {
        strip_all_prefix(s.subrange(p.len() as int, s.len() as int), p)
    } else {
        s
    }
}

/// `s` with every leading repetition of `p` removed.
pub fn trim_start_matches(s: &[char], p: &[char]) -> (r: Vec<char>)
    ensures
        r@ == strip_all_prefix(s@, p@),
{
    let n = s.len();
    let m = p.len();
    let mut i: usize = 0;
    assert(s@.subrange(0, n as int) =~= s@);
    while m > 0 && m <= n - i && starts_with(slice_chars(s, i, n).as_slice(), p)
        invariant
            i <= n,
            n == s@.len(),
            m == p@.len(),
            strip_all_prefix(s@.subrange(i as int, n as int), p@) == strip_all_prefix(s@, p@),
        decreases n - i,
    {
        let ghost t = s@.subrange(i as int, n as int);
        assert(t.subrange(m as int, t.len() as int) =~= s@.subrange(i + m, n as int));
        i = i + m;
    }
    let r = slice_chars(s, i, n);
    proof {
        let t = s@.subrange(i as int, n as int);
        if m > 0 && has_prefix(t, p@) {
            assert(m <= n - i);
        }
    }
    r
}

/// The first of `ls` that begins with `p`, if any.
pub open spec fn first_with_prefix(ls: Seq<Seq<char>>, p: Seq<char>) -> Option<Seq<char>>
    decreases ls.len(),
{
    if ls.len() == 0 {
        None
    } else if has_prefix(ls[0], p) {
        Some(ls[0])
    } else {
        first_with_prefix(ls.drop_first(), p)
    }
}

/// The index of the first of `ls` that begins with `p`, if any.
pub fn find_with_prefix(ls: &Vec<Vec<char>>, p: &[char]) -> (r: Option<usize>)
    ensures
        match r {
            Some(i) => i < ls@.len() && first_with_prefix(char_views(ls@), p@) == Some(
                ls@[i as int]@,
            ),
            None => first_with_prefix(char_views(ls@), p@) is None,
        },
{
    let n = ls.len();
    let mut i: usize = 0;
    assert(char_views(ls@).subrange(0, n as int) =~= char_views(ls@));
    while i < n
        invariant
            i <= n,
            n == ls@.len(),
            first_with_prefix(char_views(ls@).subrange(i as int, n as int), p@)
                == first_with_prefix(char_views(ls@), p@),
        decreases n - i,
    {
        let ghost rest = char_views(ls@).subrange(i as int, n as int);
        assert(rest[0] == ls@[i as int]@);
        if starts_with(ls[i].as_slice(), p) {
            return Some(i);
        }
        assert(rest.drop_first() =~= char_views(ls@).subrange(i + 1, n as int));
        i = i + 1;
    }
    None
}

/// Whether every character of `s` is ASCII (so characters and bytes
/// coincide).
pub open spec fn all_ascii(s: Seq<char>) -> bool {
    forall|i: int| 0 <= i < s.len() ==> (#[trigger] s[i] as u32) < 128
}

/// An ASCII capital letter made small; any other character as it is.
pub open spec fn ascii_lower_char(c: char) -> char {
    if 'A' <= c <= 'Z' {
        ((c as u32) + 32) as char
    } else {
        c
    }
}

/// An ASCII small letter made capital; any other character as it is.
pub open spec fn ascii_upper_char(c: char) -> char {
    if 'a' <= c <= 'z' {
        ((c as u32) - 32) as char
    } else {
        c
    }
}

/// The characters of `s` with ASCII capitals made small.
pub open spec fn ascii_lower(s: Seq<char>) -> Seq<char> {
    s.map_values(|c: char| ascii_lower_char(c))
}

/// The characters of `s` with ASCII small letters made capital.
pub open spec fn ascii_upper(s: Seq<char>) -> Seq<char> {
    s.map_values(|c: char| ascii_upper_char(c))
}

/// Names the Unicode lowercase mapping that `str::to_lowercase` computes.
pub uninterp spec fn lowercase(s: Seq<char>) -> Seq<char>;

/// Calls `str::to_lowercase`: its result is named (`lowercase` of the
/// input characters); of an ASCII string it is stated, since the Unicode
/// lowercase of `A`..`Z` is `a`..`z` and every other ASCII character is its
/// own lowercase.
#[verifier::external_body]
pub(crate) fn to_lowercase(s: &str) -> (r: String)
    ensures
        r@ == lowercase(s@),
        all_ascii(s@) ==> r@ == ascii_lower(s@),
{
    s.to_lowercase()
}

/// The value of a string of decimal digits (0 for none).
pub open spec fn dec_value(ds: Seq<char>) -> nat
    decreases ds.len(),
{
    if ds.len() == 0 {
        0
    } else {
        dec_value(ds.drop_last()) * 10 + ((ds.last() as int - '0' as int) as nat)
    }
}

/// Whether every character of `s` is a decimal digit.
pub open spec fn all_digits(s: Seq<char>) -> bool {
    forall|i: int| 0 <= i < s.len() ==> is_digit(#[trigger] s[i])
}

/// What `u32::from_str` gives: an optional `+`, then one or more digits,
/// with a value that fits.
pub open spec fn spec_parse_u32(s: Seq<char>) -> Option<u32> {
    let d = if s.len() > 0 && s[0] == '+' {
        s.drop_first()
    } else {
        s
    };
    if d.len() > 0 && all_digits(d) && dec_value(d) <= u32::MAX {
        Some(dec_value(d) as u32)
    } else {
        None
    }
}

proof fn lemma_dec_value_step(ds: Seq<char>, i: int)
    requires
        0 <= i < ds.len(),
    ensures
        dec_value(ds.subrange(0, i + 1)) == dec_value(ds.subrange(0, i)) * 10 + ((ds[i] as int
            - '0' as int) as nat),
{
    assert(ds.subrange(0, i + 1).drop_last() =~= ds.subrange(0, i));
}

/// The value of `ds`'s digits, saturated at `cap`.
pub fn dec_value_capped(ds: &[char], cap: u64) -> (r: u64)
    requires
        all_digits(ds@),
        cap <= u64::MAX / 16,
    ensures
        r == if dec_value(ds@) < cap {
            dec_value(ds@)
        } else {
            cap as nat
        },
{
    let n = ds.len();
    let mut v: u64 = 0;
    let mut i: usize = 0;
    while i < n
        invariant
            i <= n,
            n == ds@.len(),
            all_digits(ds@),
            cap <= u64::MAX / 16,
            v == if dec_value(ds@.subrange(0, i as int)) < cap {
                dec_value(ds@.subrange(0, i as int))
            } else {
                cap as nat
            },
        decreases n - i,
    {
        proof {
            lemma_dec_value_step(ds@, i as int);
            assert(is_digit(ds@[i as int]));
        }
        let d = (ds[i] as u32 - '0' as u32) as u64;
        if v < cap {
            let w = v * 10 + d;
            v = if w < cap {
                w
            } else {
                cap
            };
        }
        i = i + 1;
    }
    assert(ds@.subrange(0, n as int) =~= ds@);
    v
}

/// Parses an unsigned 32-bit decimal (as `u32::from_str`).
pub fn parse_u32(s: &[char]) -> (r: Option<u32>)
    ensures
        r == spec_parse_u32(s@),
{
    let d = if s.len() > 0 && s[0] == '+' {
        slice_chars(s, 1, s.len())
    } else {
        slice_chars(s, 0, s.len())
    };
    proof {
        if s@.len() > 0 && s@[0] == '+' {
            assert(d@ =~= s@.drop_first());
        } else {
            assert(d@ =~= s@);
        }
    }
    if d.len() == 0 {
        return None;
    }
    let mut i: usize = 0;
    while i < d.len()
        invariant
            i <= d@.len(),
            d@ == (if s@.len() > 0 && s@[0] == '+' {
                s@.drop_first()
            } else {
                s@
            }),
            forall|j: int| 0 <= j < i ==> is_digit(#[trigger] d@[j]),
        decreases d@.len() - i,
    {
        if !('0' <= d[i] && d[i] <= '9') {
            assert(!all_digits(d@));
            return None;
        }
        i = i + 1;
    }
    let v = dec_value_capped(d.as_slice(), 0x1_0000_0000);
    if v > 0xffff_ffff {
        None
    } else {
        Some(v as u32)
    }
}

/// `index_of_char` is at most the length; every earlier character differs
/// from `c`; below the length it holds `c`.
pub proof fn lemma_index_of_char_props(s: Seq<char>, c: char)
    ensures
        0 <= index_of_char(s, c) <= s.len(),
        forall|j: int| 0 <= j < index_of_char(s, c) ==> s[j] != c,
        index_of_char(s, c) < s.len() ==> s[index_of_char(s, c)] == c,
    decreases s.len(),
{
    if s.len() > 0 && s[0] != c {
        lemma_index_of_char_props(s.drop_first(), c);
        assert forall|j: int| 0 <= j < index_of_char(s, c) implies s[j] != c by {
            if j > 0 {
                assert(s[j] == s.drop_first()[j - 1]);
            }
        }
    }
}

/// The line `first_with_prefix` picks does begin with the prefix.
pub proof fn lemma_first_with_prefix(ls: Seq<Seq<char>>, p: Seq<char>)
    ensures
        first_with_prefix(ls, p) matches Some(l) ==> has_prefix(l, p),
    decreases ls.len(),
{
    if ls.len() > 0 && !has_prefix(ls[0], p) {
        lemma_first_with_prefix(ls.drop_first(), p);
    }
}

/// Whether `t` occurs in `s` at position `i`.
pub open spec fn occurs_at(s: Seq<char>, t: Seq<char>, i: int) -> bool {
    0 <= i && i + t.len() <= s.len() && s.subrange(i, i + t.len()) == t
}

/// Whether `t` occurs in `s`.
pub open spec fn contains_seq(s: Seq<char>, t: Seq<char>) -> bool {
    exists|i: int| occurs_at(s, t, i)
}

/// Whether `t` occurs in `s`.
pub fn contains_chars(s: &[char], t: &[char]) -> (r: bool)
    ensures
        r == contains_seq(s@, t@),
{
    if t.len() > s.len() {
        assert forall|i: int| !occurs_at(s@, t@, i) by {}
        return false;
    }
    if t.len() == 0 {
        assert(s@.subrange(0, 0) =~= t@);
        assert(occurs_at(s@, t@, 0));
        return true;
    }
    let n = s.len();
    let tl = t.len();
    let last = n - tl;
    let mut i: usize = 0;
    while i <= last
        invariant
            n == s@.len(),
            tl == t@.len(),
            tl > 0,
            last == n - tl,
            i <= last + 1,
            forall|j: int| 0 <= j < i ==> !occurs_at(s@, t@, j),
        decreases last + 1 - i,
    {
        let sub = slice_chars(s, i, i + tl);
        if chars_eq(sub.as_slice(), t) {
            assert(occurs_at(s@, t@, i as int));
            return true;
        }
        i = i + 1;
    }
    assert forall|j: int| !occurs_at(s@, t@, j) by {
        if 0 <= j && j + t@.len() <= s@.len() {
            assert(j < i);
        }
    }
    false
}

/// Index of the first occurrence of `t` in `s`, or the length of `s`.
pub open spec fn find_sub(s: Seq<char>, t: Seq<char>) -> int
    decreases s.len(),
{
    if t.len() > s.len() {
        s.len() as int
    } else if s.subrange(0, t.len() as int) =~= t {
        0
    } else if s.len() == 0 {
        0
    } else {
        1 + find_sub(s.drop_first(), t)
    }
}

proof fn lemma_occurs_shift(s: Seq<char>, t: Seq<char>, j: int)
    requires
        s.len() > 0,
        j >= 0,
    ensures
        occurs_at(s.drop_first(), t, j) == occurs_at(s, t, j + 1),
{
    if 0 <= j && j + t.len() <= s.len() - 1 {
        assert(s.drop_first().subrange(j, j + t.len()) =~= s.subrange(j + 1, j + 1 + t.len()));
    }
}

/// `find_sub` is the first occurrence, or the length when there is none.
pub proof fn lemma_find_sub(s: Seq<char>, t: Seq<char>)
    ensures
        0 <= find_sub(s, t) <= s.len(),
        forall|j: int| 0 <= j < find_sub(s, t) ==> !occurs_at(s, t, j),
        find_sub(s, t) < s.len() || (t.len() == 0 && s.len() == 0) ==> occurs_at(s, t, find_sub(s, t)),
        find_sub(s, t) == s.len() && t.len() > 0 ==> forall|j: int| !occurs_at(s, t, j),
    decreases s.len(),
{
    if t.len() > s.len() {
    } else if s.subrange(0, t.len() as int) =~= t {
    } else if s.len() == 0 {
    } else {
        lemma_find_sub(s.drop_first(), t);
        assert forall|j: int| 0 <= j < find_sub(s, t) implies !occurs_at(s, t, j) by {
            if j > 0 {
                lemma_occurs_shift(s, t, j - 1);
            }
        }
        let k = find_sub(s.drop_first(), t);
        lemma_occurs_shift(s, t, k);
        if k == s.len() - 1 && t.len() > 0 {
            assert forall|j: int| !occurs_at(s, t, j) by {
                if j >= 1 {
                    lemma_occurs_shift(s, t, j - 1);
                }
            }
        }
    }
}

/// Index of the first occurrence of `t` in `s`, or `s.len()`.
pub fn find_sub_exec(s: &[char], t: &[char]) -> (r: usize)
    ensures
        r == find_sub(s@, t@),
{
    proof {
        lemma_find_sub(s@, t@);
    }
    let n = s.len();
    let tl = t.len();
    if tl > n {
        return n;
    }
    let mut i: usize = 0;
    while tl <= n - i
        invariant
            n == s@.len(),
            tl == t@.len(),
            tl <= n,
            i <= n,
            forall|j: int| 0 <= j < i ==> !occurs_at(s@, t@, j),
            0 <= find_sub(s@, t@) <= s@.len(),
            forall|j: int| 0 <= j < find_sub(s@, t@) ==> !occurs_at(s@, t@, j),
            find_sub(s@, t@) < s@.len() || (t@.len() == 0 && s@.len() == 0) ==> occurs_at(s@, t@, find_sub(s@, t@)),
            find_sub(s@, t@) == s@.len() && t@.len() > 0 ==> forall|j: int| !occurs_at(s@, t@, j),
        decreases n - i,
    {
        let sub = slice_chars(s, i, i + tl);
        if chars_eq(sub.as_slice(), t) {
            assert(occurs_at(s@, t@, i as int));
            return i;
        }
        i = i + 1;
    }
    if tl == 0 {
        assert(occurs_at(s@, t@, n as int)) by {
            assert(s@.subrange(n as int, n as int) =~= t@);
        }
    }
    n
}

/// `s` split at every occurrence of the non-empty `t` (as `str::split`
/// with a string pattern).
pub open spec fn split_on(s: Seq<char>, t: Seq<char>) -> Seq<Seq<char>>
    decreases s.len(),
{
    let i = find_sub(s, t);
    if t.len() > 0 && 0 <= i && i + t.len() <= s.len() {
        seq![s.subrange(0, i)] + split_on(s.subrange(i + t.len() as int, s.len() as int), t)
    } else {
        seq![s]
    }
}

/// The pieces of `s` between the occurrences of `t`.
pub fn split_on_exec(s: &[char], t: &[char]) -> (r: Vec<Vec<char>>)
    requires
        t@.len() > 0,
    ensures
        char_views(r@) == split_on(s@, t@),
{
    let n = s.len();
    let tl = t.len();
    let mut out: Vec<Vec<char>> = Vec::new();
    let mut pos: usize = 0;
    assert(s@.subrange(0, n as int) =~= s@);
    assert(char_views(out@) + split_on(s@.subrange(0, n as int), t@) =~= split_on(s@, t@));
    loop
        invariant
            pos <= n,
            n == s@.len(),
            tl == t@.len(),
            tl > 0,
            char_views(out@) + split_on(s@.subrange(pos as int, n as int), t@) == split_on(s@, t@),
        decreases n - pos,
    {
        let rest = slice_chars(s, pos, n);
        let j = find_sub_exec(rest.as_slice(), t);
        proof {
            lemma_find_sub(rest@, t@);
        }
        let ghost before = out@;
        if tl <= rest.len() - j {
            let piece = slice_chars(rest.as_slice(), 0, j);
            out.push(piece);
            proof {
                let nrest = rest@.subrange(j + tl, rest@.len() as int);
                assert(nrest =~= s@.subrange(pos + j + tl, n as int));
                assert(split_on(rest@, t@) == seq![rest@.subrange(0, j as int)] + split_on(nrest, t@));
                assert(char_views(out@) =~= char_views(before).push(piece@));
                assert(char_views(out@) + split_on(nrest, t@) =~= char_views(before) + split_on(rest@, t@));
            }
            pos = pos + j + tl;
        } else {
            out.push(rest);
            proof {
                assert(split_on(rest@, t@) == seq![rest@]);
                assert(char_views(out@) =~= char_views(before) + split_on(rest@, t@));
            }
            return out;
        }
    }
}

/// A prefix of a digit string is worth at most the whole.
pub proof fn lemma_dec_value_prefix(ds: Seq<char>, i: int)
    requires
        0 <= i <= ds.len(),
        all_digits(ds),
    ensures
        dec_value(ds.subrange(0, i)) <= dec_value(ds),
    decreases ds.len() - i,
{
    if i < ds.len() {
        lemma_dec_value_prefix(ds, i + 1);
        lemma_dec_value_step(ds, i);
        assert(is_digit(ds[i]));
    } else {
        assert(ds.subrange(0, i) =~= ds);
    }
}

/// What `u64::from_str` gives: an optional `+`, then one or more digits,
/// with a value that fits.
pub open spec fn spec_parse_u64(s: Seq<char>) -> Option<u64> {
    let d = if s.len() > 0 && s[0] == '+' {
        s.drop_first()
    } else {
        s
    };
    if d.len() > 0 && all_digits(d) && dec_value(d) <= u64::MAX {
        Some(dec_value(d) as u64)
    } else {
        None
    }
}

/// Parses an unsigned 64-bit decimal (as `u64::from_str`).
pub fn parse_u64(s: &[char]) -> (r: Option<u64>)
    ensures
        r == spec_parse_u64(s@),
{
    let d = if s.len() > 0 && s[0] == '+' {
        slice_chars(s, 1, s.len())
    } else {
        slice_chars(s, 0, s.len())
    };
    proof {
        if s@.len() > 0 && s@[0] == '+' {
            assert(d@ =~= s@.drop_first());
        } else {
            assert(d@ =~= s@);
        }
    }
    if d.len() == 0 {
        return None;
    }
    let mut i: usize = 0;
    while i < d.len()
        invariant
            i <= d@.len(),
            d@ == (if s@.len() > 0 && s@[0] == '+' {
                s@.drop_first()
            } else {
                s@
            }),
            forall|j: int| 0 <= j < i ==> is_digit(#[trigger] d@[j]),
        decreases d@.len() - i,
    {
        if !('0' <= d[i] && d[i] <= '9') {
            assert(!all_digits(d@));
            return None;
        }
        i = i + 1;
    }
    let n = d.len();
    let mut v: u64 = 0;
    let mut k: usize = 0;
    while k < n
        invariant
            k <= n,
            n == d@.len(),
            all_digits(d@),
            d@ == (if s@.len() > 0 && s@[0] == '+' {
                s@.drop_first()
            } else {
                s@
            }),
            v == dec_value(d@.subrange(0, k as int)),
        decreases n - k,
    {
        proof {
            lemma_dec_value_step(d@, k as int);
            assert(is_digit(d@[k as int]));
        }
        let dg = (d[k] as u32 - '0' as u32) as u64;
        match v.checked_mul(10) {
            Some(m) => match m.checked_add(dg) {
                Some(w) => {
                    v = w;
                },
                None => {
                    proof {
                        lemma_dec_value_prefix(d@, k + 1);
                    }
                    return None;
                },
            },
            None => {
                proof {
                    lemma_dec_value_prefix(d@, k + 1);
                }
                return None;
            },
        }
        k = k + 1;
    }
    assert(d@.subrange(0, n as int) =~= d@);
    Some(v)
}

/// The lowest `w` hexadecimal digits of `n` (lowercase, zero-padded).
pub open spec fn hex_fixed(n: nat, w: nat) -> Seq<char>
    decreases w,
{
    if w == 0 {
        Seq::empty()
    } else {
        hex_fixed(n / 16, (w - 1) as nat).push(hex_char((n % 16) as int))
    }
}

/// The lowercase hexadecimal digits of `n`, without leading zeroes.
pub open spec fn hex_min(n: nat) -> Seq<char>
    decreases n,
{
    if n < 16 {
        seq![hex_char(n as int)]
    } else {
        hex_min(n / 16).push(hex_char((n % 16) as int))
    }
}

fn hex_digit_char(d: u64) -> (c: char)
    requires
        d < 16,
    ensures
        c == hex_char(d as int),
{
    if d < 10 {
        ((48 + d) as u8) as char
    } else {
        ((87 + d) as u8) as char
    }
}

/// Appends the lowest `w` hexadecimal digits of `n`.
pub fn push_hex_fixed(out: &mut Vec<char>, n: u64, w: u32)
    ensures
        final(out)@ == old(out)@ + hex_fixed(n as nat, w as nat),
    decreases w,
{
    if w > 0 {
        push_hex_fixed(out, n / 16, w - 1);
        out.push(hex_digit_char(n % 16));
    }
    assert(final(out)@ =~= old(out)@ + hex_fixed(n as nat, w as nat));
}

/// Appends the hexadecimal digits of `n`, without leading zeroes.
pub fn push_hex_min(out: &mut Vec<char>, n: u64)
    ensures
        final(out)@ == old(out)@ + hex_min(n as nat),
    decreases n,
{
    if n >= 16 {
        push_hex_min(out, n / 16);
    }
    out.push(hex_digit_char(n % 16));
    assert(final(out)@ =~= old(out)@ + hex_min(n as nat));
}

/// `s` without any trailing `c`s (as `str::trim_end_matches`).
pub open spec fn strip_all_suffix(s: Seq<char>, c: char) -> Seq<char>
    decreases s.len(),
{
    if s.len() > 0 && s.last() == c {
        strip_all_suffix(s.drop_last(), c)
    } else {
        s
    }
}

/// `s` without any trailing `c`s.
pub fn trim_end_char(s: &[char], c: char) -> (r: Vec<char>)
    ensures
        r@ == strip_all_suffix(s@, c),
{
    let mut k = s.len();
    assert(s@.subrange(0, k as int) =~= s@);
    while k > 0 && s[k - 1] == c
        invariant
            k <= s@.len(),
            strip_all_suffix(s@.subrange(0, k as int), c) == strip_all_suffix(s@, c),
        decreases k,
    {
        assert(s@.subrange(0, k as int).drop_last() =~= s@.subrange(0, k - 1));
        k = k - 1;
    }
    slice_chars(s, 0, k)
}


/// `s` without its leading whitespace (as `str::trim_start`).
pub open spec fn trim_start(s: Seq<char>) -> Seq<char> {
    s.subrange(trim_start_idx(s), s.len() as int)
}

/// The number of leading whitespace characters of `s`.
pub fn leading_ws(s: &[char]) -> (r: usize)
    ensures
        r == trim_start_idx(s@),
        r <= s@.len(),
{
    let n = s.len();
    let mut a: usize = 0;
    proof {
        lemma_trim_start_idx(s@);
    }
    while a < n && is_whitespace(s[a])
        invariant
            a <= n,
            n == s@.len(),
            a <= trim_start_idx(s@),
            0 <= trim_start_idx(s@) <= s@.len(),
            forall|j: int| 0 <= j < trim_start_idx(s@) ==> is_ws(#[trigger] s@[j]),
            trim_start_idx(s@) < s@.len() ==> !is_ws(s@[trim_start_idx(s@)]),
        decreases n - a,
    {
        a = a + 1;
    }
    a
}

} // verus!
