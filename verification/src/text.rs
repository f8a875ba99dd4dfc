//! Character-sequence toolkit: the exact meaning of the `str` operations the
//! library relies on (trimming, searching, line splitting, whitespace
//! collapsing), stated over `Seq<char>` and implemented over `Vec<char>`.
use vstd::prelude::*;

verus! {

// ── Character classes ────────────────────────────────────────────────────────

/// Unicode `White_Space` (what `char::is_whitespace` tests).
pub open spec fn is_ws(c: char) -> bool {
    ||| ('\u{9}' <= c && c <= '\u{d}')
    ||| c == ' '
    ||| c == '\u{85}'
    ||| c == '\u{a0}'
    ||| c == '\u{1680}'
    ||| ('\u{2000}' <= c && c <= '\u{200a}')
    ||| c == '\u{2028}'
    ||| c == '\u{2029}'
    ||| c == '\u{202f}'
    ||| c == '\u{205f}'
    ||| c == '\u{3000}'
}

/// `char::is_ascii_digit`.
pub open spec fn is_ascii_digit(c: char) -> bool {
    '0' <= c && c <= '9'
}

/// `char::is_ascii_alphabetic`.
pub open spec fn is_ascii_alpha(c: char) -> bool {
    ('a' <= c && c <= 'z') || ('A' <= c && c <= 'Z')
}

/// `char::is_ascii_alphanumeric`.
pub open spec fn is_ascii_alnum(c: char) -> bool {
    is_ascii_alpha(c) || is_ascii_digit(c)
}

/// `char::is_control`: the Unicode `Cc` category, U+0000..=U+001F and U+007F..=U+009F.
pub open spec fn is_control(c: char) -> bool {
    c <= '\u{1f}' || ('\u{7f}' <= c && c <= '\u{9f}')
}

/// `char::to_ascii_lowercase`, as a code point.
pub open spec fn ascii_lower(c: char) -> u32 {
    if 'A' <= c && c <= 'Z' {
        (c as u32 + 32) as u32
    } else {
        c as u32
    }
}

/// The character sets the library trims by.
#[derive(Clone, Copy, PartialEq, Eq)]
pub enum CharClass {
    /// Unicode whitespace (`str::trim`).
    Whitespace,
    /// Wrapping quotes and markdown emphasis: `"` `'` `` ` `` `*` `#`.
    Wrapping,
    /// Sentence-ending punctuation: `.` `。` `!` `?`.
    EndPunct,
    /// ASCII digits.
    Digit,
    /// List-marker residue: `.` `)` `-` `*` `•` space, tab.
    ListMarker,
    /// The underscore.
    Underscore,
    /// The forward slash.
    Slash,
    /// The letter `v` (a version prefix).
    LetterV,
    /// Either path separator, `/` or `\\`.
    PathSep,
}

pub open spec fn in_class(k: CharClass, c: char) -> bool {
    match k {
        CharClass::Whitespace => is_ws(c),
        CharClass::Wrapping => c == '"' || c == '\'' || c == '`' || c == '*' || c == '#',
        CharClass::EndPunct => c == '.' || c == '\u{3002}' || c == '!' || c == '?',
        CharClass::Digit => is_ascii_digit(c),
        CharClass::ListMarker => c == '.' || c == ')' || c == '-' || c == '*' || c == '\u{2022}'
            || c == ' ' || c == '\t',
        CharClass::Underscore => c == '_',
        CharClass::Slash => c == '/',
        CharClass::LetterV => c == 'v',
        CharClass::PathSep => c == '/' || c == '\\',
    }
}

pub fn class_has(k: CharClass, c: char) -> (r: bool)
    ensures
        r == in_class(k, c),
{
    match k {
        CharClass::Whitespace => char_is_ws(c),
        CharClass::Wrapping => c == '"' || c == '\'' || c == '`' || c == '*' || c == '#',
        CharClass::EndPunct => c == '.' || c == '\u{3002}' || c == '!' || c == '?',
        CharClass::Digit => '0' <= c && c <= '9',
        CharClass::ListMarker => c == '.' || c == ')' || c == '-' || c == '*' || c == '\u{2022}'
            || c == ' ' || c == '\t',
        CharClass::Underscore => c == '_',
        CharClass::Slash => c == '/',
        CharClass::LetterV => c == 'v',
        CharClass::PathSep => c == '/' || c == '\\',
    }
}

pub fn char_is_ws(c: char) -> (r: bool)
    ensures
        r == is_ws(c),
{
    ('\u{9}' <= c && c <= '\u{d}') || c == ' ' || c == '\u{85}' || c == '\u{a0}' || c
        == '\u{1680}' || ('\u{2000}' <= c && c <= '\u{200a}') || c == '\u{2028}' || c
        == '\u{2029}' || c == '\u{202f}' || c == '\u{205f}' || c == '\u{3000}'
}

pub fn char_is_control(c: char) -> (r: bool)
    ensures
        r == is_control(c),
{
    c <= '\u{1f}' || ('\u{7f}' <= c && c <= '\u{9f}')
}

pub fn char_is_ascii_alnum(c: char) -> (r: bool)
    ensures
        r == is_ascii_alnum(c),
{
    ('a' <= c && c <= 'z') || ('A' <= c && c <= 'Z') || ('0' <= c && c <= '9')
}

pub fn char_ascii_lower(c: char) -> (r: u32)
    ensures
        r == ascii_lower(c),
{
    if 'A' <= c && c <= 'Z' {
        c as u32 + 32
    } else {
        c as u32
    }
}

// ── Trimming ─────────────────────────────────────────────────────────────────

/// The first index at or after `i` whose character is not in `k`.
pub open spec fn lead_from(s: Seq<char>, k: CharClass, i: int) -> int
    decreases s.len() - i,
{
    if 0 <= i < s.len() && in_class(k, s[i]) {
        lead_from(s, k, i + 1)
    } else {
        i
    }
}

/// The end of `s.take(j)` once trailing characters of `k` are dropped.
pub open spec fn trail_from(s: Seq<char>, k: CharClass, j: int) -> int
    decreases j,
{
    if 0 < j <= s.len() && in_class(k, s[j - 1]) {
        trail_from(s, k, j - 1)
    } else {
        j
    }
}

/// `trim_start_matches(k)`.
pub open spec fn trim_start(s: Seq<char>, k: CharClass) -> Seq<char> {
    s.skip(lead_from(s, k, 0))
}

/// `trim_end_matches(k)`.
pub open spec fn trim_end(s: Seq<char>, k: CharClass) -> Seq<char> {
    s.take(trail_from(s, k, s.len() as int))
}

/// `trim_matches(k)`; with `Whitespace` this is `str::trim`.
pub open spec fn trim(s: Seq<char>, k: CharClass) -> Seq<char> {
    trim_end(trim_start(s, k), k)
}

/// `str::trim`.
pub open spec fn trim_ws(s: Seq<char>) -> Seq<char> {
    trim(s, CharClass::Whitespace)
}

/// The leading run of class `k` from `i`: where it ends, and that it is maximal.
pub proof fn lemma_lead_from_bounds(s: Seq<char>, k: CharClass, i: int)
    requires
        0 <= i <= s.len(),
    ensures
        i <= lead_from(s, k, i) <= s.len(),
        forall|m: int| i <= m < lead_from(s, k, i) ==> in_class(k, #[trigger] s[m]),
        lead_from(s, k, i) == s.len() || !in_class(k, s[lead_from(s, k, i)]),
    decreases s.len() - i,
{
    if i < s.len() && in_class(k, s[i]) {
        lemma_lead_from_bounds(s, k, i + 1);
    }
}

/// The trailing run of class `k` before `j`: where it starts, and that it is maximal.
pub proof fn lemma_trail_from_bounds(s: Seq<char>, k: CharClass, j: int)
    requires
        0 <= j <= s.len(),
    ensures
        0 <= trail_from(s, k, j) <= j,
        forall|m: int| trail_from(s, k, j) <= m < j ==> in_class(k, #[trigger] s[m]),
        trail_from(s, k, j) == 0 || !in_class(k, s[trail_from(s, k, j) - 1]),
    decreases j,
{
    if 0 < j && in_class(k, s[j - 1]) {
        lemma_trail_from_bounds(s, k, j - 1);
    }
}

/// Copy of `v[lo..hi]`.
pub fn slice_vec(v: &Vec<char>, lo: usize, hi: usize) -> (r: Vec<char>)
    requires
        lo <= hi <= v.len(),
    ensures
        r@ == v@.subrange(lo as int, hi as int),
{
    let mut r: Vec<char> = Vec::new();
    let mut i = lo;
    while i < hi
        invariant
            lo <= i <= hi <= v.len(),
            r@ == v@.subrange(lo as int, i as int),
        decreases hi - i,
    {
        r.push(v[i]);
        proof {
            assert(v@.subrange(lo as int, i + 1) == v@.subrange(lo as int, i as int).push(v@[i as int]));
        }
        i = i + 1;
    }
    r
}

/// Index of the first character at or after `i` outside `k`.
pub fn lead_index(v: &Vec<char>, k: CharClass, i: usize) -> (r: usize)
    requires
        i <= v.len(),
    ensures
        r as int == lead_from(v@, k, i as int),
{
    let mut j = i;
    while j < v.len() && class_has(k, v[j])
        invariant
            i <= j <= v.len(),
            lead_from(v@, k, j as int) == lead_from(v@, k, i as int),
        decreases v.len() - j,
    {
        j = j + 1;
    }
    j
}

/// End index of `v.take(j)` once trailing characters of `k` are dropped.
pub fn trail_index(v: &Vec<char>, k: CharClass, j: usize) -> (r: usize)
    requires
        j <= v.len(),
    ensures
        r as int == trail_from(v@, k, j as int),
{
    let mut e = j;
    while e > 0 && class_has(k, v[e - 1])
        invariant
            e <= j <= v.len(),
            trail_from(v@, k, e as int) == trail_from(v@, k, j as int),
        decreases e,
    {
        e = e - 1;
    }
    e
}

pub fn trimmed_start(v: &Vec<char>, k: CharClass) -> (r: Vec<char>)
    ensures
        r@ == trim_start(v@, k),
{
    let a = lead_index(v, k, 0);
    proof { lemma_lead_from_bounds(v@, k, 0); }
    slice_vec(v, a, v.len())
}

pub fn trimmed_end(v: &Vec<char>, k: CharClass) -> (r: Vec<char>)
    ensures
        r@ == trim_end(v@, k),
{
    let b = trail_index(v, k, v.len());
    proof { lemma_trail_from_bounds(v@, k, v.len() as int); }
    slice_vec(v, 0, b)
}

pub fn trimmed(v: &Vec<char>, k: CharClass) -> (r: Vec<char>)
    ensures
        r@ == trim(v@, k),
{
    let s = trimmed_start(v, k);
    trimmed_end(&s, k)
}

// ── Conversions between `str`/`String` and `Vec<char>` ───────────────────────

/// The characters of `s`, in order.
pub fn chars_of(s: &str) -> (out: Vec<char>)
    ensures
        out@ == s@,
{
    let mut out: Vec<char> = Vec::new();
    for c in it: s.chars()
        invariant
            it.seq() == s@,
            out@ == it.seq().take(it.index() as int),
    {
        out.push(c);
    }
    out
}

/// `String::push`: appends one character.
#[verifier::external_body]
fn push_char(s: &mut String, c: char)
    ensures
        final(s)@ == old(s)@.push(c),
{
    s.push(c);
}

/// A `String` holding exactly the characters `v`.
pub fn string_of(v: &Vec<char>) -> (out: String)
    ensures
        out@ == v@,
{
    let mut out = String::new();
    let mut i: usize = 0;
    while i < v.len()
        invariant
            i <= v.len(),
            out@ == v@.take(i as int),
        decreases v.len() - i,
    {
        push_char(&mut out, v[i]);
        proof {
            assert(v@.take(i + 1) == v@.take(i as int).push(v@[i as int]));
        }
        i = i + 1;
    }
    proof {
        assert(v@.take(v.len() as int) == v@);
    }
    out
}

/// Appends `w` to `out`.
pub fn append_chars(out: &mut Vec<char>, w: &Vec<char>)
    ensures
        final(out)@ == old(out)@ + w@,
{
    let mut i: usize = 0;
    while i < w.len()
        invariant
            i <= w.len(),
            out@ == old(out)@ + w@.take(i as int),
        decreases w.len() - i,
    {
        out.push(w[i]);
        proof {
            assert(w@.take(i + 1) == w@.take(i as int).push(w@[i as int]));
        }
        i = i + 1;
    }
    proof {
        assert(w@.take(w.len() as int) == w@);
    }
}

/// The character sequences of a list of strings.
pub open spec fn strs(v: Seq<String>) -> Seq<Seq<char>> {
    v.map_values(|s: String| s@)
}

/// A copy of a list of strings.
pub fn clone_strings(v: &Vec<String>) -> (r: Vec<String>)
    ensures
        strs(r@) == strs(v@),
{
    let mut out: Vec<String> = Vec::new();
    let mut i: usize = 0;
    while i < v.len()
        invariant
            i <= v.len(),
            strs(out@) == strs(v@.take(i as int)),
        decreases v.len() - i,
    {
        let ghost before = out@;
        out.push(v[i].clone());
        proof {
            assert(strs(out@) =~= strs(before).push(v@[i as int]@));
            assert(v@.take(i + 1) =~= v@.take(i as int).push(v@[i as int]));
            assert(strs(v@.take(i + 1)) =~= strs(v@.take(i as int)).push(v@[i as int]@));
        }
        i = i + 1;
    }
    assert(v@.take(v.len() as int) =~= v@);
    out
}

/// `str::trim` of a string, as an owned string.
pub fn trim_string(s: &str) -> (r: String)
    ensures
        r@ == trim_ws(s@),
{
    string_of(&trimmed(&chars_of(s), CharClass::Whitespace))
}

/// The trimmed text when it is non-empty, else `default`.
pub open spec fn trimmed_or(raw: Option<Seq<char>>, default: Seq<char>) -> Seq<char> {
    match raw {
        Some(s) => if trim_ws(s).len() > 0 {
            trim_ws(s)
        } else {
            default
        },
        None => default,
    }
}

/// The trimmed text of `raw` when it is present and non-blank, else `default`.
pub fn trimmed_or_default(raw: Option<&str>, default: &str) -> (r: String)
    ensures
        r@ == trimmed_or(
            match raw {
                Some(s) => Some(s@),
                None => None,
            },
            default@,
        ),
{
    match raw {
        Some(s) => {
            let t = trimmed(&chars_of(s), CharClass::Whitespace);
            if t.len() > 0 {
                string_of(&t)
            } else {
                default.to_owned()
            }
        },
        None => default.to_owned(),
    }
}

// ── Decimal numbers ──────────────────────────────────────────────────────────

pub open spec fn digit_char(d: nat) -> char {
    if d < 10 {
        ((d as int) + 48) as char
    } else {
        '0'
    }
}

/// The decimal text of `n` (`u64`'s `Display`).
pub open spec fn decimal(n: nat) -> Seq<char>
    decreases n,
{
    if n < 10 {
        seq![digit_char(n)]
    } else {
        decimal(n / 10).push(digit_char(n % 10))
    }
}

/// `{:02}`: the decimal text, left-padded with `0` to two characters.
pub open spec fn decimal2(n: nat) -> Seq<char> {
    if n < 10 {
        seq!['0', digit_char(n)]
    } else {
        decimal(n)
    }
}

fn digit_of(d: u64) -> (c: char)
    requires
        d < 10,
    ensures
        c == digit_char(d as nat),
{
    let b: u8 = d as u8 + 48;
    b as char
}

/// Appends the decimal text of `n`.
pub fn push_decimal(out: &mut Vec<char>, n: u64)
    ensures
        final(out)@ == old(out)@ + decimal(n as nat),
    decreases n,
{
    if n < 10 {
        out.push(digit_of(n));
    } else {
        push_decimal(out, n / 10);
        out.push(digit_of(n % 10));
        proof {
            assert(decimal(n as nat) == decimal((n / 10) as nat).push(digit_char((n % 10) as nat)));
        }
    }
}

/// Appends `{:02}` of `n`.
pub fn push_decimal2(out: &mut Vec<char>, n: u64)
    ensures
        final(out)@ == old(out)@ + decimal2(n as nat),
{
    if n < 10 {
        out.push('0');
        out.push(digit_of(n));
    } else {
        push_decimal(out, n);
    }
}

// ── Searching ────────────────────────────────────────────────────────────────

/// `pat` occurs in `s` starting at `i`.
pub open spec fn occurs_at(s: Seq<char>, pat: Seq<char>, i: int) -> bool {
    0 <= i && i + pat.len() <= s.len() && s.subrange(i, i + pat.len()) == pat
}

/// The first occurrence of `pat` at or after `i` (`str::find` from `i`).
pub open spec fn find_from(s: Seq<char>, pat: Seq<char>, i: int) -> Option<int>
    decreases s.len() + 1 - i,
{
    if i < 0 || i + pat.len() > s.len() {
        None
    } else if occurs_at(s, pat, i) {
        Some(i)
    } else {
        find_from(s, pat, i + 1)
    }
}

/// `str::find`.
pub open spec fn find(s: Seq<char>, pat: Seq<char>) -> Option<int> {
    find_from(s, pat, 0)
}

/// `str::contains`.
pub open spec fn contains(s: Seq<char>, pat: Seq<char>) -> bool {
    find(s, pat) is Some
}

/// `str::starts_with`.
pub open spec fn starts_with(s: Seq<char>, pat: Seq<char>) -> bool {
    pat.len() <= s.len() && s.take(pat.len() as int) == pat
}

/// `find_from` gives the first occurrence of `pat` at or after `i`, or `None` when there is none.
pub proof fn lemma_find_from(s: Seq<char>, pat: Seq<char>, i: int)
    requires
        0 <= i,
    ensures
        find_from(s, pat, i) matches Some(j) ==> i <= j && occurs_at(s, pat, j) && forall|m: int|
            i <= m < j ==> !occurs_at(s, pat, m),
        find_from(s, pat, i) is None ==> forall|m: int| i <= m ==> !occurs_at(s, pat, m),
    decreases s.len() + 1 - i,
{
    if i + pat.len() > s.len() {
    } else if occurs_at(s, pat, i) {
    } else {
        lemma_find_from(s, pat, i + 1);
    }
}

/// `s[i..i + pat.len()] == pat`.
pub fn matches_at(v: &Vec<char>, pat: &Vec<char>, i: usize) -> (r: bool)
    requires
        i <= v.len(),
    ensures
        r == occurs_at(v@, pat@, i as int),
{
    if pat.len() > v.len() - i {
        return false;
    }
    let mut k: usize = 0;
    while k < pat.len()
        invariant
            i + pat.len() <= v.len(),
            k <= pat.len(),
            forall|m: int| 0 <= m < k ==> v@[i + m] == pat@[m],
        decreases pat.len() - k,
    {
        if v[i + k] != pat[k] {
            proof {
                assert(v@.subrange(i as int, i + pat.len())[k as int] != pat@[k as int]);
            }
            return false;
        }
        k = k + 1;
    }
    proof {
        assert(v@.subrange(i as int, i + pat.len()) =~= pat@);
    }
    true
}

/// `str::find` on characters: the first index where `pat` occurs in `v` at or after `from`.
pub fn find_index_from(v: &Vec<char>, pat: &Vec<char>, from: usize) -> (r: Option<usize>)
    requires
        from <= v.len(),
    ensures
        r matches Some(j) ==> find_from(v@, pat@, from as int) == Some(j as int),
        r is None ==> find_from(v@, pat@, from as int) is None,
{
    let mut i = from;
    while i < v.len()
        invariant
            from <= i <= v.len(),
            find_from(v@, pat@, i as int) == find_from(v@, pat@, from as int),
        decreases v.len() - i,
    {
        if pat.len() > v.len() - i {
            return None;
        }
        if matches_at(v, pat, i) {
            return Some(i);
        }
        i = i + 1;
    }
    if matches_at(v, pat, i) {
        Some(i)
    } else {
        assert(find_from(v@, pat@, i + 1) is None);
        None
    }
}

pub fn find_index(v: &Vec<char>, pat: &Vec<char>) -> (r: Option<usize>)
    ensures
        r matches Some(j) ==> find(v@, pat@) == Some(j as int),
        r is None ==> find(v@, pat@) is None,
{
    find_index_from(v, pat, 0)
}

pub fn contains_chars(v: &Vec<char>, pat: &Vec<char>) -> (r: bool)
    ensures
        r == contains(v@, pat@),
{
    find_index(v, pat).is_some()
}

/// The first index of `c` at or after `i`, or `s.len()`.
pub open spec fn index_of_char_from(s: Seq<char>, c: char, i: int) -> int
    decreases s.len() - i,
{
    if 0 <= i < s.len() && s[i] != c {
        index_of_char_from(s, c, i + 1)
    } else {
        i
    }
}

/// `index_of_char_from` gives the first `c` at or after `i`, or the length when there is none.
pub proof fn lemma_index_of_char_from(s: Seq<char>, c: char, i: int)
    requires
        0 <= i <= s.len(),
    ensures
        i <= index_of_char_from(s, c, i) <= s.len(),
        forall|m: int| i <= m < index_of_char_from(s, c, i) ==> #[trigger] s[m] != c,
        index_of_char_from(s, c, i) < s.len() ==> s[index_of_char_from(s, c, i)] == c,
    decreases s.len() - i,
{
    if i < s.len() && s[i] != c {
        lemma_index_of_char_from(s, c, i + 1);
    }
}

pub fn char_index_from(v: &Vec<char>, c: char, i: usize) -> (r: usize)
    requires
        i <= v.len(),
    ensures
        r as int == index_of_char_from(v@, c, i as int),
{
    let mut j = i;
    while j < v.len() && v[j] != c
        invariant
            i <= j <= v.len(),
            index_of_char_from(v@, c, j as int) == index_of_char_from(v@, c, i as int),
        decreases v.len() - j,
    {
        j = j + 1;
    }
    j
}

// ── Lines ────────────────────────────────────────────────────────────────────

/// One line as `str::lines` yields it: a `\r` before the `\n` is dropped.
pub open spec fn strip_cr(line: Seq<char>) -> Seq<char> {
    if line.len() > 0 && line.last() == '\r' {
        line.drop_last()
    } else {
        line
    }
}

/// `str::lines` applied to `s.skip(i)`: split at `\n` (and `\r\n`); a final line
/// ending does not produce an empty last line; a last line without `\n` keeps any `\r`.
pub open spec fn lines_from(s: Seq<char>, i: int) -> Seq<Seq<char>>
    decreases s.len() - i,
{
    if i < 0 || i >= s.len() {
        seq![]
    } else {
        let e = index_of_char_from(s, '\n', i);
        proof {
            lemma_index_of_char_from(s, '\n', i);
        }
        if e >= s.len() {
            seq![s.subrange(i, s.len() as int)]
        } else {
            seq![strip_cr(s.subrange(i, e))] + lines_from(s, e + 1)
        }
    }
}

/// `str::lines`.
pub open spec fn lines(s: Seq<char>) -> Seq<Seq<char>> {
    lines_from(s, 0)
}

pub fn strip_cr_vec(line: Vec<char>) -> (r: Vec<char>)
    ensures
        r@ == strip_cr(line@),
{
    let mut line = line;
    if line.len() > 0 && line[line.len() - 1] == '\r' {
        line.pop();
    }
    line
}

pub open spec fn views_of(v: Seq<Vec<char>>) -> Seq<Seq<char>> {
    v.map_values(|x: Vec<char>| x@)
}

/// `str::lines`.
pub fn lines_of(v: &Vec<char>) -> (r: Vec<Vec<char>>)
    ensures
        views_of(r@) == lines(v@),
{
    let mut out: Vec<Vec<char>> = Vec::new();
    let mut i: usize = 0;
    while i < v.len()
        invariant
            i <= v.len(),
            lines(v@) == views_of(out@) + lines_from(v@, i as int),
        decreases v.len() - i,
    {
        let e = char_index_from(v, '\n', i);
        proof { lemma_index_of_char_from(v@, '\n', i as int); }
        if e >= v.len() {
            let line = slice_vec(v, i, v.len());
            proof {
                assert(lines_from(v@, v.len() as int) == Seq::<Seq<char>>::empty());
                assert(views_of(out@.push(line)) =~= views_of(out@).push(line@));
            }
            out.push(line);
            i = v.len();
        } else {
            let line = strip_cr_vec(slice_vec(v, i, e));
            proof {
                assert(views_of(out@.push(line)) =~= views_of(out@).push(line@));
                assert(lines_from(v@, i as int) == seq![line@] + lines_from(v@, e + 1));
            }
            out.push(line);
            i = e + 1;
        }
    }
    proof {
        assert(lines_from(v@, i as int) == Seq::<Seq<char>>::empty());
    }
    out
}


// ── Whitespace-separated words ───────────────────────────────────────────────

/// The first index at or after `i` that holds whitespace (or `s.len()`).
pub open spec fn word_end_from(s: Seq<char>, i: int) -> int
    decreases s.len() - i,
{
    if 0 <= i < s.len() && !is_ws(s[i]) {
        word_end_from(s, i + 1)
    } else {
        i
    }
}

/// `word_end_from` gives the first whitespace at or after `i`, or the length when there is none.
pub proof fn lemma_word_end_from(s: Seq<char>, i: int)
    requires
        0 <= i <= s.len(),
    ensures
        i <= word_end_from(s, i) <= s.len(),
        forall|m: int| i <= m < word_end_from(s, i) ==> !is_ws(#[trigger] s[m]),
        word_end_from(s, i) < s.len() ==> is_ws(s[word_end_from(s, i)]),
    decreases s.len() - i,
{
    if i < s.len() && !is_ws(s[i]) {
        lemma_word_end_from(s, i + 1);
    }
}

/// `str::split_whitespace` applied to `s.skip(i)`.
pub open spec fn words_from(s: Seq<char>, i: int) -> Seq<Seq<char>>
    decreases s.len() - i,
{
    if i < 0 || i > s.len() {
        seq![]
    } else {
        let j = lead_from(s, CharClass::Whitespace, i);
        proof {
            lemma_lead_from_bounds(s, CharClass::Whitespace, i);
        }
        if j >= s.len() {
            seq![]
        } else {
            let e = word_end_from(s, j);
            proof {
                lemma_word_end_from(s, j);
            }
            seq![s.subrange(j, e)] + words_from(s, e)
        }
    }
}

/// `str::split_whitespace`.
pub open spec fn words(s: Seq<char>) -> Seq<Seq<char>> {
    words_from(s, 0)
}

/// `join(" ")`.
pub open spec fn join_space(ws: Seq<Seq<char>>) -> Seq<char>
    decreases ws.len(),
{
    if ws.len() == 0 {
        seq![]
    } else if ws.len() == 1 {
        ws[0]
    } else {
        join_space(ws.drop_last()) + seq![' '] + ws.last()
    }
}

/// `split_whitespace().collect::<Vec<_>>().join(" ")`.
pub open spec fn collapse_ws(s: Seq<char>) -> Seq<char> {
    join_space(words(s))
}

/// `t` is a contiguous piece of `s`.
pub open spec fn is_piece(s: Seq<char>, t: Seq<char>) -> bool {
    exists|lo: int, hi: int| 0 <= lo <= hi <= s.len() && t == #[trigger] s.subrange(lo, hi)
}

/// `contains` is some occurrence.
pub proof fn lemma_contains_occurs(s: Seq<char>, pat: Seq<char>)
    ensures
        contains(s, pat) <==> exists|j: int| #[trigger] occurs_at(s, pat, j),
{
    lemma_find_from(s, pat, 0);
    if contains(s, pat) {
        let j = find(s, pat)->0;
        assert(occurs_at(s, pat, j));
    } else {
        assert forall|j: int| !#[trigger] occurs_at(s, pat, j) by {
            if j >= 0 {
                assert(!occurs_at(s, pat, j));
            }
        }
    }
}

/// A piece of a text holds no pattern and no character the text lacks.
pub proof fn lemma_piece_keeps_absence(s: Seq<char>, t: Seq<char>, pat: Seq<char>, c: char)
    requires
        is_piece(s, t),
    ensures
        !contains(s, pat) ==> !contains(t, pat),
        !s.contains(c) ==> !t.contains(c),
{
    let (lo, hi) = choose|lo: int, hi: int| 0 <= lo <= hi <= s.len() && t == #[trigger] s.subrange(lo, hi);
    lemma_contains_occurs(s, pat);
    lemma_contains_occurs(t, pat);
    if contains(t, pat) {
        let j = choose|j: int| #[trigger] occurs_at(t, pat, j);
        assert(s.subrange(lo + j, lo + j + pat.len()) =~= t.subrange(j, j + pat.len()));
        assert(occurs_at(s, pat, lo + j));
    }
    if t.contains(c) {
        let k = choose|k: int| 0 <= k < t.len() && t[k] == c;
        assert(s[lo + k] == c);
    }
}

/// A piece of a piece is a piece.
pub proof fn lemma_piece_trans(s: Seq<char>, t: Seq<char>, u: Seq<char>)
    requires
        is_piece(s, t),
        is_piece(t, u),
    ensures
        is_piece(s, u),
{
    let (a, b) = choose|lo: int, hi: int| 0 <= lo <= hi <= s.len() && t == #[trigger] s.subrange(lo, hi);
    let (c, d) = choose|lo: int, hi: int| 0 <= lo <= hi <= t.len() && u == #[trigger] t.subrange(lo, hi);
    assert(u =~= s.subrange(a + c, a + d));
}

/// Trimming keeps a piece: `trim_start`, `trim_end`, `trim` and `trim_ws` each
/// give a piece of their argument.
pub proof fn lemma_trims_are_pieces(s: Seq<char>, k: CharClass)
    ensures
        is_piece(s, trim_start(s, k)),
        is_piece(s, trim_end(s, k)),
        is_piece(s, trim(s, k)),
        is_piece(s, s),
{
    lemma_lead_from_bounds(s, k, 0);
    let a = lead_from(s, k, 0);
    assert(trim_start(s, k) =~= s.subrange(a, s.len() as int));
    lemma_trail_from_bounds(s, k, s.len() as int);
    let b = trail_from(s, k, s.len() as int);
    assert(trim_end(s, k) =~= s.subrange(0, b));
    assert(s =~= s.subrange(0, s.len() as int));
    let x = trim_start(s, k);
    lemma_trail_from_bounds(x, k, x.len() as int);
    let e = trail_from(x, k, x.len() as int);
    assert(trim_end(x, k) =~= x.subrange(0, e));
    lemma_piece_trans(s, x, trim_end(x, k));
}

/// Each line of a text is a piece of it, with no newline.
pub proof fn lemma_lines_are_pieces(s: Seq<char>, i: int)
    ensures
        forall|n: int|
            0 <= n < lines_from(s, i).len() ==> is_piece(s, #[trigger] lines_from(s, i)[n])
                && !lines_from(s, i)[n].contains('\n'),
    decreases s.len() - i,
{
    if 0 <= i < s.len() {
        let e = index_of_char_from(s, '\n', i);
        lemma_index_of_char_from(s, '\n', i);
        let ls = lines_from(s, i);
        if e >= s.len() {
            let l = s.subrange(i, s.len() as int);
            assert(ls[0] == l);
            assert(is_piece(s, l));
            assert(!l.contains('\n')) by {
                if l.contains('\n') {
                    let q = choose|q: int| 0 <= q < l.len() && l[q] == '\n';
                    assert(s[i + q] == '\n');
                }
            }
        } else {
            lemma_lines_are_pieces(s, e + 1);
            let raw = s.subrange(i, e);
            let l = strip_cr(raw);
            assert(l =~= s.subrange(i, if raw.len() > 0 && raw.last() == '\r' { e - 1 } else { e }));
            assert(!l.contains('\n')) by {
                if l.contains('\n') {
                    let q = choose|q: int| 0 <= q < l.len() && l[q] == '\n';
                    assert(s[i + q] == '\n');
                }
            }
            assert forall|n: int| 0 <= n < ls.len() implies is_piece(s, #[trigger] ls[n]) && !ls[n].contains(
                '\n',
            ) by {
                if n == 0 {
                    assert(ls[0] == l);
                } else {
                    assert(ls[n] == lines_from(s, e + 1)[n - 1]);
                }
            }
        }
    }
}

/// Each word of a text is a piece of it.
pub proof fn lemma_words_are_pieces(s: Seq<char>, i: int)
    ensures
        forall|n: int| 0 <= n < words_from(s, i).len() ==> is_piece(s, #[trigger] words_from(s, i)[n]),
    decreases s.len() - i,
{
    if 0 <= i <= s.len() {
        let j = lead_from(s, CharClass::Whitespace, i);
        lemma_lead_from_bounds(s, CharClass::Whitespace, i);
        if j < s.len() {
            let e = word_end_from(s, j);
            lemma_word_end_from(s, j);
            lemma_words_are_pieces(s, e);
            let ws = words_from(s, i);
            assert forall|n: int| 0 <= n < ws.len() implies is_piece(s, #[trigger] ws[n]) by {
                if n == 0 {
                    assert(ws[0] == s.subrange(j, e));
                } else {
                    assert(ws[n] == words_from(s, e)[n - 1]);
                }
            }
        }
    }
}

/// Joining words with single spaces brings in no pattern that holds no space
/// and is in none of the words.
pub proof fn lemma_join_space_keeps_absence(ws: Seq<Seq<char>>, pat: Seq<char>)
    requires
        pat.len() > 0,
        !pat.contains(' '),
        forall|n: int| 0 <= n < ws.len() ==> !contains(#[trigger] ws[n], pat),
    ensures
        !contains(join_space(ws), pat),
    decreases ws.len(),
{
    if ws.len() == 1 {
        assert(!contains(ws[0], pat));
    } else if ws.len() > 1 {
        let init = ws.drop_last();
        assert forall|n: int| 0 <= n < init.len() implies !contains(#[trigger] init[n], pat) by {
            assert(init[n] == ws[n]);
        }
        lemma_join_space_keeps_absence(init, pat);
        let a = join_space(init);
        let b = ws.last();
        assert(!contains(ws[ws.len() - 1], pat));
        let r = join_space(ws);
        assert(r == a + seq![' '] + b);
        lemma_contains_occurs(r, pat);
        lemma_contains_occurs(a, pat);
        lemma_contains_occurs(b, pat);
        if contains(r, pat) {
            let j = choose|j: int| #[trigger] occurs_at(r, pat, j);
            let n = pat.len();
            if j + n <= a.len() {
                assert(a.subrange(j, j + n) =~= r.subrange(j, j + n));
                assert(occurs_at(a, pat, j));
            } else if j > a.len() {
                assert(b.subrange(j - a.len() - 1, j - a.len() - 1 + n) =~= r.subrange(j, j + n));
                assert(occurs_at(b, pat, j - a.len() - 1));
            } else {
                let q = a.len() - j;
                assert(r.subrange(j, j + n)[q] == r[a.len() as int]);
                assert(pat[q] == ' ');
                assert(pat.contains(' '));
            }
        }
    }
}

/// Trimming trimmed text changes nothing.
pub proof fn lemma_trim_ws_idempotent(s: Seq<char>)
    ensures
        trim_ws(trim_ws(s)) == trim_ws(s),
{
    let k = CharClass::Whitespace;
    lemma_lead_from_bounds(s, k, 0);
    let a = lead_from(s, k, 0);
    let x = s.skip(a);
    lemma_trail_from_bounds(x, k, x.len() as int);
    let b = trail_from(x, k, x.len() as int);
    let r = trim_ws(s);
    assert(r == x.take(b));
    if r.len() > 0 {
        assert(r[0] == s[a]);
        assert(r[r.len() - 1] == x[b - 1]);
    }
    assert(lead_from(r, k, 0) == 0);
    assert(r.skip(0) =~= r);
    lemma_trail_from_bounds(r, k, r.len() as int);
    assert(trail_from(r, k, r.len() as int) == r.len());
    assert(r.take(r.len() as int) =~= r);
}

/// Two spaces at `k`.
pub open spec fn two_spaces_at(s: Seq<char>, k: int) -> bool {
    s[k] == ' ' && s[k + 1] == ' '
}

/// Text whose only whitespace is single plain spaces between other characters:
/// no other whitespace (no newline), never two spaces in a row, none at either
/// end.
pub open spec fn single_spaced(s: Seq<char>) -> bool {
    &&& forall|k: int| 0 <= k < s.len() && is_ws(#[trigger] s[k]) ==> s[k] == ' '
    &&& forall|k: int| 0 <= k < s.len() - 1 ==> !#[trigger] two_spaces_at(s, k)
    &&& s.len() > 0 ==> !is_ws(s[0]) && !is_ws(s[s.len() - 1])
}

/// A word: non-empty, with no whitespace.
pub open spec fn is_word(w: Seq<char>) -> bool {
    w.len() > 0 && forall|k: int| 0 <= k < w.len() ==> !is_ws(#[trigger] w[k])
}

pub proof fn lemma_words_from_are_words(s: Seq<char>, i: int)
    ensures
        forall|n: int| 0 <= n < words_from(s, i).len() ==> is_word(#[trigger] words_from(s, i)[n]),
    decreases s.len() - i,
{
    if 0 <= i <= s.len() {
        let j = lead_from(s, CharClass::Whitespace, i);
        lemma_lead_from_bounds(s, CharClass::Whitespace, i);
        if j < s.len() {
            let e = word_end_from(s, j);
            lemma_word_end_from(s, j);
            assert(e > j);
            lemma_words_from_are_words(s, e);
            let w = s.subrange(j, e);
            assert(is_word(w)) by {
                assert forall|k: int| 0 <= k < w.len() implies !is_ws(#[trigger] w[k]) by {
                    assert(w[k] == s[j + k]);
                }
            }
            let ws = words_from(s, i);
            assert forall|n: int| 0 <= n < ws.len() implies is_word(#[trigger] ws[n]) by {
                if n > 0 {
                    assert(ws[n] == words_from(s, e)[n - 1]);
                }
            }
        }
    }
}

pub proof fn lemma_join_space_single_spaced(ws: Seq<Seq<char>>)
    requires
        forall|n: int| 0 <= n < ws.len() ==> is_word(#[trigger] ws[n]),
    ensures
        single_spaced(join_space(ws)),
        ws.len() > 0 ==> join_space(ws).len() > 0,
    decreases ws.len(),
{
    if ws.len() == 1 {
        assert(is_word(ws[0]));
    } else if ws.len() > 1 {
        let init = ws.drop_last();
        assert forall|n: int| 0 <= n < init.len() implies is_word(#[trigger] init[n]) by {
            assert(init[n] == ws[n]);
        }
        lemma_join_space_single_spaced(init);
        let p = join_space(init);
        let l = ws.last();
        assert(is_word(ws[ws.len() - 1]));
        let r = join_space(ws);
        assert(r == p + seq![' '] + l);
        assert forall|k: int| 0 <= k < r.len() && is_ws(#[trigger] r[k]) implies r[k] == ' ' by {
            if k < p.len() {
                assert(r[k] == p[k]);
            } else if k > p.len() {
                assert(r[k] == l[k - p.len() - 1]);
            }
        }
        assert forall|k: int| 0 <= k < r.len() - 1 implies !#[trigger] two_spaces_at(r, k) by {
            if k < p.len() - 1 {
                assert(r[k] == p[k] && r[k + 1] == p[k + 1]);
                assert(!two_spaces_at(p, k));
            } else if k == p.len() - 1 {
                assert(r[k] == p[p.len() - 1]);
            } else if k == p.len() {
                assert(r[k + 1] == l[0]);
            } else {
                assert(r[k] == l[k - p.len() - 1]);
            }
        }
        assert(r[0] == p[0]);
        assert(r[r.len() - 1] == l[l.len() - 1]);
    }
}

/// `collapse_ws` leaves single-spaced text.
pub proof fn lemma_collapse_ws_single_spaced(s: Seq<char>)
    ensures
        single_spaced(collapse_ws(s)),
{
    lemma_words_from_are_words(s, 0);
    lemma_join_space_single_spaced(words(s));
}

/// Cutting single-spaced text and trimming the cut leaves single-spaced text.
pub proof fn lemma_trimmed_cut_single_spaced(s: Seq<char>, n: int)
    requires
        single_spaced(s),
        0 <= n <= s.len(),
    ensures
        single_spaced(trim_ws(s.take(n))),
{
    let c = s.take(n);
    let k = CharClass::Whitespace;
    lemma_lead_from_bounds(c, k, 0);
    let a = lead_from(c, k, 0);
    let x = c.skip(a);
    lemma_trail_from_bounds(x, k, x.len() as int);
    let b = trail_from(x, k, x.len() as int);
    let r = trim_ws(c);
    assert(r == x.take(b));
    assert forall|i: int| 0 <= i < r.len() && is_ws(#[trigger] r[i]) implies r[i] == ' ' by {
        assert(r[i] == s[a + i]);
    }
    assert forall|i: int| 0 <= i < r.len() - 1 implies !#[trigger] two_spaces_at(r, i) by {
        assert(r[i] == s[a + i] && r[i + 1] == s[a + i + 1]);
        assert(!two_spaces_at(s, a + i));
    }
    if r.len() > 0 {
        assert(r[0] == c[a]);
        assert(r[r.len() - 1] == x[b - 1]);
    }
}

pub fn word_end_index(v: &Vec<char>, i: usize) -> (r: usize)
    requires
        i <= v.len(),
    ensures
        r as int == word_end_from(v@, i as int),
{
    let mut j = i;
    while j < v.len() && !char_is_ws(v[j])
        invariant
            i <= j <= v.len(),
            word_end_from(v@, j as int) == word_end_from(v@, i as int),
        decreases v.len() - j,
    {
        j = j + 1;
    }
    j
}

/// Collapses every whitespace run to one space and drops leading/trailing whitespace.
pub fn collapsed_ws(v: &Vec<char>) -> (r: Vec<char>)
    ensures
        r@ == collapse_ws(v@),
{
    let mut out: Vec<char> = Vec::new();
    let ghost mut taken: Seq<Seq<char>> = seq![];
    let mut count: usize = 0;
    let mut i: usize = 0;
    loop
        invariant
            i <= v.len(),
            words(v@) == taken + words_from(v@, i as int),
            out@ == join_space(taken),
            count == taken.len(),
            count <= i,
        ensures
            out@ == collapse_ws(v@),
        decreases v.len() - i,
    {
        let j = lead_index(v, CharClass::Whitespace, i);
        proof {
            lemma_lead_from_bounds(v@, CharClass::Whitespace, i as int);
        }
        if j >= v.len() {
            proof {
                assert(words_from(v@, i as int) == Seq::<Seq<char>>::empty());
                assert(taken + Seq::<Seq<char>>::empty() == taken);
            }
            break;
        }
        let e = word_end_index(v, j);
        proof {
            lemma_word_end_from(v@, j as int);
        }
        let word = slice_vec(v, j, e);
        proof {
            assert(words_from(v@, i as int) == seq![word@] + words_from(v@, e as int));
            assert(taken + words_from(v@, i as int) == taken.push(word@) + words_from(
                v@,
                e as int,
            ));
            assert(taken.push(word@).drop_last() == taken);
        }
        if count > 0 {
            out.push(' ');
        }
        append_chars(&mut out, &word);
        proof {
            taken = taken.push(word@);
        }
        count = count + 1;
        i = e;
    }
    out
}

/// The first `n` characters (`chars().take(n)`).
pub fn take_chars(v: &Vec<char>, n: usize) -> (r: Vec<char>)
    ensures
        r@ == v@.take(if n <= v.len() { n as int } else { v.len() as int }),
{
    if n <= v.len() {
        slice_vec(v, 0, n)
    } else {
        slice_vec(v, 0, v.len())
    }
}


// ── UTF-8 length ─────────────────────────────────────────────────────────────

/// Bytes in the UTF-8 encoding of `c`.
pub open spec fn utf8_width(c: char) -> nat {
    if c as u32 <= 0x7f {
        1
    } else if c as u32 <= 0x7ff {
        2
    } else if c as u32 <= 0xffff {
        3
    } else {
        4
    }
}

/// A character encodes to `utf8_width` bytes.
pub proof fn lemma_encode_scalar_len(c: char)
    ensures
        vstd::utf8::encode_scalar(c as u32).len() == utf8_width(c),
{
    vstd::utf8::char_is_scalar(c);
}

/// The byte length of the UTF-8 encoding of `v` (what `str::len` counts), known to
/// be at most `limit`.
pub fn utf8_len_bounded(v: &Vec<char>, limit: usize) -> (r: usize)
    requires
        vstd::utf8::encode_utf8(v@).len() <= limit,
    ensures
        r == vstd::utf8::encode_utf8(v@).len(),
{
    let mut i = v.len();
    let mut acc: usize = 0;
    proof {
        assert(v@.skip(v.len() as int) =~= Seq::<char>::empty());
    }
    while i > 0
        invariant
            i <= v.len(),
            vstd::utf8::encode_utf8(v@).len() <= limit,
            acc == vstd::utf8::encode_utf8(v@.skip(i as int)).len(),
        decreases i,
    {
        let c = v[i - 1];
        let w: usize = if (c as u32) <= 0x7f {
            1
        } else if (c as u32) <= 0x7ff {
            2
        } else if (c as u32) <= 0xffff {
            3
        } else {
            4
        };
        proof {
            lemma_encode_scalar_len(c);
            assert(v@.skip(i - 1).drop_first() =~= v@.skip(i as int));
            assert(v@.skip(i - 1)[0] == c);
            assert(vstd::utf8::encode_utf8(v@.skip(i - 1)).len() == w + acc);
            lemma_encode_utf8_skip_mono(v@, 0, i - 1);
            assert(v@.skip(0) =~= v@);
        }
        acc = acc + w;
        i = i - 1;
    }
    proof {
        assert(v@.skip(0) =~= v@);
    }
    acc
}

/// Whether the UTF-8 encoding of `v` (what `str::len` counts) has at most `limit` bytes.
pub fn utf8_len_at_most(v: &Vec<char>, limit: usize) -> (r: bool)
    ensures
        r == (vstd::utf8::encode_utf8(v@).len() <= limit),
{
    let mut i = v.len();
    let mut acc: usize = 0;
    proof {
        assert(v@.skip(v.len() as int) =~= Seq::<char>::empty());
    }
    while i > 0
        invariant
            i <= v.len(),
            acc <= limit,
            acc == vstd::utf8::encode_utf8(v@.skip(i as int)).len(),
        decreases i,
    {
        let c = v[i - 1];
        let w: usize = if (c as u32) <= 0x7f {
            1
        } else if (c as u32) <= 0x7ff {
            2
        } else if (c as u32) <= 0xffff {
            3
        } else {
            4
        };
        proof {
            lemma_encode_scalar_len(c);
            assert(v@.skip(i - 1).drop_first() =~= v@.skip(i as int));
            assert(v@.skip(i - 1)[0] == c);
            assert(vstd::utf8::encode_utf8(v@.skip(i - 1)).len() == w + acc);
        }
        if w > limit - acc {
            proof {
                lemma_encode_utf8_skip_mono(v@, 0, i - 1);
                assert(v@.skip(0) =~= v@);
            }
            return false;
        }
        acc = acc + w;
        i = i - 1;
    }
    proof {
        assert(v@.skip(0) =~= v@);
    }
    true
}

/// The longest prefix of `s` whose UTF-8 encoding has at most `b` bytes.
pub open spec fn prefix_within(s: Seq<char>, b: int) -> Seq<char>
    decreases s.len(),
{
    if s.len() == 0 {
        s
    } else if utf8_width(s[0]) > b {
        Seq::empty()
    } else {
        seq![s[0]] + prefix_within(s.drop_first(), b - utf8_width(s[0]))
    }
}

/// The longest prefix of `v` whose UTF-8 encoding has at most `limit` bytes.
pub fn utf8_prefix(v: &Vec<char>, limit: usize) -> (r: Vec<char>)
    ensures
        r@ == prefix_within(v@, limit as int),
{
    let mut i: usize = 0;
    let mut acc: usize = 0;
    proof {
        assert(v@.skip(0) =~= v@);
        assert(v@.take(0) + v@ =~= v@);
    }
    while i < v.len()
        invariant
            i <= v.len(),
            acc <= limit,
            prefix_within(v@, limit as int) == v@.take(i as int) + prefix_within(
                v@.skip(i as int),
                limit - acc,
            ),
        decreases v.len() - i,
    {
        let c = v[i];
        let w: usize = if (c as u32) <= 0x7f {
            1
        } else if (c as u32) <= 0x7ff {
            2
        } else if (c as u32) <= 0xffff {
            3
        } else {
            4
        };
        proof {
            assert(v@.skip(i as int).drop_first() =~= v@.skip(i + 1));
            assert(v@.skip(i as int)[0] == c);
            assert(w == utf8_width(c));
        }
        if w > limit - acc {
            proof {
                assert(v@.take(i as int) + Seq::<char>::empty() =~= v@.take(i as int));
            }
            return slice_vec(v, 0, i);
        }
        proof {
            let rest = prefix_within(v@.skip(i + 1), limit - acc - w);
            assert(v@.take(i as int) + (seq![c] + rest) =~= v@.take(i + 1) + rest);
        }
        acc = acc + w;
        i = i + 1;
    }
    proof {
        assert(v@.skip(i as int) =~= Seq::<char>::empty());
        assert(v@.take(i as int) + Seq::<char>::empty() =~= v@.take(i as int));
        assert(v@.take(i as int) =~= v@);
    }
    slice_vec(v, 0, v.len())
}

/// Dropping more characters leaves no more UTF-8 bytes.
pub proof fn lemma_encode_utf8_skip_mono(s: Seq<char>, a: int, b: int)
    requires
        0 <= a <= b <= s.len(),
    ensures
        vstd::utf8::encode_utf8(s.skip(a)).len() >= vstd::utf8::encode_utf8(s.skip(b)).len(),
    decreases b - a,
{
    if a < b {
        lemma_encode_utf8_skip_mono(s, a + 1, b);
        assert(s.skip(a).drop_first() =~= s.skip(a + 1));
    }
}


// ── ASCII case ───────────────────────────────────────────────────────────────

/// `str::eq_ignore_ascii_case`.
pub open spec fn eq_ignore_ascii_case(a: Seq<char>, b: Seq<char>) -> bool {
    a.len() == b.len() && forall|i: int| 0 <= i < a.len() ==> ascii_lower(#[trigger] a[i])
        == ascii_lower(b[i])
}

pub fn eq_ignore_ascii_case_vec(a: &Vec<char>, b: &Vec<char>) -> (r: bool)
    ensures
        r == eq_ignore_ascii_case(a@, b@),
{
    if a.len() != b.len() {
        return false;
    }
    let mut i: usize = 0;
    while i < a.len()
        invariant
            a.len() == b.len(),
            i <= a.len(),
            forall|m: int| 0 <= m < i ==> ascii_lower(#[trigger] a@[m]) == ascii_lower(b@[m]),
        decreases a.len() - i,
    {
        if char_ascii_lower(a[i]) != char_ascii_lower(b[i]) {
            return false;
        }
        i = i + 1;
    }
    true
}

/// Equality of two character vectors.
pub fn eq_chars(a: &Vec<char>, b: &Vec<char>) -> (r: bool)
    ensures
        r == (a@ == b@),
{
    if a.len() != b.len() {
        return false;
    }
    let mut i: usize = 0;
    while i < a.len()
        invariant
            a.len() == b.len(),
            i <= a.len(),
            forall|m: int| 0 <= m < i ==> a@[m] == b@[m],
        decreases a.len() - i,
    {
        if a[i] != b[i] {
            return false;
        }
        i = i + 1;
    }
    assert(a@ =~= b@);
    true
}

/// `str::starts_with`.
pub fn starts_with_chars(v: &Vec<char>, pat: &Vec<char>) -> (r: bool)
    ensures
        r == starts_with(v@, pat@),
{
    let m = matches_at(v, pat, 0);
    proof {
        if m {
            assert(v@.subrange(0, pat@.len() as int) == v@.take(pat@.len() as int));
        } else if pat@.len() <= v@.len() {
            assert(v@.subrange(0, pat@.len() as int) == v@.take(pat@.len() as int));
        }
    }
    m
}

/// Whether `c` occurs in `v`.
pub fn has_char(v: &Vec<char>, c: char) -> (r: bool)
    ensures
        r == v@.contains(c),
{
    let mut i: usize = 0;
    while i < v.len()
        invariant
            i <= v.len(),
            forall|m: int| 0 <= m < i ==> v@[m] != c,
        decreases v.len() - i,
    {
        if v[i] == c {
            return true;
        }
        i = i + 1;
    }
    false
}


// ── Replacement ──────────────────────────────────────────────────────────────

/// `str::replace` for a non-empty pattern: every non-overlapping occurrence of
/// `pat`, scanning left to right, replaced by `rep`.
pub open spec fn replace_all(s: Seq<char>, pat: Seq<char>, rep: Seq<char>) -> Seq<char>
    decreases s.len(),
{
    if pat.len() == 0 {
        s
    } else {
        match find(s, pat) {
            None => s,
            Some(i) => {
                proof {
                    lemma_find_from(s, pat, 0);
                }
                s.take(i) + rep + replace_all(s.skip(i + pat.len()), pat, rep)
            },
        }
    }
}

pub fn replace_all_chars(v: &Vec<char>, pat: &Vec<char>, rep: &Vec<char>) -> (r: Vec<char>)
    requires
        pat.len() > 0,
    ensures
        r@ == replace_all(v@, pat@, rep@),
{
    let mut out: Vec<char> = Vec::new();
    let mut rest = slice_vec(v, 0, v.len());
    assert(rest@ == v@);
    loop
        invariant
            pat.len() > 0,
            replace_all(v@, pat@, rep@) == out@ + replace_all(rest@, pat@, rep@),
        decreases rest.len(),
    {
        match find_index(&rest, pat) {
            None => {
                append_chars(&mut out, &rest);
                return out;
            },
            Some(i) => {
                proof {
                    lemma_find_from(rest@, pat@, 0);
                }
                let head = slice_vec(&rest, 0, i);
                let tail = slice_vec(&rest, i + pat.len(), rest.len());
                proof {
                    assert(replace_all(rest@, pat@, rep@) == head@ + rep@ + replace_all(tail@, pat@, rep@));
                    assert(out@ + (head@ + rep@ + replace_all(tail@, pat@, rep@)) == out@ + head@ + rep@ + replace_all(tail@, pat@, rep@));
                }
                append_chars(&mut out, &head);
                append_chars(&mut out, rep);
                rest = tail;
            },
        }
    }
}

}
