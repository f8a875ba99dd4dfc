//! Cleaning model replies into chat titles and follow-up suggestions, and the
//! first-pass title derived from a conversation's first message.
use vstd::prelude::*;
use vstd::utf8::encode_utf8;
use crate::text::{
    CharClass, append_chars, eq_ignore_ascii_case, eq_ignore_ascii_case_vec, lead_from, lemma_lead_from_bounds, trail_from,
    lemma_trail_from_bounds, lines_from, trim_start, trimmed_start, chars_of, collapse_ws, collapsed_ws, contains, contains_chars, find,
    find_index, lemma_find_from, lines, lines_of, occurs_at, slice_vec, string_of, take_chars,
    trim, trim_end, trim_ws, trimmed, trimmed_end, utf8_len_at_most, views_of,
};

verus! {

// ── Fixed patterns ───────────────────────────────────────────────────────────

/// `<think>`.
pub open spec fn think_open() -> Seq<char> {
    seq!['<', 't', 'h', 'i', 'n', 'k', '>']
}

/// `</think>`.
pub open spec fn think_close() -> Seq<char> {
    seq!['<', '/', 't', 'h', 'i', 'n', 'k', '>']
}

/// `<think` (an opening tag fragment).
pub open spec fn think_open_frag() -> Seq<char> {
    seq!['<', 't', 'h', 'i', 'n', 'k']
}

/// `</think` (a closing tag fragment).
pub open spec fn think_close_frag() -> Seq<char> {
    seq!['<', '/', 't', 'h', 'i', 'n', 'k']
}

/// `title`.
pub open spec fn title_word() -> Seq<char> {
    seq!['t', 'i', 't', 'l', 'e']
}

fn think_open_vec() -> (r: Vec<char>)
    ensures
        r@ == think_open(),
{
    let r = vec!['<', 't', 'h', 'i', 'n', 'k', '>'];
    assert(r@ == think_open());
    r
}

fn think_close_vec() -> (r: Vec<char>)
    ensures
        r@ == think_close(),
{
    let r = vec!['<', '/', 't', 'h', 'i', 'n', 'k', '>'];
    assert(r@ == think_close());
    r
}

fn think_open_frag_vec() -> (r: Vec<char>)
    ensures
        r@ == think_open_frag(),
{
    let r = vec!['<', 't', 'h', 'i', 'n', 'k'];
    assert(r@ == think_open_frag());
    r
}

fn think_close_frag_vec() -> (r: Vec<char>)
    ensures
        r@ == think_close_frag(),
{
    let r = vec!['<', '/', 't', 'h', 'i', 'n', 'k'];
    assert(r@ == think_close_frag());
    r
}

fn title_word_vec() -> (r: Vec<char>)
    ensures
        r@ == title_word(),
{
    let r = vec!['t', 'i', 't', 'l', 'e'];
    assert(r@ == title_word());
    r
}

// ── Reasoning blocks ─────────────────────────────────────────────────────────

/// Removes the first `<think>…</think>` block. `None` when a block is opened but
/// never closed (a reply truncated mid-reasoning has nothing to salvage).
pub open spec fn strip_think(s: Seq<char>) -> Option<Seq<char>> {
    match find(s, think_open()) {
        None => Some(s),
        Some(start) => match find(s.skip(start), think_close()) {
            None => None,
            Some(rel) => Some(s.take(start) + s.skip(start + rel + think_close().len())),
        },
    }
}

/// A stray `<think` or `</think` fragment.
pub open spec fn has_think_fragment(s: Seq<char>) -> bool {
    contains(s, think_open_frag()) || contains(s, think_close_frag())
}

fn strip_think_block(v: &Vec<char>) -> (r: Option<Vec<char>>)
    ensures
        r matches Some(x) ==> strip_think(v@) == Some(x@),
        r is None ==> strip_think(v@) is None,
{
    let open = think_open_vec();
    let close = think_close_vec();
    match find_index(v, &open) {
        None => Some(slice_vec(v, 0, v.len())),
        Some(start) => {
            proof {
                lemma_find_from(v@, open@, 0);
            }
            let tail = slice_vec(v, start, v.len());
            assert(tail@ == v@.skip(start as int));
            match find_index(&tail, &close) {
                None => None,
                Some(rel) => {
                    proof {
                        lemma_find_from(tail@, close@, 0);
                    }
                    let after = start + rel + 8;
                    let mut out = slice_vec(v, 0, start);
                    let rest = slice_vec(v, after, v.len());
                    append_chars(&mut out, &rest);
                    Some(out)
                },
            }
        },
    }
}

fn has_think_fragment_vec(v: &Vec<char>) -> (r: bool)
    ensures
        r == has_think_fragment(v@),
{
    let a = think_open_frag_vec();
    let b = think_close_frag_vec();
    contains_chars(v, &a) || contains_chars(v, &b)
}

// ── Titles ───────────────────────────────────────────────────────────────────

/// `str::to_lowercase` (full Unicode lowercase mapping) — named, not restated.
pub uninterp spec fn lowercase(s: Seq<char>) -> Seq<char>;

/// Calls `str::to_lowercase`; the result is the Unicode lowercase mapping of `s`,
/// which depends on `s` alone and is named `lowercase` rather than spelled out.
#[verifier::external_body]
pub(crate) fn to_lowercase(s: &str) -> (r: String)
    ensures
        r@ == lowercase(s@),
{
    s.to_lowercase()
}

/// A lowercased `label:` prefix names a title when it is at most 16 UTF-8 bytes
/// long and contains `title` (`Title:`, `Chat title:`).
pub open spec fn is_title_label(lowered: Seq<char>) -> bool {
    encode_utf8(lowered).len() <= 16 && contains(lowered, title_word())
}

/// Decides, from the already-lowercased text before the first `:`, whether it is a
/// title label.
pub fn title_label(lowered: &str) -> (r: bool)
    ensures
        r == is_title_label(lowered@),
{
    let v = chars_of(lowered);
    let t = title_word_vec();
    utf8_len_at_most(&v, 16) && contains_chars(&v, &t)
}

/// The first line (of `str::lines`) that is non-empty once trimmed, trimmed; empty
/// when there is none.
pub open spec fn first_nonempty_from(ls: Seq<Seq<char>>, i: int) -> Seq<char>
    decreases ls.len() - i,
{
    if i < 0 || i >= ls.len() {
        seq![]
    } else if trim_ws(ls[i]).len() > 0 {
        trim_ws(ls[i])
    } else {
        first_nonempty_from(ls, i + 1)
    }
}

pub open spec fn first_nonempty_line(s: Seq<char>) -> Seq<char> {
    first_nonempty_from(lines(s), 0)
}

/// Drops a leading `Title:` / `Chat title:` label.
pub open spec fn strip_label(s: Seq<char>) -> Seq<char> {
    match find(s, seq![':']) {
        Some(idx) => if is_title_label(lowercase(s.take(idx))) {
            trim_ws(s.skip(idx + 1))
        } else {
            s
        },
        None => s,
    }
}

/// A title reply loses the text before its first `:` only when that text,
/// lowercased, contains `title`: with no colon, or a first colon whose prefix
/// does not name a title (`Docker: fixing networking`), the line is kept whole.
/// When the label is dropped, what remains is the trimmed text after that colon.
pub proof fn lemma_label_needs_title_word(s: Seq<char>, idx: int)
    requires
        0 <= idx < s.len(),
        s[idx] == ':',
        forall|i: int| 0 <= i < idx ==> s[i] != ':',
    ensures
        !contains(lowercase(s.take(idx)), seq!['t', 'i', 't', 'l', 'e']) ==> strip_label(s) == s,
        strip_label(s) != s ==> strip_label(s) == trim_ws(s.skip(idx + 1)),
        (contains(lowercase(s.take(idx)), seq!['t', 'i', 't', 'l', 'e']) && encode_utf8(
            lowercase(s.take(idx)),
        ).len() <= 16) ==> strip_label(s) == trim_ws(s.skip(idx + 1)),
        is_title_label(lowercase(s.take(idx))) ==> contains(
            lowercase(s.take(idx)),
            seq!['t', 'i', 't', 'l', 'e'],
        ),
{
    lemma_find_from(s, seq![':'], 0);
    assert(occurs_at(s, seq![':'], idx)) by {
        assert(s.subrange(idx, idx + 1) =~= seq![':']);
    }
    assert forall|m: int| 0 <= m < idx implies !occurs_at(s, seq![':'], m) by {
        if occurs_at(s, seq![':'], m) {
            assert(s.subrange(m, m + 1)[0] == s[m]);
        }
    }
    assert(find(s, seq![':']) == Some(idx));
}

/// Without any `:` a title reply keeps its text.
pub proof fn lemma_no_colon_no_label(s: Seq<char>)
    requires
        forall|i: int| 0 <= i < s.len() ==> s[i] != ':',
    ensures
        strip_label(s) == s,
{
    lemma_find_from(s, seq![':'], 0);
    if find(s, seq![':']) is Some {
        let j = find(s, seq![':'])->0;
        assert(s.subrange(j, j + 1)[0] == s[j]);
    }
}

/// Longest title, in characters.
pub open spec fn max_title_chars() -> nat {
    70
}

/// What `sanitize_title` returns for `raw`.
pub open spec fn sanitized_title(raw: Seq<char>) -> Seq<char> {
    let s0 = trim_ws(raw);
    match strip_think(s0) {
        None => seq![],
        Some(stripped) => {
            let s1 = if find(s0, think_open()) is Some {
                trim_ws(stripped)
            } else {
                s0
            };
            if has_think_fragment(s1) {
                seq![]
            } else {
                let s2 = first_nonempty_line(s1);
                let s3 = strip_label(s2);
                let s4 = trim_ws(trim(s3, CharClass::Wrapping));
                let s5 = trim_ws(trim_end(s4, CharClass::EndPunct));
                let s6 = collapse_ws(s5);
                if s6.len() > max_title_chars() {
                    trim_ws(s6.take(max_title_chars() as int))
                } else {
                    s6
                }
            }
        },
    }
}

/// A sanitised title is single-spaced: no newline or other whitespace but single
/// spaces between words, and none at either end.
pub proof fn lemma_sanitized_title_single_spaced(raw: Seq<char>)
    ensures
        crate::text::single_spaced(sanitized_title(raw)),
{
    let s0 = trim_ws(raw);
    match strip_think(s0) {
        None => {},
        Some(stripped) => {
            let s1 = if find(s0, think_open()) is Some {
                trim_ws(stripped)
            } else {
                s0
            };
            if !has_think_fragment(s1) {
                let s2 = first_nonempty_line(s1);
                let s3 = strip_label(s2);
                let s4 = trim_ws(trim(s3, CharClass::Wrapping));
                let s5 = trim_ws(trim_end(s4, CharClass::EndPunct));
                let s6 = collapse_ws(s5);
                crate::text::lemma_collapse_ws_single_spaced(s5);
                if s6.len() > max_title_chars() {
                    crate::text::lemma_trimmed_cut_single_spaced(s6, max_title_chars() as int);
                }
            }
        },
    }
}

proof fn lemma_fragments_hold_no_space()
    ensures
        !think_open_frag().contains(' '),
        !think_close_frag().contains(' '),
        think_open_frag().len() > 0,
        think_close_frag().len() > 0,
{
    let o = think_open_frag();
    let c = think_close_frag();
    assert(o =~= seq!['<', 't', 'h', 'i', 'n', 'k']);
    assert forall|k: int| 0 <= k < o.len() implies o[k] != ' ' by {
        assert(k == 0 || k == 1 || k == 2 || k == 3 || k == 4 || k == 5);
    }
    assert forall|k: int| 0 <= k < c.len() implies c[k] != ' ' by {
        assert(k == 0 || k == 1 || k == 2 || k == 3 || k == 4 || k == 5 || k == 6);
    }
}

/// A piece of fragment-free text is fragment-free (and newline-free text stays so).
proof fn lemma_piece_fragment_free(s: Seq<char>, t: Seq<char>)
    requires
        crate::text::is_piece(s, t),
    ensures
        !has_think_fragment(s) ==> !has_think_fragment(t),
        !s.contains('\n') ==> !t.contains('\n'),
{
    crate::text::lemma_piece_keeps_absence(s, t, think_open_frag(), '\n');
    crate::text::lemma_piece_keeps_absence(s, t, think_close_frag(), '\n');
}

proof fn lemma_first_nonempty_fragment_free(ls: Seq<Seq<char>>, i: int)
    requires
        forall|n: int| 0 <= n < ls.len() ==> !has_think_fragment(#[trigger] ls[n]),
    ensures
        !has_think_fragment(first_nonempty_from(ls, i)),
    decreases ls.len() - i,
{
    if 0 <= i < ls.len() {
        if trim_ws(ls[i]).len() > 0 {
            crate::text::lemma_trims_are_pieces(ls[i], CharClass::Whitespace);
            lemma_piece_fragment_free(ls[i], trim_ws(ls[i]));
        } else {
            lemma_first_nonempty_fragment_free(ls, i + 1);
        }
    } else {
        crate::text::lemma_contains_occurs(Seq::<char>::empty(), think_open_frag());
        crate::text::lemma_contains_occurs(Seq::<char>::empty(), think_close_frag());
    }
}

/// A sanitised title holds no `<think` or `</think` fragment.
pub proof fn lemma_sanitized_title_fragment_free(raw: Seq<char>)
    ensures
        !has_think_fragment(sanitized_title(raw)),
{
    lemma_fragments_hold_no_space();
    crate::text::lemma_contains_occurs(Seq::<char>::empty(), think_open_frag());
    crate::text::lemma_contains_occurs(Seq::<char>::empty(), think_close_frag());
    let s0 = trim_ws(raw);
    match strip_think(s0) {
        None => {},
        Some(stripped) => {
            let s1 = if find(s0, think_open()) is Some {
                trim_ws(stripped)
            } else {
                s0
            };
            if !has_think_fragment(s1) {
                let ls = lines(s1);
                crate::text::lemma_lines_are_pieces(s1, 0);
                assert forall|n: int| 0 <= n < ls.len() implies !has_think_fragment(#[trigger] ls[n]) by {
                    lemma_piece_fragment_free(s1, ls[n]);
                }
                lemma_first_nonempty_fragment_free(ls, 0);
                let s2 = first_nonempty_line(s1);
                let s3 = strip_label(s2);
                match find(s2, seq![':']) {
                    Some(idx) => {
                        if is_title_label(lowercase(s2.take(idx))) {
                            lemma_find_from(s2, seq![':'], 0);
                            let tail = s2.skip(idx + 1);
                            assert(tail =~= s2.subrange(idx + 1, s2.len() as int));
                            assert(crate::text::is_piece(s2, tail));
                            lemma_piece_fragment_free(s2, tail);
                            crate::text::lemma_trims_are_pieces(tail, CharClass::Whitespace);
                            lemma_piece_fragment_free(tail, s3);
                        }
                    },
                    None => {},
                }
                let w = trim(s3, CharClass::Wrapping);
                crate::text::lemma_trims_are_pieces(s3, CharClass::Wrapping);
                lemma_piece_fragment_free(s3, w);
                let s4 = trim_ws(w);
                crate::text::lemma_trims_are_pieces(w, CharClass::Whitespace);
                lemma_piece_fragment_free(w, s4);
                let e = trim_end(s4, CharClass::EndPunct);
                crate::text::lemma_trims_are_pieces(s4, CharClass::EndPunct);
                lemma_piece_fragment_free(s4, e);
                let s5 = trim_ws(e);
                crate::text::lemma_trims_are_pieces(e, CharClass::Whitespace);
                lemma_piece_fragment_free(e, s5);
                let ws = crate::text::words(s5);
                crate::text::lemma_words_are_pieces(s5, 0);
                assert forall|n: int| 0 <= n < ws.len() implies !contains(#[trigger] ws[n], think_open_frag())
                    && !contains(ws[n], think_close_frag()) by {
                    lemma_piece_fragment_free(s5, ws[n]);
                }
                assert forall|n: int| 0 <= n < ws.len() implies !contains(#[trigger] ws[n], think_open_frag()) by {}
                assert forall|n: int| 0 <= n < ws.len() implies !contains(#[trigger] ws[n], think_close_frag()) by {}
                crate::text::lemma_join_space_keeps_absence(ws, think_open_frag());
                crate::text::lemma_join_space_keeps_absence(ws, think_close_frag());
                let s6 = collapse_ws(s5);
                assert(!has_think_fragment(s6));
                if s6.len() > max_title_chars() {
                    let cut = s6.take(max_title_chars() as int);
                    assert(cut =~= s6.subrange(0, max_title_chars() as int));
                    assert(crate::text::is_piece(s6, cut));
                    lemma_piece_fragment_free(s6, cut);
                    crate::text::lemma_trims_are_pieces(cut, CharClass::Whitespace);
                    lemma_piece_fragment_free(cut, trim_ws(cut));
                }
            }
        },
    }
}

fn first_nonempty_line_vec(v: &Vec<char>) -> (r: Vec<char>)
    ensures
        r@ == first_nonempty_line(v@),
{
    let ls = lines_of(v);
    let mut i: usize = 0;
    while i < ls.len()
        invariant
            i <= ls.len(),
            views_of(ls@) == lines(v@),
            first_nonempty_from(lines(v@), i as int) == first_nonempty_line(v@),
        decreases ls.len() - i,
    {
        let t = trimmed(&ls[i], CharClass::Whitespace);
        assert(ls@[i as int]@ == lines(v@)[i as int]);
        if t.len() > 0 {
            return t;
        }
        i = i + 1;
    }
    Vec::new()
}

fn strip_label_vec(v: &Vec<char>) -> (r: Vec<char>)
    ensures
        r@ == strip_label(v@),
{
    let colon = vec![':'];
    assert(colon@ == seq![':']);
    match find_index(v, &colon) {
        Some(idx) => {
            proof {
                lemma_find_from(v@, colon@, 0);
                assert(occurs_at(v@, colon@, idx as int));
            }
            let label = string_of(&slice_vec(v, 0, idx));
            let lowered = to_lowercase(label.as_str());
            if title_label(lowered.as_str()) {
                let rest = slice_vec(v, idx + 1, v.len());
                trimmed(&rest, CharClass::Whitespace)
            } else {
                slice_vec(v, 0, v.len())
            }
        },
        None => slice_vec(v, 0, v.len()),
    }
}

/// Cleans a raw model reply into a one-line title: drops a `<think>` block (an
/// unclosed one, or any stray tag fragment, yields the empty title), keeps the first
/// non-empty line, strips a `Title:` label, wrapping quotes/markdown and trailing
/// punctuation, collapses whitespace and caps the length at 70 characters.
pub fn sanitize_title(raw: &str) -> (r: String)
    ensures
        r@ == sanitized_title(raw@),
        r@.len() <= max_title_chars(),
{
    let v = chars_of(raw);
    let s0 = trimmed(&v, CharClass::Whitespace);
    let stripped = match strip_think_block(&s0) {
        None => return String::new(),
        Some(x) => x,
    };
    let open = think_open_vec();
    let s1 = if find_index(&s0, &open).is_some() {
        trimmed(&stripped, CharClass::Whitespace)
    } else {
        s0
    };
    if has_think_fragment_vec(&s1) {
        return String::new();
    }
    let s2 = first_nonempty_line_vec(&s1);
    let s3 = strip_label_vec(&s2);
    let s4 = trimmed(&trimmed(&s3, CharClass::Wrapping), CharClass::Whitespace);
    let s5 = trimmed(&trimmed_end(&s4, CharClass::EndPunct), CharClass::Whitespace);
    let s6 = collapsed_ws(&s5);
    if s6.len() > 70 {
        let cut = take_chars(&s6, 70);
        let t = trimmed(&cut, CharClass::Whitespace);
        proof { trim_len_le(cut@, CharClass::Whitespace); }
        string_of(&t)
    } else {
        string_of(&s6)
    }
}

proof fn trim_len_le(s: Seq<char>, k: CharClass)
    ensures
        trim(s, k).len() <= s.len(),
{
    crate::text::lemma_lead_from_bounds(s, k, 0);
    let t = s.skip(crate::text::lead_from(s, k, 0));
    crate::text::lemma_trail_from_bounds(t, k, t.len() as int);
}


// ── Follow-up suggestions ────────────────────────────────────────────────────

/// Longest suggestion, in characters.
pub open spec fn max_suggestion_chars() -> nat {
    80
}

/// Most suggestions returned.
pub open spec fn max_suggestions() -> nat {
    3
}

/// A line with list markers (`1.`, `2)`, `-`, `*`, `•`), wrapping quotes/markdown and
/// surrounding whitespace removed; empty when it holds a `<think` tag fragment.
pub open spec fn cleaned_line(line: Seq<char>) -> Seq<char> {
    let s = trim_ws(line);
    if has_think_fragment(s) {
        seq![]
    } else {
        let a = trim_start(s, CharClass::Digit);
        let b = trim_start(a, CharClass::ListMarker);
        trim_ws(trim(b, CharClass::Wrapping))
    }
}

/// What cleaning may drop from the front of a suggestion line: list numbering and
/// markers (`1.`, `2)`, `-`, `*`, `•`), wrapping quotes or markdown, whitespace.
pub open spec fn leading_noise(c: char) -> bool {
    ||| ('0' <= c && c <= '9')
    ||| c == '.' || c == ')' || c == '-' || c == '*' || c == '\u{2022}'
    ||| c == '"' || c == '\'' || c == '`' || c == '#'
    ||| crate::text::is_ws(c)
}

/// What cleaning may drop from the end of a suggestion line: wrapping quotes or
/// markdown, whitespace.
pub open spec fn trailing_noise(c: char) -> bool {
    ||| c == '"' || c == '\'' || c == '`' || c == '*' || c == '#'
    ||| crate::text::is_ws(c)
}

/// A cleaned line is the trimmed line with a run of markers, quotes and spaces
/// cut from its front and a run of quotes and spaces cut from its end, and
/// nothing else: every other character, a trailing digit among them, stays. When
/// the trimmed line does not end in a quote or markdown mark, the cleaned line is
/// one of its suffixes.
pub proof fn lemma_cleaned_line_keeps_text(line: Seq<char>) -> (span: (int, int))
    requires
        !has_think_fragment(trim_ws(line)),
    ensures
        0 <= span.0 <= span.1 <= trim_ws(line).len(),
        cleaned_line(line) == trim_ws(line).subrange(span.0, span.1),
        forall|i: int| 0 <= i < span.0 ==> leading_noise(#[trigger] trim_ws(line)[i]),
        forall|i: int| span.1 <= i < trim_ws(line).len() ==> trailing_noise(#[trigger] trim_ws(line)[i]),
        trim_ws(line).len() > 0 && !trailing_noise(trim_ws(line).last()) ==> cleaned_line(line)
            == trim_ws(line).skip(span.0),
{
    let s = trim_ws(line);
    let la = lead_from(s, CharClass::Digit, 0);
    lemma_lead_from_bounds(s, CharClass::Digit, 0);
    let a = s.skip(la);
    let lb = lead_from(a, CharClass::ListMarker, 0);
    lemma_lead_from_bounds(a, CharClass::ListMarker, 0);
    let b = a.skip(lb);
    let lw = lead_from(b, CharClass::Wrapping, 0);
    lemma_lead_from_bounds(b, CharClass::Wrapping, 0);
    let b1 = b.skip(lw);
    let tw = trail_from(b1, CharClass::Wrapping, b1.len() as int);
    lemma_trail_from_bounds(b1, CharClass::Wrapping, b1.len() as int);
    let t = b1.take(tw);
    let lx = lead_from(t, CharClass::Whitespace, 0);
    lemma_lead_from_bounds(t, CharClass::Whitespace, 0);
    let t1 = t.skip(lx);
    let tx = trail_from(t1, CharClass::Whitespace, t1.len() as int);
    lemma_trail_from_bounds(t1, CharClass::Whitespace, t1.len() as int);
    let r = t1.take(tx);
    assert(r == cleaned_line(line));
    let o = la + lb + lw;
    let start = o + lx;
    let end = start + tx;
    assert(r =~= s.subrange(start, end));
    assert forall|i: int| 0 <= i < start implies leading_noise(#[trigger] s[i]) by {
        if i < la {
            assert(crate::text::in_class(CharClass::Digit, s[i]));
        } else if i < la + lb {
            assert(a[i - la] == s[i]);
        } else if i < o {
            assert(b[i - la - lb] == s[i]);
        } else {
            assert(t[i - o] == s[i]);
        }
    }
    assert forall|i: int| end <= i < s.len() implies trailing_noise(#[trigger] s[i]) by {
        if i < o + tw {
            assert(t1[i - start] == s[i]);
        } else {
            assert(b1[i - o] == s[i]);
        }
    }
    if s.len() > 0 && !trailing_noise(s.last()) {
        if end < s.len() {
            assert(trailing_noise(s[s.len() - 1]));
        }
        assert(r =~= s.skip(start));
    }
    (start, end)
}

/// Some entry of `out` equals `s` ignoring ASCII case.
pub open spec fn has_same(out: Seq<Seq<char>>, s: Seq<char>) -> bool {
    exists|i: int| 0 <= i < out.len() && eq_ignore_ascii_case(#[trigger] out[i], s)
}

/// Keeps cleaned lines of `ls[i..]` that are non-empty, at most 80 characters and
/// not already present (ignoring ASCII case), until three are kept.
pub open spec fn collect_suggestions(ls: Seq<Seq<char>>, i: int, out: Seq<Seq<char>>) -> Seq<
    Seq<char>,
>
    decreases ls.len() - i,
{
    if i < 0 || i >= ls.len() || out.len() >= max_suggestions() {
        out
    } else {
        let c = cleaned_line(ls[i]);
        if c.len() == 0 || c.len() > max_suggestion_chars() || has_same(out, c) {
            collect_suggestions(ls, i + 1, out)
        } else {
            collect_suggestions(ls, i + 1, out.push(c))
        }
    }
}

/// What `parse_suggestions` returns for `raw`.
pub open spec fn parsed_suggestions(raw: Seq<char>) -> Seq<Seq<char>> {
    match strip_think(trim_ws(raw)) {
        None => seq![],
        Some(s) => collect_suggestions(lines(s), 0, seq![]),
    }
}

/// Suggestions are what chips need: at most three, each non-empty, at most 80
/// characters, and no two equal ignoring ASCII case.
pub open spec fn well_formed_suggestions(out: Seq<Seq<char>>) -> bool {
    &&& out.len() <= max_suggestions()
    &&& forall|i: int| 0 <= i < out.len() ==> 0 < (#[trigger] out[i]).len() <= max_suggestion_chars()
    &&& forall|i: int, j: int|
        0 <= i < j < out.len() ==> !eq_ignore_ascii_case(#[trigger] out[i], #[trigger] out[j])
}

/// Every cleaned line of `ls[i..]` that is non-empty, at most 80 characters and
/// not equal (ignoring ASCII case) to one kept before, after `out`: the kept list
/// with no cap on its length.
pub open spec fn kept_lines(ls: Seq<Seq<char>>, i: int, out: Seq<Seq<char>>) -> Seq<Seq<char>>
    decreases ls.len() - i,
{
    if i < 0 || i >= ls.len() {
        out
    } else {
        let c = cleaned_line(ls[i]);
        if c.len() == 0 || c.len() > max_suggestion_chars() || has_same(out, c) {
            kept_lines(ls, i + 1, out)
        } else {
            kept_lines(ls, i + 1, out.push(c))
        }
    }
}

proof fn lemma_kept_lines_extends(ls: Seq<Seq<char>>, i: int, out: Seq<Seq<char>>)
    ensures
        kept_lines(ls, i, out).len() >= out.len(),
        kept_lines(ls, i, out).take(out.len() as int) == out,
    decreases ls.len() - i,
{
    if 0 <= i < ls.len() {
        let c = cleaned_line(ls[i]);
        if c.len() == 0 || c.len() > max_suggestion_chars() || has_same(out, c) {
            lemma_kept_lines_extends(ls, i + 1, out);
        } else {
            lemma_kept_lines_extends(ls, i + 1, out.push(c));
            let k = kept_lines(ls, i, out);
            assert(k.take(out.len() as int) =~= k.take(out.len() as int + 1).take(out.len() as int));
            assert(out.push(c).take(out.len() as int) =~= out);
        }
    } else {
        assert(out.take(out.len() as int) =~= out);
    }
}

proof fn lemma_collect_is_first_kept(ls: Seq<Seq<char>>, i: int, out: Seq<Seq<char>>)
    requires
        out.len() <= max_suggestions(),
    ensures
        collect_suggestions(ls, i, out) == kept_lines(ls, i, out).take(
            if kept_lines(ls, i, out).len() < max_suggestions() {
                kept_lines(ls, i, out).len() as int
            } else {
                max_suggestions() as int
            },
        ),
    decreases ls.len() - i,
{
    lemma_kept_lines_extends(ls, i, out);
    let k = kept_lines(ls, i, out);
    if i < 0 || i >= ls.len() {
        assert(k.take(k.len() as int) =~= k);
    } else if out.len() >= max_suggestions() {
        assert(out.len() == max_suggestions());
    } else {
        let c = cleaned_line(ls[i]);
        if c.len() == 0 || c.len() > max_suggestion_chars() || has_same(out, c) {
            lemma_collect_is_first_kept(ls, i + 1, out);
        } else {
            lemma_collect_is_first_kept(ls, i + 1, out.push(c));
        }
    }
}

proof fn lemma_collect_trimmed(ls: Seq<Seq<char>>, i: int, out: Seq<Seq<char>>)
    requires
        forall|n: int| 0 <= n < out.len() ==> trim_ws(#[trigger] out[n]) == out[n],
    ensures
        forall|n: int|
            0 <= n < collect_suggestions(ls, i, out).len() ==> trim_ws(
                #[trigger] collect_suggestions(ls, i, out)[n],
            ) == collect_suggestions(ls, i, out)[n],
    decreases ls.len() - i,
{
    if 0 <= i < ls.len() && out.len() < max_suggestions() {
        let c = cleaned_line(ls[i]);
        if c.len() == 0 || c.len() > max_suggestion_chars() || has_same(out, c) {
            lemma_collect_trimmed(ls, i + 1, out);
            assert(collect_suggestions(ls, i, out) == collect_suggestions(ls, i + 1, out));
        } else {
            let s = trim_ws(ls[i]);
            let a = trim_start(s, CharClass::Digit);
            let b = trim_start(a, CharClass::ListMarker);
            crate::text::lemma_trim_ws_idempotent(trim(b, CharClass::Wrapping));
            assert(!has_think_fragment(s));
            assert(c == trim_ws(trim(b, CharClass::Wrapping)));
            assert(trim_ws(c) == c);
            let next = out.push(c);
            assert forall|n: int| 0 <= n < next.len() implies trim_ws(#[trigger] next[n]) == next[n] by {
                if n < out.len() {
                    assert(next[n] == out[n]);
                } else {
                    assert(next[n] == c);
                }
            }
            lemma_collect_trimmed(ls, i + 1, next);
            assert(collect_suggestions(ls, i, out) == collect_suggestions(ls, i + 1, next));
        }
    }
}

proof fn lemma_collect_clean(ls: Seq<Seq<char>>, i: int, out: Seq<Seq<char>>)
    requires
        forall|n: int| 0 <= n < ls.len() ==> !(#[trigger] ls[n]).contains('\n'),
        forall|n: int|
            0 <= n < out.len() ==> !has_think_fragment(#[trigger] out[n]) && !out[n].contains('\n'),
    ensures
        forall|n: int|
            0 <= n < collect_suggestions(ls, i, out).len() ==> !has_think_fragment(
                #[trigger] collect_suggestions(ls, i, out)[n],
            ) && !collect_suggestions(ls, i, out)[n].contains('\n'),
    decreases ls.len() - i,
{
    if 0 <= i < ls.len() && out.len() < max_suggestions() {
        let c = cleaned_line(ls[i]);
        if c.len() == 0 || c.len() > max_suggestion_chars() || has_same(out, c) {
            lemma_collect_clean(ls, i + 1, out);
            assert(collect_suggestions(ls, i, out) == collect_suggestions(ls, i + 1, out));
        } else {
            let l = ls[i];
            let s = trim_ws(l);
            let a = trim_start(s, CharClass::Digit);
            let b = trim_start(a, CharClass::ListMarker);
            let w = trim(b, CharClass::Wrapping);
            assert(!has_think_fragment(s));
            assert(c == trim_ws(w));
            crate::text::lemma_trims_are_pieces(l, CharClass::Whitespace);
            crate::text::lemma_trims_are_pieces(s, CharClass::Digit);
            crate::text::lemma_trims_are_pieces(a, CharClass::ListMarker);
            crate::text::lemma_trims_are_pieces(b, CharClass::Wrapping);
            crate::text::lemma_trims_are_pieces(w, CharClass::Whitespace);
            crate::text::lemma_piece_trans(s, a, b);
            crate::text::lemma_piece_trans(s, b, w);
            crate::text::lemma_piece_trans(s, w, c);
            crate::text::lemma_piece_trans(l, s, c);
            lemma_piece_fragment_free(s, c);
            assert(!l.contains('\n'));
            lemma_piece_fragment_free(l, c);
            let next = out.push(c);
            assert forall|n: int| 0 <= n < next.len() implies !has_think_fragment(#[trigger] next[n])
                && !next[n].contains('\n') by {
                if n < out.len() {
                    assert(next[n] == out[n]);
                } else {
                    assert(next[n] == c);
                }
            }
            lemma_collect_clean(ls, i + 1, next);
            assert(collect_suggestions(ls, i, out) == collect_suggestions(ls, i + 1, next));
        }
    }
}

/// A reply that opens a `<think>` block it never closes gives neither a title nor
/// suggestions.
pub proof fn lemma_unclosed_think_gives_nothing(raw: Seq<char>)
    requires
        strip_think(trim_ws(raw)) is None,
    ensures
        sanitized_title(raw) == Seq::<char>::empty(),
        parsed_suggestions(raw) == Seq::<Seq<char>>::empty(),
{
}

/// No suggestion holds a newline or a `<think` or `</think` fragment.
pub proof fn lemma_suggestions_clean(raw: Seq<char>)
    ensures
        forall|n: int|
            0 <= n < parsed_suggestions(raw).len() ==> !has_think_fragment(
                #[trigger] parsed_suggestions(raw)[n],
            ) && !parsed_suggestions(raw)[n].contains('\n'),
{
    match strip_think(trim_ws(raw)) {
        None => {},
        Some(s) => {
            let ls = lines(s);
            crate::text::lemma_lines_are_pieces(s, 0);
            assert forall|n: int| 0 <= n < ls.len() implies !(#[trigger] ls[n]).contains('\n') by {}
            lemma_collect_clean(ls, 0, seq![]);
        },
    }
}

/// Every suggestion is trimmed.
pub proof fn lemma_suggestions_trimmed(raw: Seq<char>)
    ensures
        forall|n: int|
            0 <= n < parsed_suggestions(raw).len() ==> trim_ws(#[trigger] parsed_suggestions(raw)[n])
                == parsed_suggestions(raw)[n],
{
    match strip_think(trim_ws(raw)) {
        None => {},
        Some(s) => {
            lemma_collect_trimmed(lines(s), 0, seq![]);
        },
    }
}

/// The suggestions are the first three kept lines (see `kept_lines`) of the reply
/// with its leading think block removed, or all of them when there are fewer.
pub proof fn lemma_suggestions_are_first_three_kept(raw: Seq<char>)
    ensures
        match strip_think(trim_ws(raw)) {
            None => parsed_suggestions(raw) == Seq::<Seq<char>>::empty(),
            Some(s) => parsed_suggestions(raw) == kept_lines(lines(s), 0, seq![]).take(
                if kept_lines(lines(s), 0, seq![]).len() < max_suggestions() {
                    kept_lines(lines(s), 0, seq![]).len() as int
                } else {
                    max_suggestions() as int
                },
            ),
        },
{
    match strip_think(trim_ws(raw)) {
        None => {},
        Some(s) => {
            lemma_collect_is_first_kept(lines(s), 0, seq![]);
        },
    }
}

/// Strips list markers, quotes and surrounding whitespace from a single line.
pub fn clean_line(line: &Vec<char>) -> (r: Vec<char>)
    ensures
        r@ == cleaned_line(line@),
{
    let s = trimmed(line, CharClass::Whitespace);
    if has_think_fragment_vec(&s) {
        return Vec::new();
    }
    let a = trimmed_start(&s, CharClass::Digit);
    let b = trimmed_start(&a, CharClass::ListMarker);
    trimmed(&trimmed(&b, CharClass::Wrapping), CharClass::Whitespace)
}

fn has_same_vec(out: &Vec<Vec<char>>, s: &Vec<char>) -> (r: bool)
    ensures
        r == has_same(views_of(out@), s@),
{
    let mut i: usize = 0;
    while i < out.len()
        invariant
            i <= out.len(),
            forall|m: int| 0 <= m < i ==> !eq_ignore_ascii_case(#[trigger] views_of(out@)[m], s@),
        decreases out.len() - i,
    {
        if eq_ignore_ascii_case_vec(&out[i], s) {
            assert(views_of(out@)[i as int] == out@[i as int]@);
            return true;
        }
        i = i + 1;
    }
    false
}

/// Cleans a raw model reply into at most three one-line follow-up prompts: drops a
/// `<think>` block (an unclosed one yields nothing), then keeps, in order, the
/// cleaned lines that are non-empty, at most 80 characters and not a repeat
/// (ignoring ASCII case).
pub fn parse_suggestions(raw: &str) -> (r: Vec<String>)
    ensures
        r@.map_values(|x: String| x@) == parsed_suggestions(raw@),
        well_formed_suggestions(r@.map_values(|x: String| x@)),
{
    let v = chars_of(raw);
    let t = trimmed(&v, CharClass::Whitespace);
    let text = match strip_think_block(&t) {
        None => {
            let e: Vec<String> = Vec::new();
            assert(e@.map_values(|x: String| x@) =~= Seq::<Seq<char>>::empty());
            return e;
        },
        Some(x) => x,
    };
    let ls = lines_of(&text);
    let mut out: Vec<Vec<char>> = Vec::new();
    let mut i: usize = 0;
    assert(views_of(out@) =~= Seq::<Seq<char>>::empty());
    while i < ls.len()
        invariant_except_break
            views_of(out@).len() < max_suggestions(),
        invariant
            i <= ls.len(),
            views_of(ls@) == lines(text@),
            collect_suggestions(lines(text@), i as int, views_of(out@)) == parsed_suggestions(
                raw@,
            ),
            well_formed_suggestions(views_of(out@)),
        ensures
            views_of(out@) == parsed_suggestions(raw@),
            well_formed_suggestions(views_of(out@)),
        decreases ls.len() - i,
    {
        let c = clean_line(&ls[i]);
        assert(ls@[i as int]@ == lines(text@)[i as int]);
        if c.len() == 0 || c.len() > 80 || has_same_vec(&out, &c) {
            i = i + 1;
            continue;
        }
        proof {
            let o = views_of(out@);
            assert(views_of(out@.push(c)) =~= o.push(c@));
            assert forall|a: int, b: int|
                0 <= a < b < o.push(c@).len() implies !eq_ignore_ascii_case(
                #[trigger] o.push(c@)[a],
                #[trigger] o.push(c@)[b],
            ) by {
                if b == o.len() {
                    if eq_ignore_ascii_case(o[a], c@) {
                        assert(has_same(o, c@));
                    }
                }
            }
        }
        out.push(c);
        i = i + 1;
        if out.len() >= 3 {
            proof {
                assert(collect_suggestions(lines(text@), i as int, views_of(out@)) == views_of(
                    out@,
                ));
            }
            break;
        }
    }
    let mut r: Vec<String> = Vec::new();
    let mut k: usize = 0;
    while k < out.len()
        invariant
            k <= out.len(),
            r@.map_values(|x: String| x@) == views_of(out@).take(k as int),
        decreases out.len() - k,
    {
        let s = string_of(&out[k]);
        proof {
            assert(r@.push(s).map_values(|x: String| x@) =~= views_of(out@).take(k as int).push(
                out@[k as int]@,
            ));
            assert(views_of(out@).take(k + 1) =~= views_of(out@).take(k as int).push(
                out@[k as int]@,
            ));
        }
        r.push(s);
        k = k + 1;
    }
    proof {
        assert(views_of(out@).take(out.len() as int) =~= views_of(out@));
    }
    r
}


// ── First-message title ──────────────────────────────────────────────────────

/// `New Chat`.
pub open spec fn new_chat_title() -> Seq<char> {
    seq!['N', 'e', 'w', ' ', 'C', 'h', 'a', 't']
}

/// Longest derived title before the ellipsis, in characters.
pub open spec fn max_derived_chars() -> nat {
    60
}

/// What `derive_title` returns: the trimmed first line of the trimmed content,
/// cut to 60 characters plus `…` when longer; `New Chat` for blank content.
pub open spec fn derived_title(content: Seq<char>) -> Seq<char> {
    let t = trim_ws(content);
    if t.len() == 0 {
        new_chat_title()
    } else {
        let first = trim_ws(lines(t)[0]);
        if first.len() <= max_derived_chars() {
            first
        } else {
            first.take(max_derived_chars() as int).push('\u{2026}')
        }
    }
}

/// A first-pass conversation title from the first user message.
pub fn derive_title(content: &str) -> (r: String)
    ensures
        r@ == derived_title(content@),
        0 < r@.len() <= max_derived_chars() + 1,
{
    let v = chars_of(content);
    let t = trimmed(&v, CharClass::Whitespace);
    if t.len() == 0 {
        let n = vec!['N', 'e', 'w', ' ', 'C', 'h', 'a', 't'];
        assert(n@ == new_chat_title());
        return string_of(&n);
    }
    let ls = lines_of(&t);
    assert(lines(t@).len() > 0);
    assert(ls@[0]@ == lines(t@)[0]);
    let first = trimmed(&ls[0], CharClass::Whitespace);
    proof {
        lemma_first_line_nonblank(v@, t@);
    }
    if first.len() <= 60 {
        string_of(&first)
    } else {
        let mut cut = take_chars(&first, 60);
        cut.push('\u{2026}');
        string_of(&cut)
    }
}

/// The first line of a trimmed, non-empty text is non-blank.
proof fn lemma_first_line_nonblank(s: Seq<char>, t: Seq<char>)
    requires
        t.len() > 0,
        trim_ws(s) == t,
    ensures
        trim_ws(lines(t)[0]).len() > 0,
{
    lemma_lead_from_bounds(s, CharClass::Whitespace, 0);
    let start = lead_from(s, CharClass::Whitespace, 0);
    let u = s.skip(start);
    lemma_trail_from_bounds(u, CharClass::Whitespace, u.len() as int);
    assert(t == u.take(crate::text::trail_from(u, CharClass::Whitespace, u.len() as int)));
    assert(t[0] == s[start]);
    assert(!crate::text::is_ws(t[0]));
    crate::text::lemma_index_of_char_from(t, '\n', 0);
    let e = crate::text::index_of_char_from(t, '\n', 0);
    let line = lines(t)[0];
    assert(e > 0);
    assert(line.len() > 0 && line[0] == t[0]) by {
        if e >= t.len() {
            assert(line == t.subrange(0, t.len() as int));
        } else {
            assert(line == crate::text::strip_cr(t.subrange(0, e)));
            assert(t[0] != '\r');
        }
    }
    lemma_lead_from_bounds(line, CharClass::Whitespace, 0);
    let ls = lead_from(line, CharClass::Whitespace, 0);
    assert(ls == 0);
    lemma_trail_from_bounds(line, CharClass::Whitespace, line.len() as int);
    assert(line.skip(0) =~= line);
}

// ── Helper-turn inputs ───────────────────────────────────────────────────────

/// A feature toggle read from a preference: on unless the preference is set to
/// `false` (surrounding whitespace ignored).
pub fn feature_enabled(pref: Option<&str>) -> (r: bool)
    ensures
        r == match pref {
            Some(v) => trim_ws(v@) != "false"@,
            None => true,
        },
{
    match pref {
        Some(v) => !crate::text::eq_chars(
            &trimmed(&chars_of(v), CharClass::Whitespace),
            &chars_of("false"),
        ),
        None => true,
    }
}

/// A model override read from a preference: its trimmed value when non-blank.
pub fn override_model(pref: Option<&str>) -> (r: Option<String>)
    ensures
        match pref {
            Some(v) => if trim_ws(v@).len() > 0 {
                (r matches Some(m) && m@ == trim_ws(v@))
            } else {
                r is None
            },
            None => r is None,
        },
{
    match pref {
        Some(v) => {
            let t = trimmed(&chars_of(v), CharClass::Whitespace);
            if t.len() > 0 {
                Some(string_of(&t))
            } else {
                None
            }
        },
        None => None,
    }
}

/// What the titler is given: the trimmed text cut to 2000 characters; nothing when
/// fewer than 3 characters are left (too little to title).
pub fn title_input(text: &str) -> (r: Option<String>)
    ensures
        trim_ws(text@).len() < 3 ==> r is None,
        trim_ws(text@).len() >= 3 ==> (r matches Some(x) && x@ == trim_ws(text@).take(
            if trim_ws(text@).len() <= 2000 {
                trim_ws(text@).len() as int
            } else {
                2000
            },
        )),
{
    let t = trimmed(&chars_of(text), CharClass::Whitespace);
    if t.len() < 3 {
        return None;
    }
    Some(string_of(&take_chars(&t, 2000)))
}

/// The title a meeting's auto-namer applies, from the model's raw reply: the
/// sanitised title, or nothing when sanitising leaves it empty (the meeting keeps
/// its title).
pub fn meeting_title(raw: &str) -> (r: Option<String>)
    ensures
        match r {
            Some(t) => t@ == sanitized_title(raw@) && t@.len() > 0,
            None => sanitized_title(raw@).len() == 0,
        },
{
    let t = sanitize_title(raw);
    if t.as_str().unicode_len() == 0 {
        None
    } else {
        Some(t)
    }
}

/// One message's line in a suggestions transcript: `Assistant: …` or `User: …`
/// with the trimmed content and a blank line; nothing for blank content or other
/// roles.
pub open spec fn transcript_entry(role: Seq<char>, content: Seq<char>) -> Seq<char> {
    let c = trim_ws(content);
    if c.len() == 0 {
        seq![]
    } else if role == "assistant"@ {
        "Assistant: "@ + c + "\n\n"@
    } else if role == "user"@ {
        "User: "@ + c + "\n\n"@
    } else {
        seq![]
    }
}

pub open spec fn transcript_of(ms: Seq<crate::conversations::MsgV>) -> Seq<char>
    decreases ms.len(),
{
    if ms.len() == 0 {
        seq![]
    } else {
        transcript_of(ms.drop_last()) + transcript_entry(ms.last().role, ms.last().content)
    }
}

/// The last `n` characters when the text is longer.
pub open spec fn tail_chars(s: Seq<char>, n: nat) -> Seq<char> {
    if s.len() > n {
        s.skip(s.len() - n)
    } else {
        s
    }
}

/// The kept part of an over-long transcript is its most recent stretch: a suffix
/// of it, exactly `n` characters long; a transcript within the limit is kept whole.
pub proof fn lemma_tail_chars_is_recent_suffix(s: Seq<char>, n: nat)
    ensures
        tail_chars(s, n).len() == if s.len() > n {
            n
        } else {
            s.len()
        },
        s.subrange(s.len() - tail_chars(s, n).len(), s.len() as int) == tail_chars(s, n),
{
    assert(s.subrange(s.len() - tail_chars(s, n).len(), s.len() as int) =~= tail_chars(s, n));
}

/// Longest transcript (characters) handed to the suggestions model.
pub open spec fn max_transcript_chars() -> nat {
    4000
}

/// Flatten recent messages into a role-labelled transcript, keeping its most
/// recent 4000 characters.
pub fn build_transcript(messages: &Vec<crate::conversations::StoredMessage>) -> (r: String)
    ensures
        r@ == tail_chars(
            transcript_of(crate::conversations::msgs_view(messages@)),
            max_transcript_chars(),
        ),
{
    let ghost mv = crate::conversations::msgs_view(messages@);
    let mut out: Vec<char> = Vec::new();
    let mut i: usize = 0;
    while i < messages.len()
        invariant
            i <= messages.len(),
            mv == crate::conversations::msgs_view(messages@),
            out@ == transcript_of(mv.take(i as int)),
        decreases messages.len() - i,
    {
        let m = &messages[i];
        proof {
            assert(mv.take(i + 1).drop_last() =~= mv.take(i as int));
            assert(mv.take(i + 1).last() == mv[i as int]);
            assert(mv[i as int] == crate::conversations::msg_view(messages@[i as int]));
            reveal_strlit("Assistant: ");
            reveal_strlit("Assistant");
            reveal_strlit("User: ");
            reveal_strlit("User");
            reveal_strlit(": ");
        }
        let c = trimmed(&chars_of(m.content.as_str()), CharClass::Whitespace);
        let role = chars_of(m.role.as_str());
        if c.len() > 0 {
            let speaker: Option<&str> = if crate::text::eq_chars(&role, &chars_of("assistant")) {
                Some("Assistant")
            } else if crate::text::eq_chars(&role, &chars_of("user")) {
                Some("User")
            } else {
                None
            };
            match speaker {
                Some(sp) => {
                    append_chars(&mut out, &chars_of(sp));
                    append_chars(&mut out, &chars_of(": "));
                    append_chars(&mut out, &c);
                    append_chars(&mut out, &chars_of("\n\n"));
                },
                None => {},
            }
        }
        proof {
            assert(out@ =~= transcript_of(mv.take(i + 1)));
        }
        i = i + 1;
    }
    proof {
        assert(mv.take(messages.len() as int) =~= mv);
    }
    if out.len() > 4000 {
        let t = slice_vec(&out, out.len() - 4000, out.len());
        string_of(&t)
    } else {
        string_of(&out)
    }
}

/// Appending a message to a conversation extends its transcript at the end and
/// nowhere else: a user message with non-blank content adds `User: ` and its
/// trimmed content, an assistant message adds `Assistant: ` and its trimmed
/// content, each followed by a blank line; any other message adds nothing.
pub proof fn lemma_transcript_appends_in_order(
    ms: Seq<crate::conversations::MsgV>,
    m: crate::conversations::MsgV,
)
    ensures
        ({
            let c = trim_ws(m.content);
            let before = transcript_of(ms);
            let after = transcript_of(ms.push(m));
            &&& (c.len() > 0 && m.role == seq!['u', 's', 'e', 'r']) ==> after == before + seq![
                'U',
                's',
                'e',
                'r',
                ':',
                ' ',
            ] + c + seq!['\n', '\n']
            &&& (c.len() > 0 && m.role == seq!['a', 's', 's', 'i', 's', 't', 'a', 'n', 't'])
                ==> after == before + seq!['A', 's', 's', 'i', 's', 't', 'a', 'n', 't', ':', ' ']
                + c + seq!['\n', '\n']
            &&& (c.len() == 0 || (m.role != seq!['u', 's', 'e', 'r'] && m.role != seq![
                'a',
                's',
                's',
                'i',
                's',
                't',
                'a',
                'n',
                't',
            ])) ==> after == before
        }),
{
    reveal_strlit("assistant");
    reveal_strlit("user");
    reveal_strlit("Assistant: ");
    reveal_strlit("User: ");
    reveal_strlit("\n\n");
    assert(ms.push(m).drop_last() =~= ms);
    assert(ms.push(m).last() == m);
    let c = trim_ws(m.content);
    assert("User: "@ =~= seq!['U', 's', 'e', 'r', ':', ' ']);
    assert("Assistant: "@ =~= seq!['A', 's', 's', 'i', 's', 't', 'a', 'n', 't', ':', ' ']);
    assert("\n\n"@ =~= seq!['\n', '\n']);
    assert("user"@ =~= seq!['u', 's', 'e', 'r']);
    assert("assistant"@ =~= seq!['a', 's', 's', 'i', 's', 't', 'a', 'n', 't']);
    assert(transcript_of(ms) + seq![] =~= transcript_of(ms));
}

/// Whether recent messages hold an assistant reply to follow up on.
pub fn has_assistant_reply(messages: &Vec<crate::conversations::StoredMessage>) -> (r: bool)
    ensures
        r == exists|i: int| 0 <= i < messages.len() && (#[trigger] messages@[i]).role@ == "assistant"@,
{
    let mut i: usize = 0;
    while i < messages.len()
        invariant
            i <= messages.len(),
            forall|j: int| 0 <= j < i ==> (#[trigger] messages@[j]).role@ != "assistant"@,
        decreases messages.len() - i,
    {
        if crate::text::eq_chars(&chars_of(messages[i].role.as_str()), &chars_of("assistant")) {
            return true;
        }
        i = i + 1;
    }
    false
}

/// The user turn the suggestions model is asked: the transcript's first 4000
/// characters framed as the conversation so far.
pub fn suggestion_prompt(transcript: &str) -> (r: String)
    ensures
        r@ == "Conversation so far:\n\n"@ + transcript@.take(
            if transcript@.len() <= 4000 {
                transcript@.len() as int
            } else {
                4000
            },
        ) + "\nSuggested next prompts:"@,
{
    let mut v = chars_of("Conversation so far:\n\n");
    append_chars(&mut v, &take_chars(&chars_of(transcript), 4000));
    append_chars(&mut v, &chars_of("\nSuggested next prompts:"));
    string_of(&v)
}

/// Body of `POST /api/chat/suggestions`.
pub struct SuggestionsRequest {
    pub conversation_id: String,
}

/// Answer of `POST /api/chat/suggestions`.
pub struct SuggestionsResponse {
    pub suggestions: Vec<String>,
}

}
