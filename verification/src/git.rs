//! The git and workspace endpoints' own rules: the request bodies, the bounds on
//! reviewed paths and reverse-edit plans, commit defaults, project-folder names,
//! and which GitHub clone URLs are accepted.
use vstd::prelude::*;
use crate::text::{
    CharClass, append_chars, chars_of, contains, eq_chars, eq_ignore_ascii_case,
    eq_ignore_ascii_case_vec, has_char, index_of_char_from, is_ascii_alnum, is_control,
    lemma_index_of_char_from, char_index_from, char_is_ascii_alnum, char_is_control, slice_vec,
    starts_with, starts_with_chars, string_of, trim_ws, trimmed, trimmed_or, trimmed_or_default,
    utf8_len_at_most, utf8_len_bounded, views_of, contains_chars, strs,
};

verus! {

/// The UTF-8 byte length of a text (what `str::len` counts).
pub open spec fn blen(s: Seq<char>) -> nat {
    vstd::utf8::encode_utf8(s).len()
}

// ── Request bodies ───────────────────────────────────────────────────────────

/// A JSON request body (whose rejection the server answers in JSON).
pub struct JsonBody<T>(pub T);

/// Body of `POST /api/git/file-diff`.
pub struct GitFileDiffBody {
    pub cwd: String,
    pub paths: Vec<String>,
}

/// One reverse edit: put `before` back where `after` now stands in `path`.
pub enum ReverseEditBody {
    Replace { after: String, before: String, path: String },
}

/// A reverse-edit plan.
pub enum ReverseEditPlanBody {
    TextReplacements { edits: Vec<ReverseEditBody> },
}

/// Body of `POST /api/git/reverse-edits`.
pub struct GitReverseEditsBody {
    pub cwd: String,
    pub plan: ReverseEditPlanBody,
}

/// Query of `GET /api/git/status`.
pub struct GitStatusQuery {
    pub cwd: Option<String>,
}

/// Body of `POST /api/git/init`.
pub struct GitInitBody {
    pub cwd: String,
}

/// Body of `POST /api/git/checkout` and `POST /api/git/create-branch`.
pub struct GitCheckoutBody {
    pub cwd: String,
    pub branch: String,
}

/// Body of `POST /api/git/commit-push`.
pub struct GitCommitPushBody {
    pub cwd: String,
    /// Commit message; "Update via Ryu" when blank or absent.
    pub message: Option<String>,
    /// `commit`, `commit-push` (the default) or `push`.
    pub action: Option<String>,
    /// Stage unstaged changes before committing.
    pub include_unstaged: bool,
}

/// Body of `POST /api/git/pull` and `POST /api/git/sync`.
pub struct GitRemoteBody {
    pub cwd: String,
}

/// Body of `POST /api/git/pull-request`.
pub struct GitPullRequestBody {
    pub cwd: String,
    pub title: Option<String>,
    pub body: Option<String>,
    pub base: Option<String>,
    pub draft: bool,
    pub include_unstaged: bool,
}

/// Body of `POST /api/workspace/new-folder`.
pub struct NewFolderBody {
    pub name: String,
}

/// Body of `POST /api/workspace/clone`.
pub struct CloneFolderBody {
    /// GitHub HTTPS or SSH clone URL.
    pub url: String,
    /// Destination folder name; the repository name when absent.
    pub name: Option<String>,
}

/// Query of `GET /api/workspace/list`.
pub struct ListDirQuery {
    /// Directory to list; the node's home when absent or blank.
    pub path: Option<String>,
}

/// `include_unstaged` when a body leaves it out.
pub fn default_include_unstaged() -> (r: bool)
    ensures
        r,
{
    true
}

// ── Commit defaults ──────────────────────────────────────────────────────────

/// The git action a commit request runs: the one named, `commit-push` when none is;
/// anything but `commit`, `commit-push` and `push` is refused.
pub fn commit_push_action(action: Option<&str>) -> (r: Result<String, &'static str>)
    ensures
        match action {
            None => (r matches Ok(a) && a@ == "commit-push"@),
            Some(a) => if a@ == "commit"@ || a@ == "commit-push"@ || a@ == "push"@ {
                (r matches Ok(x) && x@ == a@)
            } else {
                (r matches Err(e) && e@ == "invalid git action"@)
            },
        },
{
    match action {
        None => Ok("commit-push".to_owned()),
        Some(a) => {
            let v = chars_of(a);
            if eq_chars(&v, &chars_of("commit")) || eq_chars(&v, &chars_of("commit-push")) || eq_chars(
                &v,
                &chars_of("push"),
            ) {
                Ok(a.to_owned())
            } else {
                Err("invalid git action")
            }
        },
    }
}

/// The commit message: the trimmed message when non-blank, else "Update via Ryu".
pub fn commit_message(message: Option<&str>) -> (r: String)
    ensures
        r@ == trimmed_or(
            match message {
                Some(m) => Some(m@),
                None => None,
            },
            "Update via Ryu"@,
        ),
{
    trimmed_or_default(message, "Update via Ryu")
}

// ── Project folder names ─────────────────────────────────────────────────────

/// Why a project-folder name is refused, or `None` when it is a single safe path
/// segment.
pub open spec fn folder_name_error(name: Seq<char>) -> Option<Seq<char>> {
    if name.len() == 0 {
        Some("A folder name is required"@)
    } else if name.len() > 120 {
        Some("That name is too long"@)
    } else if name == "."@ || name == ".."@ || contains(name, ".."@) {
        Some("That name is not allowed"@)
    } else if name.contains('/') || name.contains('\\') {
        Some("A folder name cannot contain slashes"@)
    } else if exists|i: int| 0 <= i < name.len() && is_control(#[trigger] name[i]) {
        Some("A folder name cannot contain control characters"@)
    } else {
        None
    }
}

/// Validate that a project-folder name is one safe path segment: non-empty, at
/// most 120 characters, no `..`, no slash or backslash, no control character.
pub fn validate_folder_name(name: &str) -> (r: Result<(), String>)
    ensures
        match r {
            Ok(()) => folder_name_error(name@) is None,
            Err(e) => folder_name_error(name@) == Some(e@),
        },
{
    let v = chars_of(name);
    if v.len() == 0 {
        return Err("A folder name is required".to_owned());
    }
    if v.len() > 120 {
        return Err("That name is too long".to_owned());
    }
    if eq_chars(&v, &chars_of(".")) || eq_chars(&v, &chars_of("..")) || contains_chars(
        &v,
        &chars_of(".."),
    ) {
        return Err("That name is not allowed".to_owned());
    }
    if has_char(&v, '/') || has_char(&v, '\\') {
        return Err("A folder name cannot contain slashes".to_owned());
    }
    let mut i: usize = 0;
    while i < v.len()
        invariant
            i <= v.len(),
            v@ == name@,
            0 < v.len() <= 120,
            !(name@ == "."@ || name@ == ".."@ || contains(name@, ".."@)),
            !name@.contains('/') && !name@.contains('\\'),
            forall|j: int| 0 <= j < i ==> !is_control(#[trigger] v@[j]),
        decreases v.len() - i,
    {
        if char_is_control(v[i]) {
            assert(is_control(name@[i as int]));
            return Err("A folder name cannot contain control characters".to_owned());
        }
        i = i + 1;
    }
    Ok(())
}

/// The folder a clone goes into: the requested name, trimmed, when non-blank;
/// else the repository's name.
pub fn clone_folder_name(name: Option<&str>, repository: &str) -> (r: String)
    ensures
        r@ == trimmed_or(
            match name {
                Some(n) => Some(n@),
                None => None,
            },
            repository@,
        ),
{
    trimmed_or_default(name, repository)
}

// ── Review paths and reverse-edit plans ──────────────────────────────────────

/// At most this many files per review.
pub const MAX_FILE_REVIEW_PATHS: usize = 64;

/// At most this many replacements per plan.
pub const MAX_REVERSE_EDITS: usize = 256;

/// Byte ceiling of one replacement text (256 KiB).
pub const MAX_REVERSE_EDIT_TEXT_BYTES: usize = 262144;

/// Byte ceiling of a whole plan (1 MiB).
pub const MAX_REVERSE_EDIT_TOTAL_BYTES: usize = 1048576;

/// Byte ceiling of a path.
pub const MAX_REVERSE_PATH_BYTES: usize = 4096;

pub open spec fn path_ok(p: Seq<char>) -> bool {
    1 <= blen(p) <= MAX_REVERSE_PATH_BYTES
}

/// Why a file-review request's paths are refused, or `None`.
pub open spec fn review_paths_error(paths: Seq<String>) -> Option<Seq<char>> {
    if paths.len() == 0 || paths.len() > MAX_FILE_REVIEW_PATHS {
        Some("paths must contain between 1 and 64 files"@)
    } else if exists|i: int| 0 <= i < paths.len() && !path_ok((#[trigger] paths[i])@) {
        Some("each path must contain between 1 and 4096 bytes"@)
    } else {
        None
    }
}

fn byte_len_in(v: &Vec<char>, lo: usize, hi: usize) -> (r: bool)
    ensures
        r == (lo <= vstd::utf8::encode_utf8(v@).len() <= hi),
{
    if !utf8_len_at_most(v, hi) {
        return false;
    }
    let n = utf8_len_bounded(v, hi);
    lo <= n
}

/// Validate the files of a review: 1 to 64 paths, each 1 to 4096 bytes.
pub fn validate_review_paths(paths: &Vec<String>) -> (r: Result<(), &'static str>)
    ensures
        match r {
            Ok(()) => review_paths_error(paths@) is None,
            Err(e) => review_paths_error(paths@) == Some(e@),
        },
{
    if paths.len() == 0 || paths.len() > MAX_FILE_REVIEW_PATHS {
        return Err("paths must contain between 1 and 64 files");
    }
    let mut i: usize = 0;
    while i < paths.len()
        invariant
            i <= paths.len(),
            1 <= paths.len() <= MAX_FILE_REVIEW_PATHS,
            forall|j: int| 0 <= j < i ==> path_ok((#[trigger] paths@[j])@),
        decreases paths.len() - i,
    {
        if !byte_len_in(&chars_of(paths[i].as_str()), 1, MAX_REVERSE_PATH_BYTES) {
            assert(!path_ok(paths@[i as int]@));
            return Err("each path must contain between 1 and 4096 bytes");
        }
        i = i + 1;
    }
    Ok(())
}

/// One exact text replacement of a plan.
pub struct TextReplacement {
    pub after: String,
    pub before: String,
    pub path: String,
}

pub open spec fn edit_parts(e: ReverseEditBody) -> (Seq<char>, Seq<char>, Seq<char>) {
    match e {
        ReverseEditBody::Replace { after, before, path } => (after@, before@, path@),
    }
}

/// A replacement must change bounded text: `after` non-empty and different from
/// `before`, both at most 256 KiB.
pub open spec fn change_ok(after: Seq<char>, before: Seq<char>) -> bool {
    &&& after.len() > 0
    &&& after != before
    &&& blen(after) <= MAX_REVERSE_EDIT_TEXT_BYTES
    &&& blen(before) <= MAX_REVERSE_EDIT_TEXT_BYTES
}

/// The first per-edit error at or after `i`.
pub open spec fn first_edit_error(es: Seq<ReverseEditBody>, i: int) -> Option<Seq<char>>
    decreases es.len() - i,
{
    if i < 0 || i >= es.len() {
        None
    } else {
        let (after, before, path) = edit_parts(es[i]);
        if !path_ok(path) {
            Some("each path must contain between 1 and 4096 bytes"@)
        } else if !change_ok(after, before) {
            Some("each replacement must contain bounded, changed text"@)
        } else {
            first_edit_error(es, i + 1)
        }
    }
}

/// The bytes of a plan: every path, `after` and `before`.
pub open spec fn plan_bytes(es: Seq<ReverseEditBody>) -> int
    decreases es.len(),
{
    if es.len() == 0 {
        0
    } else {
        let (after, before, path) = edit_parts(es.last());
        plan_bytes(es.drop_last()) + blen(path) + blen(after) + blen(before)
    }
}

/// Why a reverse-edit plan is refused, or `None`: 1 to 256 edits, each with a
/// valid path and bounded changed text (the first failing edit names the error),
/// and at most 1 MiB in all.
pub open spec fn replacements_error(es: Seq<ReverseEditBody>) -> Option<Seq<char>> {
    if es.len() == 0 || es.len() > MAX_REVERSE_EDITS {
        Some("plan edits must contain between 1 and 256 replacements"@)
    } else {
        match first_edit_error(es, 0) {
            Some(m) => Some(m),
            None => if plan_bytes(es) > MAX_REVERSE_EDIT_TOTAL_BYTES {
                Some("the reverse-edit plan exceeds the 1 MiB limit"@)
            } else {
                None
            },
        }
    }
}

pub open spec fn replacement_parts(t: TextReplacement) -> (Seq<char>, Seq<char>, Seq<char>) {
    (t.after@, t.before@, t.path@)
}

/// The replacements of a valid plan, in order (see `replacements_error`).
pub fn validated_replacements(plan: ReverseEditPlanBody) -> (r: Result<Vec<TextReplacement>, &'static str>)
    ensures
        match plan {
            ReverseEditPlanBody::TextReplacements { edits } => match r {
                Ok(v) => replacements_error(edits@) is None && v@.map_values(
                    |t: TextReplacement| replacement_parts(t),
                ) == edits@.map_values(|e: ReverseEditBody| edit_parts(e)),
                Err(m) => replacements_error(edits@) == Some(m@),
            },
        },
{
    let edits = match plan {
        ReverseEditPlanBody::TextReplacements { edits } => edits,
    };
    if edits.len() == 0 || edits.len() > MAX_REVERSE_EDITS {
        return Err("plan edits must contain between 1 and 256 replacements");
    }
    let mut total: usize = 0;
    let mut out: Vec<TextReplacement> = Vec::new();
    let mut i: usize = 0;
    while i < edits.len()
        invariant
            i <= edits.len() <= MAX_REVERSE_EDITS,
            edits.len() > 0,
            edits@ == match plan {
                ReverseEditPlanBody::TextReplacements { edits: e0 } => e0@,
            },
            first_edit_error(edits@, 0) == first_edit_error(edits@, i as int),
            total == plan_bytes(edits@.take(i as int)),
            total <= i * 528384,
            out@.map_values(|t: TextReplacement| replacement_parts(t)) == edits@.take(
                i as int,
            ).map_values(|e: ReverseEditBody| edit_parts(e)),
        decreases edits.len() - i,
    {
        let (after, before, path) = match &edits[i] {
            ReverseEditBody::Replace { after, before, path } => (after, before, path),
        };
        assert(edit_parts(edits@[i as int]) == (after@, before@, path@));
        let pv = chars_of(path.as_str());
        if !byte_len_in(&pv, 1, MAX_REVERSE_PATH_BYTES) {
            return Err("each path must contain between 1 and 4096 bytes");
        }
        let av = chars_of(after.as_str());
        let bv = chars_of(before.as_str());
        if av.len() == 0 || eq_chars(&av, &bv) || !utf8_len_at_most(&av, MAX_REVERSE_EDIT_TEXT_BYTES)
            || !utf8_len_at_most(&bv, MAX_REVERSE_EDIT_TEXT_BYTES) {
            return Err("each replacement must contain bounded, changed text");
        }
        let pl = utf8_len_bounded(&pv, MAX_REVERSE_PATH_BYTES);
        let al = utf8_len_bounded(&av, MAX_REVERSE_EDIT_TEXT_BYTES);
        let bl = utf8_len_bounded(&bv, MAX_REVERSE_EDIT_TEXT_BYTES);
        proof {
            assert(edits@.take(i + 1).drop_last() =~= edits@.take(i as int));
            assert(edits@.take(i + 1).last() == edits@[i as int]);
            assert((i + 1) * 528384 == i * 528384 + 528384) by (nonlinear_arith);
            assert(i * 528384 <= 255 * 528384) by (nonlinear_arith)
                requires
                    i < 256,
            ;
        }
        total = total + pl + al + bl;
        let ghost before_out = out@;
        out.push(TextReplacement { after: after.clone(), before: before.clone(), path: path.clone() });
        proof {
            assert(out@.map_values(|t: TextReplacement| replacement_parts(t)) =~= before_out.map_values(
                |t: TextReplacement| replacement_parts(t),
            ).push(edit_parts(edits@[i as int])));
            assert(edits@.take(i + 1).map_values(|e: ReverseEditBody| edit_parts(e)) =~= edits@.take(
                i as int,
            ).map_values(|e: ReverseEditBody| edit_parts(e)).push(edit_parts(edits@[i as int])));
        }
        i = i + 1;
    }
    proof {
        assert(edits@.take(edits.len() as int) =~= edits@);
    }
    if total > MAX_REVERSE_EDIT_TOTAL_BYTES {
        return Err("the reverse-edit plan exceeds the 1 MiB limit");
    }
    Ok(out)
}

// ── GitHub clone URLs ────────────────────────────────────────────────────────

/// `str::split(c)` applied from index `i`.
pub open spec fn split_from(s: Seq<char>, c: char, i: int) -> Seq<Seq<char>>
    decreases s.len() - i,
{
    if i < 0 || i > s.len() {
        seq![]
    } else {
        let e = index_of_char_from(s, c, i);
        proof {
            lemma_index_of_char_from(s, c, i);
        }
        if e >= s.len() {
            seq![s.subrange(i, s.len() as int)]
        } else {
            seq![s.subrange(i, e)] + split_from(s, c, e + 1)
        }
    }
}

/// The non-empty parts, in order.
pub open spec fn nonempty_parts(ps: Seq<Seq<char>>) -> Seq<Seq<char>>
    decreases ps.len(),
{
    if ps.len() == 0 {
        seq![]
    } else if ps.last().len() == 0 {
        nonempty_parts(ps.drop_last())
    } else {
        nonempty_parts(ps.drop_last()).push(ps.last())
    }
}

/// The path segments of a URL path: its `/`-separated non-empty parts.
pub open spec fn path_segments_of(path: Seq<char>) -> Seq<Seq<char>> {
    nonempty_parts(split_from(path, '/', 0))
}

pub open spec fn repo_char(c: char) -> bool {
    is_ascii_alnum(c) || c == '.' || c == '-' || c == '_'
}

pub open spec fn repo_segment_ok(seg: Seq<char>) -> bool {
    seg != "."@ && seg != ".."@ && forall|j: int| 0 <= j < seg.len() ==> repo_char(#[trigger] seg[j])
}

/// `strip_suffix(".git")`, keeping the text when it has no such suffix.
pub open spec fn strip_git(s: Seq<char>) -> Seq<char> {
    if s.len() >= 4 && s.skip(s.len() - 4) == ".git"@ {
        s.take(s.len() - 4)
    } else {
        s
    }
}

/// Stripping `.git` removes exactly those four characters from the end of a name
/// that ends in them, and leaves any other name (`lazygit`, `repo.gi`) whole.
pub proof fn lemma_strip_git_exact(s: Seq<char>)
    ensures
        (s.len() >= 4 && s.skip(s.len() - 4) == seq!['.', 'g', 'i', 't']) ==> strip_git(s)
            + seq!['.', 'g', 'i', 't'] == s && strip_git(s).len() == s.len() - 4,
        !(s.len() >= 4 && s.skip(s.len() - 4) == seq!['.', 'g', 'i', 't']) ==> strip_git(s) == s,
{
    reveal_strlit(".git");
    assert(".git"@ =~= seq!['.', 'g', 'i', 't']);
    if s.len() >= 4 && s.skip(s.len() - 4) == seq!['.', 'g', 'i', 't'] {
        assert(s.take(s.len() - 4) + s.skip(s.len() - 4) =~= s);
    }
}

/// The repository name of a valid GitHub path is its second segment, with a
/// trailing `.git` cut off when there is one and untouched otherwise.
pub proof fn lemma_repository_name_is_second_segment(path: Seq<char>)
    ensures
        repository_name(path) matches Ok(name) ==> {
            let seg = path_segments_of(path)[1];
            &&& path_segments_of(path).len() == 2
            &&& (seg.len() >= 4 && seg.skip(seg.len() - 4) == seq!['.', 'g', 'i', 't']) ==> name
                + seq!['.', 'g', 'i', 't'] == seg
            &&& !(seg.len() >= 4 && seg.skip(seg.len() - 4) == seq!['.', 'g', 'i', 't']) ==> name
                == seg
        },
{
    if path_segments_of(path).len() == 2 {
        lemma_strip_git_exact(path_segments_of(path)[1]);
    }
}

/// The repository a GitHub path names: exactly `owner/repository`, both made of
/// ASCII alphanumerics and `.-_` (and neither `.` nor `..`), the repository
/// without a `.git` suffix and not empty.
pub open spec fn repository_name(path: Seq<char>) -> Result<Seq<char>, Seq<char>> {
    let segs = path_segments_of(path);
    if segs.len() != 2 {
        Err("GitHub URL must include exactly owner/repository"@)
    } else if !repo_segment_ok(segs[0]) || !repo_segment_ok(segs[1]) {
        Err("GitHub URL contains an invalid repository path"@)
    } else if strip_git(segs[1]).len() == 0 {
        Err("GitHub URL must include a repository name"@)
    } else {
        Ok(strip_git(segs[1]))
    }
}

fn split_nonempty(v: &Vec<char>, c: char) -> (r: Vec<Vec<char>>)
    ensures
        views_of(r@) == nonempty_parts(split_from(v@, c, 0)),
{
    let mut out: Vec<Vec<char>> = Vec::new();
    let mut i: usize = 0;
    let ghost mut done: Seq<Seq<char>> = seq![];
    loop
        invariant
            i <= v.len(),
            split_from(v@, c, 0) == done + split_from(v@, c, i as int),
            views_of(out@) == nonempty_parts(done),
        decreases v.len() - i,
    {
        let e = char_index_from(v, c, i);
        proof {
            lemma_index_of_char_from(v@, c, i as int);
        }
        let part = slice_vec(v, i, e);
        let ghost before_done = done;
        proof {
            done = done.push(part@);
            assert(done.drop_last() =~= before_done);
        }
        if part.len() > 0 {
            let ghost before = out@;
            out.push(part);
            proof {
                assert(views_of(out@) =~= views_of(before).push(done.last()));
            }
        }
        if e >= v.len() {
            proof {
                assert(split_from(v@, c, 0) =~= done);
            }
            return out;
        }
        proof {
            assert(split_from(v@, c, 0) =~= done + split_from(v@, c, e + 1));
        }
        i = e + 1;
    }
}

/// Every `c`-separated part of `v`, empty ones included (`str::split`).
pub fn split_all(v: &Vec<char>, c: char) -> (r: Vec<Vec<char>>)
    ensures
        views_of(r@) == split_from(v@, c, 0),
{
    let mut out: Vec<Vec<char>> = Vec::new();
    let mut i: usize = 0;
    loop
        invariant
            i <= v.len(),
            split_from(v@, c, 0) == views_of(out@) + split_from(v@, c, i as int),
        decreases v.len() - i,
    {
        let e = char_index_from(v, c, i);
        proof {
            lemma_index_of_char_from(v@, c, i as int);
        }
        let part = slice_vec(v, i, e);
        let ghost before = out@;
        out.push(part);
        proof {
            assert(views_of(out@) =~= views_of(before).push(out@.last()@));
        }
        if e >= v.len() {
            proof {
                assert(split_from(v@, c, 0) =~= views_of(out@));
            }
            return out;
        }
        proof {
            assert(split_from(v@, c, 0) =~= views_of(out@) + split_from(v@, c, e + 1));
        }
        i = e + 1;
    }
}

fn repo_segment_ok_vec(seg: &Vec<char>) -> (r: bool)
    ensures
        r == repo_segment_ok(seg@),
{
    if eq_chars(seg, &chars_of(".")) || eq_chars(seg, &chars_of("..")) {
        return false;
    }
    let mut i: usize = 0;
    while i < seg.len()
        invariant
            i <= seg.len(),
            forall|j: int| 0 <= j < i ==> repo_char(#[trigger] seg@[j]),
        decreases seg.len() - i,
    {
        let ch = seg[i];
        if !(char_is_ascii_alnum(ch) || ch == '.' || ch == '-' || ch == '_') {
            return false;
        }
        i = i + 1;
    }
    true
}

fn strip_git_vec(s: &Vec<char>) -> (r: Vec<char>)
    ensures
        r@ == strip_git(s@),
{
    if s.len() >= 4 {
        let tail = slice_vec(s, s.len() - 4, s.len());
        if eq_chars(&tail, &chars_of(".git")) {
            assert(tail@ == s@.skip(s.len() - 4));
            return slice_vec(s, 0, s.len() - 4);
        }
        assert(tail@ == s@.skip(s.len() - 4));
    }
    slice_vec(s, 0, s.len())
}

/// The repository name of a GitHub `owner/repository` path (see `repository_name`).
pub fn github_repository_name_from_path(path: &str) -> (r: Result<String, String>)
    ensures
        match r {
            Ok(n) => repository_name(path@) == Ok::<Seq<char>, Seq<char>>(n@),
            Err(e) => repository_name(path@) == Err::<Seq<char>, Seq<char>>(e@),
        },
{
    let segs = split_nonempty(&chars_of(path), '/');
    if segs.len() != 2 {
        return Err("GitHub URL must include exactly owner/repository".to_owned());
    }
    assert(views_of(segs@)[0] == segs[0]@ && views_of(segs@)[1] == segs[1]@);
    if !repo_segment_ok_vec(&segs[0]) || !repo_segment_ok_vec(&segs[1]) {
        return Err("GitHub URL contains an invalid repository path".to_owned());
    }
    let repo = strip_git_vec(&segs[1]);
    if repo.len() == 0 {
        return Err("GitHub URL must include a repository name".to_owned());
    }
    Ok(string_of(&repo))
}

/// How a clone reaches GitHub.
#[derive(Clone, Copy, Debug, PartialEq, Eq, Structural)]
pub enum GithubCloneTransport {
    Https,
    Ssh,
}

/// The port a clone over a transport uses.
pub fn clone_port(t: GithubCloneTransport) -> (r: u16)
    ensures
        r == (if t == GithubCloneTransport::Https {
            443u16
        } else {
            22u16
        }),
{
    match t {
        GithubCloneTransport::Https => 443,
        GithubCloneTransport::Ssh => 22,
    }
}

/// A parsed URL, as far as clone checks read it.
pub struct ParsedUrl {
    pub scheme: String,
    pub host: Option<String>,
    pub username: String,
    pub password: Option<String>,
    /// The explicit port, when it is not the scheme's default.
    pub port: Option<u16>,
    pub query: Option<String>,
    pub fragment: Option<String>,
    /// The path's segments, when the URL has a hierarchical path.
    pub path_segments: Option<Vec<String>>,
}

pub open spec fn ov(o: Option<String>) -> Option<Seq<char>> {
    match o {
        Some(s) => Some(s@),
        None => None,
    }
}

/// A parsed URL, as plain values: scheme, host, username, password, port, query,
/// fragment, path segments.
pub open spec fn url_view(u: ParsedUrl) -> (
    Seq<char>,
    Option<Seq<char>>,
    Seq<char>,
    Option<Seq<char>>,
    Option<u16>,
    Option<Seq<char>>,
    Option<Seq<char>>,
    Option<Seq<Seq<char>>>,
) {
    (
        u.scheme@,
        ov(u.host),
        u.username@,
        ov(u.password),
        u.port,
        ov(u.query),
        ov(u.fragment),
        match u.path_segments {
            Some(v) => Some(strs(v@)),
            None => None,
        },
    )
}

/// What `url::Url::parse` makes of a text (read through `scheme`, `host_str`,
/// `username`, `password`, `port`, `query`, `fragment` and `path_segments`), or
/// `None` when it rejects the text.
pub uninterp spec fn url_parts(source: Seq<char>) -> Option<
    (
        Seq<char>,
        Option<Seq<char>>,
        Seq<char>,
        Option<Seq<char>>,
        Option<u16>,
        Option<Seq<char>>,
        Option<Seq<char>>,
        Option<Seq<Seq<char>>>,
    ),
>;

/// `url::Url::parse`, read through its accessors: the result is `url_parts` of the
/// text (URL grammar, host normalisation and default ports are the url crate's and
/// are not restated here).
#[verifier::external_body]
fn parse_url(source: &str) -> (r: Option<ParsedUrl>)
    ensures
        match r {
            Some(u) => url_parts(source@) == Some(url_view(u)),
            None => url_parts(source@) is None,
        },
{
    let u = url::Url::parse(source).ok()?;
    Some(ParsedUrl {
        scheme: u.scheme().to_owned(),
        host: u.host_str().map(str::to_owned),
        username: u.username().to_owned(),
        password: u.password().map(str::to_owned),
        port: u.port(),
        query: u.query().map(str::to_owned),
        fragment: u.fragment().map(str::to_owned),
        path_segments: u.path_segments().map(|s| s.map(str::to_owned).collect()),
    })
}

/// The segments joined with `/`.
pub open spec fn join_slash(ws: Seq<Seq<char>>) -> Seq<char>
    decreases ws.len(),
{
    if ws.len() == 0 {
        seq![]
    } else if ws.len() == 1 {
        ws[0]
    } else {
        join_slash(ws.drop_last()) + seq!['/'] + ws.last()
    }
}

/// The clone a parsed URL names: an `https` URL on `github.com` or
/// `www.github.com` without credentials and on port 443, or an `ssh` URL on
/// `github.com` as user `git` on port 22; no query or fragment; and a path naming
/// exactly `owner/repository`.
pub open spec fn clone_from_parts(
    p: (
        Seq<char>,
        Option<Seq<char>>,
        Seq<char>,
        Option<Seq<char>>,
        Option<u16>,
        Option<Seq<char>>,
        Option<Seq<char>>,
        Option<Seq<Seq<char>>>,
    ),
) -> Result<(Seq<char>, GithubCloneTransport), Seq<char>> {
    let (scheme, host, username, password, port, query, fragment, segments) = p;
    match host {
        None => Err("GitHub URL has no host"@),
        Some(h) => {
            let transport: Result<GithubCloneTransport, Seq<char>> = if scheme == "https"@ && (
            eq_ignore_ascii_case(h, "github.com"@) || eq_ignore_ascii_case(h, "www.github.com"@)) {
                if username.len() > 0 || password is Some {
                    Err("GitHub HTTPS URLs cannot contain credentials"@)
                } else if port is Some && port->0 != 443 {
                    Err("GitHub HTTPS URLs must use port 443"@)
                } else {
                    Ok(GithubCloneTransport::Https)
                }
            } else if scheme == "ssh"@ && eq_ignore_ascii_case(h, "github.com"@) {
                if username != "git"@ || password is Some || (port is Some && port->0 != 22) {
                    Err("GitHub SSH URLs must use the git user and port 22"@)
                } else {
                    Ok(GithubCloneTransport::Ssh)
                }
            } else {
                Err("Only GitHub HTTPS and SSH clone URLs are supported"@)
            };
            match transport {
                Err(e) => Err(e),
                Ok(t) => if query is Some || fragment is Some {
                    Err("GitHub clone URLs cannot contain a query or fragment"@)
                } else {
                    let path = match segments {
                        Some(ws) => join_slash(ws),
                        None => seq![],
                    };
                    match repository_name(path) {
                        Ok(n) => Ok((n, t)),
                        Err(e) => Err(e),
                    }
                },
            }
        },
    }
}

fn join_segments(ws: &Vec<String>) -> (r: String)
    ensures
        r@ == join_slash(strs(ws@)),
{
    let mut out: Vec<char> = Vec::new();
    let mut i: usize = 0;
    while i < ws.len()
        invariant
            i <= ws.len(),
            out@ == join_slash(strs(ws@).take(i as int)),
        decreases ws.len() - i,
    {
        let ghost before = out@;
        if i > 0 {
            out.push('/');
        }
        append_chars(&mut out, &chars_of(ws[i].as_str()));
        proof {
            let t = strs(ws@).take(i + 1);
            assert(t.drop_last() =~= strs(ws@).take(i as int));
            assert(t.last() == ws@[i as int]@);
            if i == 0 {
                assert(join_slash(t) == t[0]);
            }
            assert(out@ =~= join_slash(t));
        }
        i = i + 1;
    }
    proof {
        assert(strs(ws@).take(ws.len() as int) =~= strs(ws@));
    }
    string_of(&out)
}

fn str_eq(s: &String, lit: &str) -> (r: bool)
    ensures
        r == (s@ == lit@),
{
    eq_chars(&chars_of(s.as_str()), &chars_of(lit))
}

fn host_is(h: &String, lit: &str) -> (r: bool)
    ensures
        r == eq_ignore_ascii_case(h@, lit@),
{
    eq_ignore_ascii_case_vec(&chars_of(h.as_str()), &chars_of(lit))
}

/// The repository and transport a parsed clone URL names (see `clone_from_parts`).
pub fn github_clone_from_url(parsed: &ParsedUrl) -> (r: Result<(String, GithubCloneTransport), String>)
    ensures
        match r {
            Ok((n, t)) => clone_from_parts(url_view(*parsed)) == Ok::<
                (Seq<char>, GithubCloneTransport),
                Seq<char>,
            >((n@, t)),
            Err(e) => clone_from_parts(url_view(*parsed)) == Err::<
                (Seq<char>, GithubCloneTransport),
                Seq<char>,
            >(e@),
        },
{
    let host = match &parsed.host {
        None => return Err("GitHub URL has no host".to_owned()),
        Some(h) => h,
    };
    let transport = if str_eq(&parsed.scheme, "https") && (host_is(host, "github.com") || host_is(
        host,
        "www.github.com",
    )) {
        if parsed.username.as_str().unicode_len() > 0 || parsed.password.is_some() {
            return Err("GitHub HTTPS URLs cannot contain credentials".to_owned());
        }
        match parsed.port {
            Some(p) => if p != 443 {
                return Err("GitHub HTTPS URLs must use port 443".to_owned());
            },
            None => {},
        }
        GithubCloneTransport::Https
    } else if str_eq(&parsed.scheme, "ssh") && host_is(host, "github.com") {
        let bad_port = match parsed.port {
            Some(p) => p != 22,
            None => false,
        };
        if !str_eq(&parsed.username, "git") || parsed.password.is_some() || bad_port {
            return Err("GitHub SSH URLs must use the git user and port 22".to_owned());
        }
        GithubCloneTransport::Ssh
    } else {
        return Err("Only GitHub HTTPS and SSH clone URLs are supported".to_owned());
    };
    if parsed.query.is_some() || parsed.fragment.is_some() {
        return Err("GitHub clone URLs cannot contain a query or fragment".to_owned());
    }
    let path = match &parsed.path_segments {
        Some(ws) => join_segments(ws),
        None => String::new(),
    };
    match github_repository_name_from_path(path.as_str()) {
        Ok(n) => Ok((n, transport)),
        Err(e) => Err(e),
    }
}

/// The clone a raw URL names: trimmed; not empty; at most 2048 bytes and free of
/// control characters; the scp form `git@github.com:owner/repo` is SSH; anything
/// else must parse as a URL and pass `clone_from_parts`.
pub open spec fn clone_url_result(raw: Seq<char>) -> Result<(Seq<char>, GithubCloneTransport), Seq<char>> {
    let source = trim_ws(raw);
    if source.len() == 0 {
        Err("A GitHub repository URL is required"@)
    } else if blen(source) > 2048 || exists|i: int| 0 <= i < source.len() && is_control(
        #[trigger] source[i],
    ) {
        Err("That GitHub URL is not valid"@)
    } else if starts_with(source, "git@github.com:"@) {
        match repository_name(source.skip(15)) {
            Ok(n) => Ok((n, GithubCloneTransport::Ssh)),
            Err(e) => Err(e),
        }
    } else {
        match url_parts(source) {
            None => Err("Use a GitHub HTTPS URL or an SSH URL such as git@github.com:owner/repo.git"@),
            Some(p) => clone_from_parts(p),
        }
    }
}

/// Accept the two GitHub clone forms, HTTPS and SSH (see `clone_url_result`), and
/// name the repository.
pub fn parse_github_clone_url(raw: &str) -> (r: Result<(String, GithubCloneTransport), String>)
    ensures
        match r {
            Ok((n, t)) => clone_url_result(raw@) == Ok::<(Seq<char>, GithubCloneTransport), Seq<char>>(
                (n@, t),
            ),
            Err(e) => clone_url_result(raw@) == Err::<(Seq<char>, GithubCloneTransport), Seq<char>>(
                e@,
            ),
        },
{
    let source = trimmed(&chars_of(raw), CharClass::Whitespace);
    if source.len() == 0 {
        return Err("A GitHub repository URL is required".to_owned());
    }
    if !utf8_len_at_most(&source, 2048) {
        return Err("That GitHub URL is not valid".to_owned());
    }
    let mut i: usize = 0;
    while i < source.len()
        invariant
            i <= source.len(),
            source@ == trim_ws(raw@),
            source@.len() > 0,
            blen(source@) <= 2048,
            forall|j: int| 0 <= j < i ==> !is_control(#[trigger] source@[j]),
        decreases source.len() - i,
    {
        if char_is_control(source[i]) {
            proof {
                assert(is_control(source@[i as int]));
            }
            return Err("That GitHub URL is not valid".to_owned());
        }
        i = i + 1;
    }
    let prefix = chars_of("git@github.com:");
    proof {
        reveal_strlit("git@github.com:");
    }
    if starts_with_chars(&source, &prefix) {
        let rest = slice_vec(&source, 15, source.len());
        let rest_s = string_of(&rest);
        return match github_repository_name_from_path(rest_s.as_str()) {
            Ok(n) => Ok((n, GithubCloneTransport::Ssh)),
            Err(e) => Err(e),
        };
    }
    let s = string_of(&source);
    match parse_url(s.as_str()) {
        None => Err("Use a GitHub HTTPS URL or an SSH URL such as git@github.com:owner/repo.git".to_owned()),
        Some(p) => github_clone_from_url(&p),
    }
}

// ── Workspace guards ─────────────────────────────────────────────────────────

/// The working-directory guard every write endpoint runs first: a `cwd` is
/// required (`cwd is required`) and must be a directory (`cwd is not a
/// directory`), both 400s.
pub fn check_workspace(cwd: &str, is_dir: bool) -> (r: Result<(), &'static str>)
    ensures
        match r {
            Ok(()) => cwd@.len() > 0 && is_dir,
            Err(e) => if cwd@.len() == 0 {
                e@ == "cwd is required"@
            } else {
                !is_dir && e@ == "cwd is not a directory"@
            },
        },
{
    if cwd.unicode_len() == 0 {
        return Err("cwd is required");
    }
    if !is_dir {
        return Err("cwd is not a directory");
    }
    Ok(())
}

/// The guard of a branch switch or creation: both `cwd` and `branch` are
/// required (`cwd and branch are required`), then `cwd` must be a directory.
pub fn check_branch_request(body: &GitCheckoutBody, is_dir: bool) -> (r: Result<(), &'static str>)
    ensures
        match r {
            Ok(()) => body.cwd@.len() > 0 && body.branch@.len() > 0 && is_dir,
            Err(e) => if body.cwd@.len() == 0 || body.branch@.len() == 0 {
                e@ == "cwd and branch are required"@
            } else {
                !is_dir && e@ == "cwd is not a directory"@
            },
        },
{
    if body.cwd.as_str().unicode_len() == 0 || body.branch.as_str().unicode_len() == 0 {
        return Err("cwd and branch are required");
    }
    if !is_dir {
        return Err("cwd is not a directory");
    }
    Ok(())
}

/// The `cwd` query parameter of the read endpoints: absent when missing or
/// empty (a 400, `cwd query param is required`).
pub fn status_cwd(cwd: Option<&str>) -> (r: Result<String, &'static str>)
    ensures
        match r {
            Ok(c) => (cwd matches Some(x) && x@.len() > 0 && c@ == x@),
            Err(e) => (cwd is None || (cwd matches Some(x) && x@.len() == 0)) && e@
                == "cwd query param is required"@,
        },
{
    match cwd {
        Some(c) => {
            if c.unicode_len() == 0 {
                Err("cwd query param is required")
            } else {
                Ok(c.to_owned())
            }
        },
        None => Err("cwd query param is required"),
    }
}

/// Whether `base` is a prefix of `path` by whole path components
/// (`std::path::Path::starts_with`).
pub uninterp spec fn path_within(path: Seq<char>, base: Seq<char>) -> bool;

/// `std::path::Path::new(path).strip_prefix(base).is_ok()`: whether `base` is a
/// prefix of `path` by whole components (which is when `strip_prefix` succeeds).
/// Which paths that holds for is named by `path_within`.
#[verifier::external_body]
pub(crate) fn has_path_prefix(path: &str, base: &str) -> (r: bool)
    ensures
        r == path_within(path@, base@),
{
    std::path::Path::new(path).strip_prefix(base).is_ok()
}

/// Where a remote git action may run, given the workspace canonicalised
/// (`None` when it could not be resolved) and the node's home directory,
/// canonicalised when possible (`None` when there is none): inside the home tree
/// only.
pub open spec fn remote_workspace_decision(
    canonical: Option<Seq<char>>,
    home: Option<Seq<char>>,
) -> Result<Seq<char>, Seq<char>> {
    match canonical {
        None => Err("cwd could not be resolved on the node"@),
        Some(p) => match home {
            None => Err("node home directory is unavailable"@),
            Some(h) => if p == h || path_within(p, h) {
                Ok(p)
            } else {
                Err("cwd must stay inside the node home directory"@)
            },
        },
    }
}

/// See `remote_workspace_decision`.
pub fn remote_workspace(canonical: Option<&str>, home: Option<&str>) -> (r: Result<String, String>)
    ensures
        match r {
            Ok(p) => remote_workspace_decision(
                match canonical {
                    Some(c) => Some(c@),
                    None => None,
                },
                match home {
                    Some(h) => Some(h@),
                    None => None,
                },
            ) == Ok::<Seq<char>, Seq<char>>(p@),
            Err(e) => remote_workspace_decision(
                match canonical {
                    Some(c) => Some(c@),
                    None => None,
                },
                match home {
                    Some(h) => Some(h@),
                    None => None,
                },
            ) == Err::<Seq<char>, Seq<char>>(e@),
        },
{
    let p = match canonical {
        Some(p) => p,
        None => {
            return Err("cwd could not be resolved on the node".to_owned());
        },
    };
    let h = match home {
        Some(h) => h,
        None => {
            return Err("node home directory is unavailable".to_owned());
        },
    };
    if eq_chars(&chars_of(p), &chars_of(h)) || has_path_prefix(p, h) {
        Ok(p.to_owned())
    } else {
        Err("cwd must stay inside the node home directory".to_owned())
    }
}

/// The refusal of a clone whose destination already exists.
pub fn clone_conflict_message(name: &str) -> (r: String)
    ensures
        r@ == "A project folder named \""@ + name@ + "\" already exists"@,
{
    let a = crate::ids::prefixed("A project folder named \"", name);
    crate::ids::prefixed(a.as_str(), "\" already exists")
}

} // verus!
