//! Language packs are portable data, not plugins: what a valid locale tag and a
//! valid display text are, and the checks an installed or imported pack passes
//! before its messages reach the shell.
use vstd::prelude::*;
use base64::Engine as _;
use crate::text::{
    CharClass, chars_of, eq_chars, eq_ignore_ascii_case, index_of_char_from,
    lemma_index_of_char_from, slice_vec, starts_with, starts_with_chars, trim_start, trim_ws,
    trimmed, trimmed_start, utf8_len_at_most, is_ascii_alpha, is_ascii_alnum, char_index_from,
    eq_ignore_ascii_case_vec,
};

verus! {

/// The one artifact a language pack carries.
pub open spec fn artifact_name() -> Seq<char> {
    "language-pack.json"@
}

/// The pack schema version this node reads.
pub const LANGUAGE_PACK_SCHEMA_VERSION: u64 = 1;

/// Byte ceiling of the raw artifact (4 MiB).
pub const MAX_LANGUAGE_PACK_BYTES: usize = 4194304;

/// At most this many messages.
pub const MAX_LANGUAGE_PACK_MESSAGES: usize = 20000;

/// Byte ceiling of a message id.
pub const MAX_LANGUAGE_PACK_MESSAGE_ID: usize = 200;

/// Character ceiling of a message.
pub const MAX_LANGUAGE_PACK_MESSAGE: usize = 32000;

/// Byte ceiling of a base64 import body: the expansion of an 8 MiB archive plus the
/// JSON envelope.
pub const MAX_LANGUAGE_PACK_IMPORT_BODY_BYTES: usize = 11185836;

// ── Locale tags ──────────────────────────────────────────────────────────────

/// `str::split('-')` applied from index `i`: the parts between dashes, an empty
/// part where two dashes meet or a dash ends the text.
pub open spec fn dash_parts_from(s: Seq<char>, i: int) -> Seq<Seq<char>>
    decreases s.len() - i,
{
    if i < 0 || i > s.len() {
        seq![]
    } else {
        let e = index_of_char_from(s, '-', i);
        proof {
            lemma_index_of_char_from(s, '-', i);
        }
        if e >= s.len() {
            seq![s.subrange(i, s.len() as int)]
        } else {
            seq![s.subrange(i, e)] + dash_parts_from(s, e + 1)
        }
    }
}

pub open spec fn dash_parts(s: Seq<char>) -> Seq<Seq<char>> {
    dash_parts_from(s, 0)
}

/// A subtag after the first: 1 to 8 ASCII alphanumerics (so as many bytes as
/// characters), and a single-character subtag (an extension singleton such as
/// `x` or `u`) must be followed by at least one more subtag.
pub open spec fn valid_subtag(parts: Seq<Seq<char>>, k: int) -> bool {
    let p = parts[k];
    &&& p.len() > 0
    &&& p.len() <= 8
    &&& forall|j: int| 0 <= j < p.len() ==> is_ascii_alnum(#[trigger] p[j])
    &&& (p.len() != 1 || k + 1 < parts.len())
}

/// A locale tag as the runtime accepts it: a primary subtag of 2 to 8 ASCII
/// letters other than `x`, then valid subtags.
pub open spec fn locale_ok(s: Seq<char>) -> bool {
    let parts = dash_parts(s);
    let first = parts[0];
    &&& first.len() >= 2
    &&& first.len() <= 8
    &&& forall|j: int| 0 <= j < first.len() ==> is_ascii_alpha(#[trigger] first[j])
    &&& !eq_ignore_ascii_case(first, "x"@)
    &&& forall|k: int| 1 <= k < parts.len() ==> #[trigger] valid_subtag(parts, k)
}

proof fn lemma_dash_parts_nonempty(s: Seq<char>, i: int)
    requires
        0 <= i <= s.len(),
    ensures
        dash_parts_from(s, i).len() >= 1,
    decreases s.len() - i,
{
    lemma_index_of_char_from(s, '-', i);
    let e = index_of_char_from(s, '-', i);
    if e < s.len() {
        lemma_dash_parts_nonempty(s, e + 1);
    }
}

fn dash_split(v: &Vec<char>) -> (r: Vec<Vec<char>>)
    ensures
        crate::text::views_of(r@) == dash_parts(v@),
        r.len() >= 1,
{
    let mut out: Vec<Vec<char>> = Vec::new();
    let mut i: usize = 0;
    proof {
        lemma_dash_parts_nonempty(v@, 0);
    }
    loop
        invariant
            i <= v.len(),
            crate::text::views_of(out@) + dash_parts_from(v@, i as int) == dash_parts(v@),
        decreases v.len() - i,
    {
        let e = char_index_from(v, '-', i);
        proof {
            lemma_index_of_char_from(v@, '-', i as int);
        }
        let ghost before = out@;
        out.push(slice_vec(v, i, e));
        proof {
            assert(crate::text::views_of(out@) =~= crate::text::views_of(before).push(
                v@.subrange(i as int, e as int),
            ));
        }
        if e >= v.len() {
            proof {
                assert(crate::text::views_of(out@) =~= crate::text::views_of(before) + dash_parts_from(
                    v@,
                    i as int,
                ));
            }
            return out;
        }
        proof {
            assert(crate::text::views_of(out@) + dash_parts_from(v@, e + 1) =~= crate::text::views_of(
                before,
            ) + dash_parts_from(v@, i as int));
        }
        i = e + 1;
    }
}

fn all_ascii_alpha(v: &Vec<char>) -> (r: bool)
    ensures
        r == forall|j: int| 0 <= j < v.len() ==> is_ascii_alpha(#[trigger] v@[j]),
{
    let mut i: usize = 0;
    while i < v.len()
        invariant
            i <= v.len(),
            forall|j: int| 0 <= j < i ==> is_ascii_alpha(#[trigger] v@[j]),
        decreases v.len() - i,
    {
        let c = v[i];
        if !(('a' <= c && c <= 'z') || ('A' <= c && c <= 'Z')) {
            return false;
        }
        i = i + 1;
    }
    true
}

fn all_ascii_alnum(v: &Vec<char>) -> (r: bool)
    ensures
        r == forall|j: int| 0 <= j < v.len() ==> is_ascii_alnum(#[trigger] v@[j]),
{
    let mut i: usize = 0;
    while i < v.len()
        invariant
            i <= v.len(),
            forall|j: int| 0 <= j < i ==> is_ascii_alnum(#[trigger] v@[j]),
        decreases v.len() - i,
    {
        if !crate::text::char_is_ascii_alnum(v[i]) {
            return false;
        }
        i = i + 1;
    }
    true
}

/// Whether a locale tag has the shape the runtime accepts (`en`, `zh-Hant`,
/// `en-x-online`; not `e`, `en-u`, `x-private` or `EN_us`).
pub fn valid_locale(value: &str) -> (r: bool)
    ensures
        r == locale_ok(value@),
{
    let v = chars_of(value);
    let parts = dash_split(&v);
    let ghost pv = crate::text::views_of(parts@);
    let first = &parts[0];
    assert(pv[0] == first@);
    if !(first.len() >= 2 && first.len() <= 8 && all_ascii_alpha(first)) {
        return false;
    }
    if eq_ignore_ascii_case_vec(first, &chars_of("x")) {
        return false;
    }
    let mut k: usize = 1;
    while k < parts.len()
        invariant
            1 <= k <= parts.len(),
            v@ == value@,
            pv == crate::text::views_of(parts@),
            pv == dash_parts(v@),
            forall|q: int| 1 <= q < k ==> #[trigger] valid_subtag(pv, q),
        decreases parts.len() - k,
    {
        let p = &parts[k];
        assert(pv[k as int] == p@);
        let ok = p.len() > 0 && p.len() <= 8 && all_ascii_alnum(p) && (p.len() != 1 || k + 1
            < parts.len());
        if !ok {
            assert(!valid_subtag(pv, k as int));
            return false;
        }
        k = k + 1;
    }
    true
}

// ── Display texts ────────────────────────────────────────────────────────────

/// The control characters a display text may not hold: U+0000..=U+0008, U+000B,
/// U+000C, U+000E..=U+001F and U+007F (tab, line feed and carriage return are
/// allowed).
pub open spec fn forbidden_control(c: char) -> bool {
    let code = c as u32;
    code <= 8 || code == 11 || code == 12 || (14 <= code && code <= 31) || code == 127
}

/// A display text: not blank, at most `max_length` characters, and free of the
/// forbidden control characters.
pub open spec fn text_ok(s: Seq<char>, max_length: nat) -> bool {
    &&& trim_ws(s).len() > 0
    &&& s.len() <= max_length
    &&& forall|j: int| 0 <= j < s.len() ==> !forbidden_control(#[trigger] s[j])
}

fn text_ok_vec(v: &Vec<char>, max_length: usize) -> (r: bool)
    ensures
        r == text_ok(v@, max_length as nat),
{
    if trimmed(v, CharClass::Whitespace).len() == 0 || v.len() > max_length {
        return false;
    }
    let mut i: usize = 0;
    while i < v.len()
        invariant
            i <= v.len(),
            forall|j: int| 0 <= j < i ==> !forbidden_control(#[trigger] v@[j]),
        decreases v.len() - i,
    {
        let code = v[i] as u32;
        if code <= 8 || code == 11 || code == 12 || (14 <= code && code <= 31) || code == 127 {
            assert(forbidden_control(v@[i as int]));
            return false;
        }
        i = i + 1;
    }
    true
}

/// Whether a text may be shown: non-blank, at most `max_length` characters, no
/// forbidden control character.
pub fn valid_text(value: &str, max_length: usize) -> (r: bool)
    ensures
        r == text_ok(value@, max_length as nat),
{
    text_ok_vec(&chars_of(value), max_length)
}

// ── Packages ─────────────────────────────────────────────────────────────────

/// A language pack's content.
pub struct LanguagePack {
    pub base_locale: String,
    /// `ltr` or `rtl`.
    pub direction: String,
    pub id: String,
    pub locale: String,
    /// Message id to message, in id order, each id once.
    pub messages: Vec<(String, String)>,
    pub name: String,
    pub schema_version: u64,
    pub version: String,
}

/// A version as packages compare it: trimmed, leading `v`s dropped.
pub open spec fn bare_version(s: Seq<char>) -> Seq<char> {
    trim_start(trim_ws(s), CharClass::LetterV)
}

fn bare_version_vec(s: &str) -> (r: Vec<char>)
    ensures
        r@ == bare_version(s@),
{
    trimmed_start(&trimmed(&chars_of(s), CharClass::Whitespace), CharClass::LetterV)
}

/// Why a package is not a valid language pack.
pub enum PackError {
    /// The installed package is of another kind (holds it).
    NotALanguagePack(String),
    MissingArtifact,
    ExtraArtifacts,
    TooLarge,
    NotJson,
    SchemaVersion,
    IdentityMismatch,
    InvalidMetadata,
    InvalidDirection,
    TooManyMessages,
    InvalidMessage,
    UnsafePackage,
}

pub open spec fn pack_error_text(e: PackError) -> Seq<char> {
    match e {
        PackError::NotALanguagePack(kind) => "package kind `"@ + kind@ + "` is not a language pack"@,
        PackError::MissingArtifact => "language-pack package is missing language-pack.json"@,
        PackError::ExtraArtifacts => "language-pack package may contain only language-pack.json"@,
        PackError::TooLarge => "language-pack artifact exceeds the 4 MiB limit"@,
        PackError::NotJson => "language-pack artifact is not valid JSON"@,
        PackError::SchemaVersion => "language-pack schemaVersion must be 1"@,
        PackError::IdentityMismatch => "language-pack identity does not match the installed package"@,
        PackError::InvalidMetadata => "language-pack metadata is invalid"@,
        PackError::InvalidDirection => "language-pack direction must be ltr or rtl"@,
        PackError::TooManyMessages => "language-pack contains too many messages"@,
        PackError::InvalidMessage => "language-pack contains an invalid message"@,
        PackError::UnsafePackage => "language-pack package must contain only language-pack.json and no capabilities or permissions"@,
    }
}

impl PackError {
    /// The error text.
    pub fn message(&self) -> (r: String)
        ensures
            r@ == pack_error_text(*self),
    {
        match self {
            PackError::NotALanguagePack(kind) => {
                let mut v = chars_of("package kind `");
                crate::text::append_chars(&mut v, &chars_of(kind.as_str()));
                crate::text::append_chars(&mut v, &chars_of("` is not a language pack"));
                crate::text::string_of(&v)
            },
            PackError::MissingArtifact => "language-pack package is missing language-pack.json".to_owned(),
            PackError::ExtraArtifacts => "language-pack package may contain only language-pack.json".to_owned(),
            PackError::TooLarge => "language-pack artifact exceeds the 4 MiB limit".to_owned(),
            PackError::NotJson => "language-pack artifact is not valid JSON".to_owned(),
            PackError::SchemaVersion => "language-pack schemaVersion must be 1".to_owned(),
            PackError::IdentityMismatch => "language-pack identity does not match the installed package".to_owned(),
            PackError::InvalidMetadata => "language-pack metadata is invalid".to_owned(),
            PackError::InvalidDirection => "language-pack direction must be ltr or rtl".to_owned(),
            PackError::TooManyMessages => "language-pack contains too many messages".to_owned(),
            PackError::InvalidMessage => "language-pack contains an invalid message".to_owned(),
            PackError::UnsafePackage => "language-pack package must contain only language-pack.json and no capabilities or permissions".to_owned(),
        }
    }
}

/// The envelope of a package's files (each named, with its byte size): it must be
/// of the language-pack kind and hold exactly the one artifact, of at most 4 MiB.
/// `Ok` holds the artifact's index.
pub open spec fn envelope_ok(kind: Seq<char>, files: Seq<(String, usize)>) -> bool {
    &&& kind == "language_pack"@
    &&& files.len() == 1
    &&& files[0].0@ == artifact_name()
    &&& files[0].1 <= MAX_LANGUAGE_PACK_BYTES
}

/// Check a package's file envelope before its artifact is read: the kind, the
/// artifact's presence, that it is the only file, and its size.
pub fn check_package_envelope(kind: &str, files: &Vec<(String, usize)>) -> (r: Result<usize, PackError>)
    ensures
        r is Ok <==> envelope_ok(kind@, files@),
        r matches Ok(i) ==> i == 0,
        kind@ != "language_pack"@ ==> r matches Err(PackError::NotALanguagePack(_)),
{
    if !eq_chars(&chars_of(kind), &chars_of("language_pack")) {
        return Err(PackError::NotALanguagePack(kind.to_owned()));
    }
    let art = chars_of("language-pack.json");
    let mut found: Option<usize> = None;
    let mut i: usize = 0;
    while i < files.len()
        invariant
            i <= files.len(),
            art@ == artifact_name(),
            found matches Some(k) ==> k < files.len() && files@[k as int].0@ == artifact_name(),
            found is None ==> forall|j: int| 0 <= j < i ==> (#[trigger] files@[j]).0@ != artifact_name(),
        decreases files.len() - i,
    {
        if found.is_none() && eq_chars(&chars_of(files[i].0.as_str()), &art) {
            found = Some(i);
        }
        i = i + 1;
    }
    let k = match found {
        None => return Err(PackError::MissingArtifact),
        Some(k) => k,
    };
    if files.len() != 1 {
        return Err(PackError::ExtraArtifacts);
    }
    if files[k].1 > MAX_LANGUAGE_PACK_BYTES {
        return Err(PackError::TooLarge);
    }
    Ok(k)
}

pub open spec fn message_ok(id: Seq<char>, message: Seq<char>) -> bool {
    &&& id.len() > 0
    &&& vstd::utf8::encode_utf8(id).len() <= MAX_LANGUAGE_PACK_MESSAGE_ID
    &&& !starts_with(id, "__"@)
    &&& text_ok(message, MAX_LANGUAGE_PACK_MESSAGE as nat)
}

/// What a parsed pack must be to be used for the installed package `(id, version)`.
pub open spec fn pack_ok(p: LanguagePack, id: Seq<char>, version: Seq<char>) -> bool {
    &&& p.schema_version == LANGUAGE_PACK_SCHEMA_VERSION
    &&& p.id@ == id
    &&& bare_version(p.version@) == bare_version(version)
    &&& text_ok(p.name@, 120)
    &&& text_ok(p.id@, 160)
    &&& text_ok(p.version@, 128)
    &&& locale_ok(p.locale@)
    &&& locale_ok(p.base_locale@)
    &&& (p.direction@ == "ltr"@ || p.direction@ == "rtl"@)
    &&& p.messages.len() <= MAX_LANGUAGE_PACK_MESSAGES
    &&& forall|k: int| 0 <= k < p.messages.len() ==> message_ok(
        (#[trigger] p.messages@[k]).0@,
        p.messages@[k].1@,
    )
}

/// Check a parsed pack against the installed package it came in: the schema
/// version, the identity (id and version, a leading `v` aside), the metadata texts
/// and locales, the direction, and every message. The first failing check names
/// the error.
pub fn validate_pack(pack: &LanguagePack, id: &str, version: &str) -> (r: Result<(), PackError>)
    ensures
        r is Ok <==> pack_ok(*pack, id@, version@),
        pack.schema_version != LANGUAGE_PACK_SCHEMA_VERSION ==> r matches Err(PackError::SchemaVersion),
        pack.schema_version == LANGUAGE_PACK_SCHEMA_VERSION && (pack.id@ != id@ || bare_version(
            pack.version@,
        ) != bare_version(version@)) ==> r matches Err(PackError::IdentityMismatch),
{
    if pack.schema_version != LANGUAGE_PACK_SCHEMA_VERSION {
        return Err(PackError::SchemaVersion);
    }
    if !eq_chars(&chars_of(pack.id.as_str()), &chars_of(id)) || !eq_chars(
        &bare_version_vec(pack.version.as_str()),
        &bare_version_vec(version),
    ) {
        return Err(PackError::IdentityMismatch);
    }
    if !valid_text(pack.name.as_str(), 120) || !valid_text(pack.id.as_str(), 160) || !valid_text(
        pack.version.as_str(),
        128,
    ) || !valid_locale(pack.locale.as_str()) || !valid_locale(pack.base_locale.as_str()) {
        return Err(PackError::InvalidMetadata);
    }
    let d = chars_of(pack.direction.as_str());
    if !eq_chars(&d, &chars_of("ltr")) && !eq_chars(&d, &chars_of("rtl")) {
        return Err(PackError::InvalidDirection);
    }
    if pack.messages.len() > MAX_LANGUAGE_PACK_MESSAGES {
        return Err(PackError::TooManyMessages);
    }
    let mut k: usize = 0;
    while k < pack.messages.len()
        invariant
            k <= pack.messages.len(),
            pack.schema_version == LANGUAGE_PACK_SCHEMA_VERSION,
            pack.id@ == id@,
            bare_version(pack.version@) == bare_version(version@),
            forall|q: int| 0 <= q < k ==> message_ok(
                (#[trigger] pack.messages@[q]).0@,
                pack.messages@[q].1@,
            ),
        decreases pack.messages.len() - k,
    {
        let (mid, msg) = &pack.messages[k];
        let idv = chars_of(mid.as_str());
        let ok = idv.len() > 0 && utf8_len_at_most(&idv, MAX_LANGUAGE_PACK_MESSAGE_ID)
            && !starts_with_chars(&idv, &chars_of("__")) && valid_text(
            msg.as_str(),
            MAX_LANGUAGE_PACK_MESSAGE,
        );
        if !ok {
            return Err(PackError::InvalidMessage);
        }
        k = k + 1;
    }
    Ok(())
}

/// Validate a language-pack package: its file envelope first (see
/// `check_package_envelope`), then its artifact as parsed (`None` when it was not
/// valid JSON for a pack), then the pack against the installed record (see
/// `validate_pack`).
pub fn validate_package_files(
    kind: &str,
    id: &str,
    version: &str,
    files: &Vec<(String, usize)>,
    parsed: &Option<LanguagePack>,
) -> (r: Result<(), PackError>)
    ensures
        r is Ok <==> envelope_ok(kind@, files@) && (*parsed matches Some(p) && pack_ok(p, id@, version@)),
        !envelope_ok(kind@, files@) ==> r is Err,
        envelope_ok(kind@, files@) && parsed is None ==> r matches Err(PackError::NotJson),
        kind@ != "language_pack"@ ==> r matches Err(PackError::NotALanguagePack(_)),
{
    check_package_envelope(kind, files)?;
    match parsed {
        None => Err(PackError::NotJson),
        Some(p) => validate_pack(p, id, version),
    }
}

/// A portable package's manifest, as far as the data-only contract reads it.
pub struct PackageManifest {
    pub kind: String,
    pub id: String,
    pub version: String,
    pub artifacts: Vec<String>,
    /// How many capabilities it declares.
    pub capability_count: usize,
    /// How many security permissions it declares.
    pub permission_count: usize,
    pub contains_secrets: bool,
    pub private_content: bool,
}

/// The data-only envelope of a language-pack package.
pub open spec fn manifest_ok(kind: Seq<char>, id: Seq<char>, version: Seq<char>, m: PackageManifest) -> bool {
    &&& kind == "language_pack"@
    &&& m.kind@ == "language_pack"@
    &&& m.id@ == id
    &&& bare_version(m.version@) == bare_version(version)
    &&& m.artifacts.len() == 1
    &&& m.artifacts@[0]@ == artifact_name()
    &&& m.capability_count == 0
    &&& m.permission_count == 0
    &&& !m.contains_secrets
    &&& !m.private_content
}

/// Enforce the package half of the data-only contract: a language-pack manifest
/// for this id and version, holding only the artifact, with no capabilities,
/// permissions, secrets or private content.
pub fn validate_language_pack_manifest(
    kind: &str,
    id: &str,
    version: &str,
    manifest: &PackageManifest,
) -> (r: Result<(), PackError>)
    ensures
        r is Ok <==> manifest_ok(kind@, id@, version@, *manifest),
        r matches Err(e) ==> e is UnsafePackage,
{
    let lp = chars_of("language_pack");
    let ok = eq_chars(&chars_of(kind), &lp) && eq_chars(&chars_of(manifest.kind.as_str()), &lp)
        && eq_chars(&chars_of(manifest.id.as_str()), &chars_of(id)) && eq_chars(
        &bare_version_vec(manifest.version.as_str()),
        &bare_version_vec(version),
    ) && manifest.artifacts.len() == 1 && eq_chars(
        &chars_of(manifest.artifacts[0].as_str()),
        &chars_of("language-pack.json"),
    ) && manifest.capability_count == 0 && manifest.permission_count == 0
        && !manifest.contains_secrets && !manifest.private_content;
    if ok {
        Ok(())
    } else {
        Err(PackError::UnsafePackage)
    }
}

/// Why an import body is refused before it is decoded.
pub enum ImportRefusal {
    /// No archive (400).
    Missing,
    /// Over the request limit (413).
    TooLarge,
    /// Not valid standard base64 (400), with the decoder's words.
    Invalid { message: String },
}

/// Check an import body's base64 archive before decoding it: it must be non-blank
/// and at most `MAX_LANGUAGE_PACK_IMPORT_BODY_BYTES` bytes.
pub fn check_import_body(archive_base64: &str) -> (r: Result<(), ImportRefusal>)
    ensures
        trim_ws(archive_base64@).len() == 0 ==> r matches Err(ImportRefusal::Missing),
        trim_ws(archive_base64@).len() > 0 ==> (r is Ok <==> vstd::utf8::encode_utf8(
            archive_base64@,
        ).len() <= MAX_LANGUAGE_PACK_IMPORT_BODY_BYTES),
        r is Err && trim_ws(archive_base64@).len() > 0 ==> r matches Err(ImportRefusal::TooLarge),
{
    let v = chars_of(archive_base64);
    if trimmed(&v, CharClass::Whitespace).len() == 0 {
        return Err(ImportRefusal::Missing);
    }
    if !utf8_len_at_most(&v, MAX_LANGUAGE_PACK_IMPORT_BODY_BYTES) {
        return Err(ImportRefusal::TooLarge);
    }
    Ok(())
}

/// What standard, padded base64 decoding makes of a text: the bytes, or the
/// decoder's error in words.
pub uninterp spec fn base64_standard_decoded(text: Seq<char>) -> Result<Seq<u8>, Seq<char>>;

/// `base64::engine::general_purpose::STANDARD.decode(text)`: the decoded bytes,
/// or the decoder's error as its `Display` text. Which texts decode, to what, and
/// the wording of each error, is named by `base64_standard_decoded`.
#[verifier::external_body]
fn decode_standard_base64(text: &str) -> (r: Result<Vec<u8>, String>)
    ensures
        match r {
            Ok(b) => base64_standard_decoded(text@) == Ok::<Seq<u8>, Seq<char>>(b@),
            Err(e) => base64_standard_decoded(text@) == Err::<Seq<u8>, Seq<char>>(e@),
        },
{
    base64::engine::general_purpose::STANDARD.decode(text.as_bytes()).map_err(|e| e.to_string())
}

/// Read an import body's archive: refused when blank or over the request limit
/// (see `check_import_body`), else decoded from standard base64, an undecodable
/// text being refused as `archive_base64 is invalid: ` and the decoder's words.
pub fn decode_import_body(archive_base64: &str) -> (r: Result<Vec<u8>, ImportRefusal>)
    ensures
        trim_ws(archive_base64@).len() == 0 ==> r matches Err(ImportRefusal::Missing),
        trim_ws(archive_base64@).len() > 0 && vstd::utf8::encode_utf8(archive_base64@).len()
            > MAX_LANGUAGE_PACK_IMPORT_BODY_BYTES ==> r matches Err(ImportRefusal::TooLarge),
        trim_ws(archive_base64@).len() > 0 && vstd::utf8::encode_utf8(archive_base64@).len()
            <= MAX_LANGUAGE_PACK_IMPORT_BODY_BYTES ==> match base64_standard_decoded(archive_base64@) {
            Ok(bytes) => (r matches Ok(b) && b@ == bytes),
            Err(words) => (r matches Err(ImportRefusal::Invalid { message }) && message@
                == "archive_base64 is invalid: "@ + words),
        },
{
    check_import_body(archive_base64)?;
    match decode_standard_base64(archive_base64) {
        Ok(bytes) => Ok(bytes),
        Err(e) => {
            let message = crate::ids::prefixed("archive_base64 is invalid: ", e.as_str());
            Err(ImportRefusal::Invalid { message })
        },
    }
}

} // verus!
