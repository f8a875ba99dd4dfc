//! Fresh identifiers and the clock: random UUIDs (the `uuid` crate) and the
//! current time (the `chrono` crate), plus the verified way every prefixed id of
//! the node is put together.
use vstd::prelude::*;
use crate::text::{append_chars, chars_of, string_of};

verus! {

pub open spec fn is_lower_hex(c: char) -> bool {
    ('0' <= c && c <= '9') || ('a' <= c && c <= 'f')
}

/// The text of a UUID in its "simple" form: 32 lowercase hexadecimal digits.
pub open spec fn is_simple_uuid(s: Seq<char>) -> bool {
    s.len() == 32 && forall|i: int| 0 <= i < 32 ==> is_lower_hex(#[trigger] s[i])
}

pub open spec fn is_hyphen_pos(i: int) -> bool {
    i == 8 || i == 13 || i == 18 || i == 23
}

/// The text of a UUID in its hyphenated form: 36 characters, `-` at offsets 8,
/// 13, 18 and 23 and lowercase hexadecimal digits elsewhere.
pub open spec fn is_hyphenated_uuid(s: Seq<char>) -> bool {
    &&& s.len() == 36
    &&& forall|i: int|
        0 <= i < 36 ==> if is_hyphen_pos(i) {
            #[trigger] s[i] == '-'
        } else {
            is_lower_hex(s[i])
        }
}

/// `uuid::Uuid::new_v4().simple().to_string()`: a random version-4 UUID, written
/// as 32 lowercase hexadecimal digits. Which digits come out is left open: they
/// are random.
#[verifier::external_body]
pub(crate) fn fresh_simple_uuid() -> (r: String)
    ensures
        is_simple_uuid(r@),
{
    uuid::Uuid::new_v4().simple().to_string()
}

/// `uuid::Uuid::new_v4().to_string()`: a random version-4 UUID in the hyphenated
/// lowercase form. Which digits come out is left open: they are random.
#[verifier::external_body]
pub(crate) fn fresh_hyphenated_uuid() -> (r: String)
    ensures
        is_hyphenated_uuid(r@),
{
    uuid::Uuid::new_v4().to_string()
}

/// `chrono::Utc::now().timestamp_millis()`: the current time in milliseconds
/// since the Unix epoch. Nothing is stated of the value: it is the clock's.
#[verifier::external_body]
pub(crate) fn now_millis() -> (r: i64) {
    chrono::Utc::now().timestamp_millis()
}

/// `chrono::Utc::now().to_rfc3339()`: the current time as RFC 3339 text. Nothing
/// is stated of the value: it is the clock's.
#[verifier::external_body]
pub(crate) fn now_rfc3339() -> (r: String) {
    chrono::Utc::now().to_rfc3339()
}

/// `prefix` followed by `tail` (`format!("{prefix}{tail}")`).
pub fn prefixed(prefix: &str, tail: &str) -> (r: String)
    ensures
        r@ == prefix@ + tail@,
{
    let mut v = chars_of(prefix);
    append_chars(&mut v, &chars_of(tail));
    string_of(&v)
}

/// A new id made of `prefix` and a fresh simple UUID (`dash_…`, `wgt_…`,
/// `appsend_…`, …).
pub fn fresh_prefixed_id(prefix: &str) -> (r: String)
    ensures
        r@.len() == prefix@.len() + 32,
        r@.take(prefix@.len() as int) == prefix@,
        is_simple_uuid(r@.skip(prefix@.len() as int)),
{
    let tail = fresh_simple_uuid();
    let r = prefixed(prefix, tail.as_str());
    assert(r@.take(prefix@.len() as int) =~= prefix@);
    assert(r@.skip(prefix@.len() as int) =~= tail@);
    r
}

} // verus!
