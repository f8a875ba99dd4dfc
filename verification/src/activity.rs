//! The activity feed's request rules: how a page size and cursor are read from
//! the query, and which manual items can be recorded.
use vstd::prelude::*;
use crate::numbers::{parse_decimal_i64, parse_decimal_u32, parse_i64, parse_u32};
use crate::text::{CharClass, chars_of, trim_ws, trimmed};

verus! {

pub const DEFAULT_LIMIT: u32 = 100;

pub const MAX_LIMIT: u32 = 500;

/// The page size of `GET /api/activity?limit=N`: `N` read as a `u32`,
/// `DEFAULT_LIMIT` when it is absent or not a number, then clamped into
/// `1..=MAX_LIMIT`.
pub open spec fn limit_of(raw: Option<Seq<char>>) -> u32 {
    let n = match raw {
        Some(s) => match parse_u32(s) {
            Some(n) => n,
            None => DEFAULT_LIMIT,
        },
        None => DEFAULT_LIMIT,
    };
    if n < 1 {
        1
    } else if n > MAX_LIMIT {
        MAX_LIMIT
    } else {
        n
    }
}

/// See `limit_of`.
pub fn activity_limit(raw: Option<&str>) -> (r: u32)
    ensures
        r == limit_of(
            match raw {
                Some(s) => Some(s@),
                None => None,
            },
        ),
        1 <= r <= MAX_LIMIT,
{
    let n = match raw {
        Some(s) => match parse_decimal_u32(s) {
            Some(n) => n,
            None => DEFAULT_LIMIT,
        },
        None => DEFAULT_LIMIT,
    };
    if n < 1 {
        1
    } else if n > MAX_LIMIT {
        MAX_LIMIT
    } else {
        n
    }
}

/// The paging cursor of `GET /api/activity?before=EPOCH`: the value read as an
/// `i64`, none when it is absent or not a number.
pub fn activity_before(raw: Option<&str>) -> (r: Option<i64>)
    ensures
        r == match raw {
            Some(s) => parse_i64(s@),
            None => None,
        },
{
    match raw {
        Some(s) => parse_decimal_i64(s),
        None => None,
    }
}

/// A manual feed item needs a non-blank kind (else `Err("kind is required")`)
/// and a non-blank title (else `Err("title is required")`), checked in that
/// order.
pub fn check_activity_item(kind: &str, title: &str) -> (r: Result<(), &'static str>)
    ensures
        match r {
            Ok(()) => trim_ws(kind@).len() > 0 && trim_ws(title@).len() > 0,
            Err(e) => if trim_ws(kind@).len() == 0 {
                e@ == "kind is required"@
            } else {
                trim_ws(title@).len() == 0 && e@ == "title is required"@
            },
        },
{
    if trimmed(&chars_of(kind), CharClass::Whitespace).len() == 0 {
        return Err("kind is required");
    }
    if trimmed(&chars_of(title), CharClass::Whitespace).len() == 0 {
        return Err("title is required");
    }
    Ok(())
}

} // verus!
