//! The rules of an ontology's design record: the size limits of a change-log
//! entry and who is recorded as the author of a charter.

use vstd::prelude::*;
use crate::error::{StoreError, StoreErrorV};
use crate::store::res_is;
use crate::text::{chars_of, concat2, concat3, decimal_string, spec_decimal};

verus! {

/// Most characters that the title and the body of an entry may hold together.
pub const MAX_TITLE_BODY_CHARS: usize = 500;

/// Most characters that a whole entry (title, body, summary) may hold.
pub const MAX_CHANGELOG_CHARS: usize = 1000;

/// The error for an entry that is too large, named after the entity kind of
/// the store that records it.
pub open spec fn changelog_size_error(
    kind: Seq<char>,
    title: Seq<char>,
    body: Seq<char>,
    summary: Seq<char>,
) -> Option<StoreErrorV> {
    let title_body = title.len() + body.len();
    let total = title_body + summary.len();
    if title_body > MAX_TITLE_BODY_CHARS {
        Some(
            StoreErrorV::InvalidApiName(
                kind,
                "title+body="@ + spec_decimal(title_body),
                "title+body <= 500 chars"@,
            ),
        )
    } else if total > MAX_CHANGELOG_CHARS {
        Some(
            StoreErrorV::InvalidApiName(
                kind,
                "total="@ + spec_decimal(total),
                "total <= 1000 chars"@,
            ),
        )
    } else {
        None
    }
}

/// Checks the size of a change-log entry, counted in characters: title and
/// body together at most 500, the whole entry at most 1000.
pub fn check_changelog_size(
    entity_kind: &'static str,
    title: &str,
    body: &str,
    change_summary: &str,
) -> (r: Result<(), StoreError>)
    ensures
        res_is(r, changelog_size_error(entity_kind@, title@, body@, change_summary@)),
{
    let t = chars_of(title).len() as u128;
    let b = chars_of(body).len() as u128;
    let c = chars_of(change_summary).len() as u128;
    let title_body = t + b;
    if title_body > 500 {
        let shown = concat2("title+body=", decimal_string(title_body).as_str());
        return Err(
            StoreError::InvalidApiName {
                entity_kind,
                api_name: shown,
                pattern: "title+body <= 500 chars",
            },
        );
    }
    let total = title_body + c;
    if total > 1000 {
        let shown = concat2("total=", decimal_string(total).as_str());
        return Err(
            StoreError::InvalidApiName { entity_kind, api_name: shown, pattern: "total <= 1000 chars" },
        );
    }
    Ok(())
}

/// Who a charter is recorded as written by: the given name, or "agent" when
/// none is given.
pub fn charter_author(updated_by: &str) -> (r: String)
    ensures
        r@ == (if updated_by@.len() == 0 {
            "agent"@
        } else {
            updated_by@
        }),
{
    if updated_by.is_empty() {
        "agent".to_owned()
    } else {
        updated_by.to_owned()
    }
}

/// The error for a change-log entry on a Turtle ontology that is not stored.
pub fn ttl_changelog_target_missing(ontology_iri: &str) -> (r: StoreError)
    ensures
        r@ == StoreErrorV::NotFound("本体 '"@ + ontology_iri@ + "' 未找到，无法提交 changelog"@),
{
    StoreError::NotFound(concat3("本体 '", ontology_iri, "' 未找到，无法提交 changelog"))
}

/// The revision of the next change-log entry of an ontology: one past the
/// latest revision it has, 1 for its first entry.
pub fn next_revision(latest: Option<i64>) -> (r: i64)
    requires
        latest matches Some(m) ==> m < i64::MAX,
    ensures
        r == (match latest {
            None => 1,
            Some(m) => m + 1,
        }),
{
    match latest {
        None => 1,
        Some(m) => m + 1,
    }
}

/// The answer to a change-log entry before anything is written: the size
/// limits are checked first, then that the ontology it is for is stored
/// (`target_missing` is the error of an ontology that is not).
pub fn check_changelog_entry(
    entity_kind: &'static str,
    title: &str,
    body: &str,
    change_summary: &str,
    target_missing: Option<StoreError>,
) -> (r: Result<(), StoreError>)
    ensures
        match changelog_size_error(entity_kind@, title@, body@, change_summary@) {
            Some(e) => r matches Err(x) && x@ == e,
            None => match target_missing {
                Some(m) => r matches Err(x) && x@ == m@,
                None => r is Ok,
            },
        },
{
    match check_changelog_size(entity_kind, title, body, change_summary) {
        Err(e) => Err(e),
        Ok(()) => match target_missing {
            Some(m) => Err(m),
            None => Ok(()),
        },
    }
}

} // verus!
