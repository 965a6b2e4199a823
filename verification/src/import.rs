//! The decisions of an import: whether each entity is created, overwritten or
//! skipped, and how each outcome is recorded. The store performs the writes
//! that these decisions call for.

use vstd::prelude::*;
use crate::error::{store_error_message, StoreError};
use crate::payload::{ImportItemResult, ObjectTypeDef, DataSourceDef};
use crate::preview::{data_source_item, ot_item, plain_item};
use crate::text::concat3;

verus! {

/// What writing one entity did.
#[derive(Clone, Copy, Debug, PartialEq, Eq, Structural)]
pub enum Upsert {
    Created,
    Overwritten,
    Skipped,
}

/// A new entity is created; an existing one is overwritten only when
/// overwriting it was asked for, else skipped.
pub open spec fn spec_upsert(exists: bool, overwrite: bool) -> Upsert {
    if !exists {
        Upsert::Created
    } else if overwrite {
        Upsert::Overwritten
    } else {
        Upsert::Skipped
    }
}

/// An entity the store does not hold is created; one it holds is
/// overwritten exactly when overwriting it was asked for, and left as it is
/// otherwise. Asking to overwrite a new entity still creates it.
pub proof fn law_upsert_outcomes(exists: bool, overwrite: bool)
    ensures
        (spec_upsert(exists, overwrite) == Upsert::Created) <==> !exists,
        (spec_upsert(exists, overwrite) == Upsert::Overwritten) <==> (exists && overwrite),
        (spec_upsert(exists, overwrite) == Upsert::Skipped) <==> (exists && !overwrite),
{
}

/// Decides how an entity is written, from whether the store holds its name
/// and whether the request asks to overwrite it.
pub fn upsert_decision(exists: bool, overwrite: bool) -> (r: Upsert)
    ensures
        r == spec_upsert(exists, overwrite),
{
    if !exists {
        Upsert::Created
    } else if overwrite {
        Upsert::Overwritten
    } else {
        Upsert::Skipped
    }
}

/// The status an import records for an outcome.
pub open spec fn upsert_status(u: Upsert) -> Seq<char> {
    match u {
        Upsert::Created => "created"@,
        Upsert::Overwritten => "overwritten"@,
        Upsert::Skipped => "skipped"@,
    }
}

/// The status a dry run predicts for an outcome.
pub open spec fn predicted_status(u: Upsert) -> Seq<char> {
    match u {
        Upsert::Created => "create"@,
        Upsert::Overwritten => "overwrite"@,
        Upsert::Skipped => "skip"@,
    }
}

/// The record of an entity that was written.
pub fn item_result(api_name: &str, u: Upsert) -> (r: ImportItemResult)
    ensures
        r.api_name@ == api_name@,
        r.status@ == upsert_status(u),
        r.error is None,
{
    let status = match u {
        Upsert::Created => "created".to_owned(),
        Upsert::Overwritten => "overwritten".to_owned(),
        Upsert::Skipped => "skipped".to_owned(),
    };
    ImportItemResult { api_name: api_name.to_owned(), status, error: None }
}

/// Appends the record of an entity with the given status and error.
pub fn dataset_results_push(
    v: &mut Vec<ImportItemResult>,
    api_name: &str,
    status: &str,
    error: Option<String>,
)
    ensures
        final(v)@.len() == old(v)@.len() + 1,
        final(v)@.take(old(v)@.len() as int) == old(v)@,
        final(v)@.last().api_name@ == api_name@,
        final(v)@.last().status@ == status@,
        final(v)@.last().error == error,
{
    v.push(ImportItemResult { api_name: api_name.to_owned(), status: status.to_owned(), error });
    assert(v@.take(old(v)@.len() as int) =~= old(v)@);
}

/// The message recorded when writing an entity failed: its kind, its name and
/// the error.
pub open spec fn failure_message(kind: Seq<char>, api_name: Seq<char>, e: Seq<char>) -> Seq<char> {
    kind + " '"@ + api_name + "': "@ + e
}

/// The message for an entity of kind `kind` that could not be written.
pub fn entity_failure(kind: &str, api_name: &str, e: &StoreError) -> (r: String)
    ensures
        r@ == failure_message(kind@, api_name@, store_error_message(e@)),
{
    let mut m = concat3(kind, " '", api_name);
    m.append("': ");
    let text = e.message();
    m.append(text.as_str());
    m
}

/// The record of an entity that could not be written, with its message.
pub fn failed_result(api_name: &str, message: String) -> (r: ImportItemResult)
    ensures
        r.api_name@ == api_name@,
        r.status@ == "failed"@,
        r.error == Some(message),
{
    ImportItemResult { api_name: api_name.to_owned(), status: "failed".to_owned(), error: Some(message) }
}

/// The message for a link that could not be written.
pub fn link_failure(source: &str, link: &str, e: &StoreError) -> (r: String)
    ensures
        r@ == "Link '"@ + source@ + "."@ + link@ + "': "@ + store_error_message(e@),
{
    let mut m = concat3("Link '", source, ".");
    m.append(link);
    m.append("': ");
    let text = e.message();
    m.append(text.as_str());
    m
}

/// The status an import records for the ontology itself.
pub fn ontology_import_status(existed: bool) -> (r: String)
    ensures
        r@ == (if existed {
            "existed"@
        } else {
            "created"@
        }),
{
    if existed {
        "existed".to_owned()
    } else {
        "created".to_owned()
    }
}

/// The dry run predicts the import: the status it gives an object type is the
/// outcome that the import's decision reaches on the same stored names and the
/// same overwrite list.
pub proof fn law_preview_predicts_object_type(
    ot: ObjectTypeDef,
    existing: Seq<Seq<char>>,
    overwrite: Seq<Seq<char>>,
)
    ensures
        ot_item(ot, existing, overwrite).1 == predicted_status(
            spec_upsert(existing.contains(ot.api_name@), overwrite.contains(ot.api_name@)),
        ),
{
}

/// The same for a data source.
pub proof fn law_preview_predicts_data_source(
    d: DataSourceDef,
    existing: Seq<Seq<char>>,
    overwrite: Seq<Seq<char>>,
)
    ensures
        data_source_item(d, existing, overwrite).1 == predicted_status(
            spec_upsert(existing.contains(d.api_name@), overwrite.contains(d.api_name@)),
        ),
{
}

/// Datasets and groups are never overwritten: the dry run predicts the
/// outcome of a write that does not overwrite.
pub proof fn law_preview_predicts_plain(n: Seq<char>, existing: Seq<Seq<char>>)
    ensures
        plain_item(n, existing).1 == predicted_status(spec_upsert(existing.contains(n), false)),
{
}

} // verus!
