//! The course of an import, one entity at a time: data sources, then datasets,
//! then object types (each followed by its links), then action types, then
//! object type groups. Each write is best effort: a failure is recorded and the
//! import goes on, except that the links of an object type that failed are not
//! written. The store performs each step's write; these functions decide the
//! next step and put the outcomes together.

use vstd::prelude::*;
use crate::error::{store_error_message, StoreError};
use crate::import::{
    entity_failure, failed_result, failure_message, item_result, link_failure,
    ontology_import_status, upsert_status, Upsert,
};
use crate::payload::{
    ActionTypeDef, DataSourceDef, DatasetDef, ImportItemResult, ImportResult, ObjectTypeDef,
    ObjectTypeGroupDef, OntologyPayload,
};
use crate::ttl::{opt_str_view, strs};

verus! {

/// One step of an import: the entity written at it, by its position in the
/// payload (`Link(i, j)` is link `j` of object type `i`), or the end.
#[derive(Clone, Copy, Debug, PartialEq, Eq, Structural)]
pub enum ImportStep {
    DataSource(usize),
    Dataset(usize),
    ObjectType(usize),
    Link(usize, usize),
    Action(usize),
    Group(usize),
    Done,
}

/// A step names an entity of the payload (or is the end).
pub open spec fn valid_step(p: OntologyPayload, s: ImportStep) -> bool {
    match s {
        ImportStep::DataSource(i) => i < p.data_sources@.len(),
        ImportStep::Dataset(i) => i < p.datasets@.len(),
        ImportStep::ObjectType(i) => i < p.object_types@.len(),
        ImportStep::Link(i, j) => i < p.object_types@.len() && j < p.object_types@[i as int].links@.len(),
        ImportStep::Action(i) => i < p.action_types@.len(),
        ImportStep::Group(i) => i < p.object_type_groups@.len(),
        ImportStep::Done => true,
    }
}

/// The first group at or after position `i`, else the end.
pub open spec fn groups_from(p: OntologyPayload, i: int) -> ImportStep {
    if 0 <= i < p.object_type_groups@.len() {
        ImportStep::Group(i as usize)
    } else {
        ImportStep::Done
    }
}

/// The first action type at or after position `i`, else what follows them.
pub open spec fn actions_from(p: OntologyPayload, i: int) -> ImportStep {
    if 0 <= i < p.action_types@.len() {
        ImportStep::Action(i as usize)
    } else {
        groups_from(p, 0)
    }
}

/// The first object type at or after position `i`, else what follows them.
pub open spec fn object_types_from(p: OntologyPayload, i: int) -> ImportStep {
    if 0 <= i < p.object_types@.len() {
        ImportStep::ObjectType(i as usize)
    } else {
        actions_from(p, 0)
    }
}

/// The first dataset at or after position `i`, else what follows them.
pub open spec fn datasets_from(p: OntologyPayload, i: int) -> ImportStep {
    if 0 <= i < p.datasets@.len() {
        ImportStep::Dataset(i as usize)
    } else {
        object_types_from(p, 0)
    }
}

/// The first data source at or after position `i`, else what follows them.
pub open spec fn data_sources_from(p: OntologyPayload, i: int) -> ImportStep {
    if 0 <= i < p.data_sources@.len() {
        ImportStep::DataSource(i as usize)
    } else {
        datasets_from(p, 0)
    }
}

/// Where an import starts.
pub open spec fn first_step_spec(p: OntologyPayload) -> ImportStep {
    data_sources_from(p, 0)
}

/// The step after `at`, given the outcome of its write: the next entity of the
/// same kind, else the first of the next kind; after an object type that was
/// written, its links; after one whose write failed, the next object type.
pub open spec fn import_step_spec(
    p: OntologyPayload,
    at: ImportStep,
    last: Result<Upsert, StoreError>,
) -> ImportStep {
    match at {
        ImportStep::DataSource(i) => data_sources_from(p, i + 1),
        ImportStep::Dataset(i) => datasets_from(p, i + 1),
        ImportStep::ObjectType(i) => if last is Ok && 0 < p.object_types@[i as int].links@.len() {
            ImportStep::Link(i, 0)
        } else {
            object_types_from(p, i + 1)
        },
        ImportStep::Link(i, j) => if j + 1 < p.object_types@[i as int].links@.len() {
            ImportStep::Link(i, (j + 1) as usize)
        } else {
            object_types_from(p, i + 1)
        },
        ImportStep::Action(i) => actions_from(p, i + 1),
        ImportStep::Group(i) => groups_from(p, i + 1),
        ImportStep::Done => ImportStep::Done,
    }
}

fn groups_from_exec(p: &OntologyPayload, i: usize) -> (r: ImportStep)
    ensures
        r == groups_from(*p, i as int),
        valid_step(*p, r),
{
    if i < p.object_type_groups.len() {
        ImportStep::Group(i)
    } else {
        ImportStep::Done
    }
}

fn actions_from_exec(p: &OntologyPayload, i: usize) -> (r: ImportStep)
    ensures
        r == actions_from(*p, i as int),
        valid_step(*p, r),
{
    if i < p.action_types.len() {
        ImportStep::Action(i)
    } else {
        groups_from_exec(p, 0)
    }
}

fn object_types_from_exec(p: &OntologyPayload, i: usize) -> (r: ImportStep)
    ensures
        r == object_types_from(*p, i as int),
        valid_step(*p, r),
{
    if i < p.object_types.len() {
        ImportStep::ObjectType(i)
    } else {
        actions_from_exec(p, 0)
    }
}

fn datasets_from_exec(p: &OntologyPayload, i: usize) -> (r: ImportStep)
    ensures
        r == datasets_from(*p, i as int),
        valid_step(*p, r),
{
    if i < p.datasets.len() {
        ImportStep::Dataset(i)
    } else {
        object_types_from_exec(p, 0)
    }
}

fn data_sources_from_exec(p: &OntologyPayload, i: usize) -> (r: ImportStep)
    ensures
        r == data_sources_from(*p, i as int),
        valid_step(*p, r),
{
    if i < p.data_sources.len() {
        ImportStep::DataSource(i)
    } else {
        datasets_from_exec(p, 0)
    }
}

/// The first step of importing a payload.
pub fn first_import_step(p: &OntologyPayload) -> (r: ImportStep)
    ensures
        r == first_step_spec(*p),
        valid_step(*p, r),
{
    data_sources_from_exec(p, 0)
}

/// The step after `at`, whose write gave `last`.
pub fn next_import_step(p: &OntologyPayload, at: ImportStep, last: &Result<Upsert, StoreError>) -> (r: ImportStep)
    requires
        valid_step(*p, at),
    ensures
        r == import_step_spec(*p, at, *last),
        valid_step(*p, r),
{
    match at {
        ImportStep::DataSource(i) => {
            let _n = p.data_sources.len();
            data_sources_from_exec(p, i + 1)
        },
        ImportStep::Dataset(i) => {
            let _n = p.datasets.len();
            datasets_from_exec(p, i + 1)
        },
        ImportStep::ObjectType(i) => {
            let _n = p.object_types.len();
            if last.is_ok() && 0 < p.object_types[i].links.len() {
                ImportStep::Link(i, 0)
            } else {
                object_types_from_exec(p, i + 1)
            }
        },
        ImportStep::Link(i, j) => {
            let _n = p.object_types.len();
            let m = p.object_types[i].links.len();
            if j + 1 < m {
                ImportStep::Link(i, j + 1)
            } else {
                object_types_from_exec(p, i + 1)
            }
        },
        ImportStep::Action(i) => {
            let _n = p.action_types.len();
            actions_from_exec(p, i + 1)
        },
        ImportStep::Group(i) => {
            let _n = p.object_type_groups.len();
            groups_from_exec(p, i + 1)
        },
        ImportStep::Done => ImportStep::Done,
    }
}

/// A step and what its write gave.
#[derive(Debug)]
pub struct StepOutcome {
    pub step: ImportStep,
    pub outcome: Result<Upsert, StoreError>,
}

/// The kind of entity a step writes, as a number in the order of the import.
pub open spec fn step_kind(s: ImportStep) -> int {
    match s {
        ImportStep::DataSource(_) => 0,
        ImportStep::Dataset(_) => 1,
        ImportStep::ObjectType(_) => 2,
        ImportStep::Link(_, _) => 3,
        ImportStep::Action(_) => 4,
        ImportStep::Group(_) => 5,
        ImportStep::Done => 6,
    }
}

/// The name of a kind in failure messages.
pub open spec fn kind_label(k: int) -> Seq<char> {
    if k == 0 {
        "DataSource"@
    } else if k == 1 {
        "Dataset"@
    } else if k == 2 {
        "ObjectType"@
    } else if k == 4 {
        "ActionType"@
    } else {
        "ObjectTypeGroup"@
    }
}

/// The api name of the entity written at a step.
pub open spec fn step_entity(p: OntologyPayload, s: ImportStep) -> Seq<char> {
    match s {
        ImportStep::DataSource(i) => p.data_sources@[i as int].api_name@,
        ImportStep::Dataset(i) => p.datasets@[i as int].api_name@,
        ImportStep::ObjectType(i) => p.object_types@[i as int].api_name@,
        ImportStep::Link(i, j) => p.object_types@[i as int].links@[j as int].api_name@,
        ImportStep::Action(i) => p.action_types@[i as int].api_name@,
        ImportStep::Group(i) => p.object_type_groups@[i as int].api_name@,
        ImportStep::Done => Seq::empty(),
    }
}

/// The value of a recorded outcome: (api name, status, error).
pub open spec fn item_v(r: ImportItemResult) -> (Seq<char>, Seq<char>, Option<Seq<char>>) {
    (r.api_name@, r.status@, opt_str_view(r.error))
}

pub open spec fn items_v(v: Seq<ImportItemResult>) -> Seq<(Seq<char>, Seq<char>, Option<Seq<char>>)> {
    v.map_values(|r: ImportItemResult| item_v(r))
}

/// The record of one entity's write: its status, or "failed" with the message.
pub open spec fn outcome_rec(kind: Seq<char>, name: Seq<char>, o: Result<Upsert, StoreError>) -> (
    Seq<char>,
    Seq<char>,
    Option<Seq<char>>,
) {
    match o {
        Ok(u) => (name, upsert_status(u), None),
        Err(e) => (name, "failed"@, Some(failure_message(kind, name, store_error_message(e@)))),
    }
}

/// The records of the steps of kind `k`, in the order of the steps.
pub open spec fn records_of_kind(p: OntologyPayload, steps: Seq<StepOutcome>, k: int) -> Seq<
    (Seq<char>, Seq<char>, Option<Seq<char>>),
>
    decreases steps.len(),
{
    if steps.len() == 0 {
        Seq::empty()
    } else {
        let last = steps.last();
        let rest = records_of_kind(p, steps.drop_last(), k);
        if step_kind(last.step) == k {
            rest.push(outcome_rec(kind_label(k), step_entity(p, last.step), last.outcome))
        } else {
            rest
        }
    }
}

/// The message of a step whose write failed (the end writes nothing).
pub open spec fn step_error(p: OntologyPayload, s: StepOutcome) -> Option<Seq<char>> {
    match s.outcome {
        Ok(_) => None,
        Err(e) => match s.step {
            ImportStep::Done => None,
            ImportStep::Link(i, _) => Some(
                "Link '"@ + p.object_types@[i as int].api_name@ + "."@ + step_entity(p, s.step)
                    + "': "@ + store_error_message(e@),
            ),
            _ => Some(
                failure_message(
                    kind_label(step_kind(s.step)),
                    step_entity(p, s.step),
                    store_error_message(e@),
                ),
            ),
        },
    }
}

/// The failure messages of the steps, in order.
pub open spec fn import_errors(p: OntologyPayload, steps: Seq<StepOutcome>) -> Seq<Seq<char>>
    decreases steps.len(),
{
    if steps.len() == 0 {
        Seq::empty()
    } else {
        let rest = import_errors(p, steps.drop_last());
        match step_error(p, steps.last()) {
            Some(m) => rest.push(m),
            None => rest,
        }
    }
}

/// The number of links written that were created (`created`), or that
/// already existed (`!created`).
pub open spec fn count_links(steps: Seq<StepOutcome>, created: bool) -> int
    decreases steps.len(),
{
    if steps.len() == 0 {
        0
    } else {
        let last = steps.last();
        let here: int = if last.step is Link && last.outcome is Ok && ((last.outcome->Ok_0
            == Upsert::Created) == created) {
            1
        } else {
            0
        };
        count_links(steps.drop_last(), created) + here
    }
}

/// The result of an import of `p` whose steps gave `steps`.
pub open spec fn import_result_matches(
    p: OntologyPayload,
    existed: bool,
    steps: Seq<StepOutcome>,
    r: ImportResult,
) -> bool {
    &&& r.ontology_api_name@ == p.api_name@
    &&& r.ontology_status@ == (if existed { "existed"@ } else { "created"@ })
    &&& items_v(r.data_sources@) == records_of_kind(p, steps, 0)
    &&& items_v(r.datasets@) == records_of_kind(p, steps, 1)
    &&& items_v(r.object_types@) == records_of_kind(p, steps, 2)
    &&& items_v(r.action_types@) == records_of_kind(p, steps, 4)
    &&& items_v(r.object_type_groups@) == records_of_kind(p, steps, 5)
    &&& r.links_created == count_links(steps, true)
    &&& r.links_skipped == count_links(steps, false)
    &&& strs(r.errors@) == import_errors(p, steps)
}

/// Records the outcome of one entity's write: its record, and its message
/// among the errors when it failed.
fn record_outcome(
    results: &mut Vec<ImportItemResult>,
    errors: &mut Vec<String>,
    kind: &str,
    name: &str,
    o: &Result<Upsert, StoreError>,
)
    ensures
        items_v(final(results)@) == items_v(old(results)@).push(outcome_rec(kind@, name@, *o)),
        strs(final(errors)@) == (match *o {
            Ok(_) => strs(old(errors)@),
            Err(e) => strs(old(errors)@).push(failure_message(kind@, name@, store_error_message(e@))),
        }),
{
    match o {
        Ok(u) => {
            results.push(item_result(name, *u));
            assert(items_v(results@) =~= items_v(old(results)@).push(outcome_rec(kind@, name@, *o)));
        },
        Err(e) => {
            let msg = entity_failure(kind, name, e);
            let copy = msg.clone();
            errors.push(msg);
            results.push(failed_result(name, copy));
            assert(items_v(results@) =~= items_v(old(results)@).push(outcome_rec(kind@, name@, *o)));
            assert(strs(errors@) =~= strs(old(errors)@).push(
                failure_message(kind@, name@, store_error_message(e@)),
            ));
        },
    }
}

/// Puts the outcomes of an import's steps together, in the order of the
/// steps: one record per entity and kind, the links counted as created or
/// skipped, and every failure's message among the errors.
pub fn assemble_import_result(p: &OntologyPayload, existed: bool, steps: &Vec<StepOutcome>) -> (r: ImportResult)
    requires
        forall|k: int| 0 <= k < steps@.len() ==> valid_step(*p, #[trigger] steps@[k].step),
        steps@.len() <= i32::MAX,
    ensures
        import_result_matches(*p, existed, steps@, r),
{
    let mut data_sources: Vec<ImportItemResult> = Vec::new();
    let mut datasets: Vec<ImportItemResult> = Vec::new();
    let mut object_types: Vec<ImportItemResult> = Vec::new();
    let mut action_types: Vec<ImportItemResult> = Vec::new();
    let mut groups: Vec<ImportItemResult> = Vec::new();
    let mut errors: Vec<String> = Vec::new();
    let mut created: i32 = 0;
    let mut skipped: i32 = 0;
    let ghost ss = steps@;
    let n = steps.len();
    let mut k: usize = 0;
    assert(items_v(data_sources@) =~= Seq::empty());
    assert(strs(errors@) =~= Seq::<Seq<char>>::empty());
    while k < n
        invariant
            n == ss.len(),
            ss == steps@,
            k <= n,
            n <= i32::MAX,
            forall|k: int| 0 <= k < ss.len() ==> valid_step(*p, #[trigger] ss[k].step),
            items_v(data_sources@) == records_of_kind(*p, ss.take(k as int), 0),
            items_v(datasets@) == records_of_kind(*p, ss.take(k as int), 1),
            items_v(object_types@) == records_of_kind(*p, ss.take(k as int), 2),
            items_v(action_types@) == records_of_kind(*p, ss.take(k as int), 4),
            items_v(groups@) == records_of_kind(*p, ss.take(k as int), 5),
            strs(errors@) == import_errors(*p, ss.take(k as int)),
            created == count_links(ss.take(k as int), true),
            skipped == count_links(ss.take(k as int), false),
            created >= 0,
            skipped >= 0,
            created + skipped <= k,
        decreases n - k,
    {
        let so = &steps[k];
        let ghost t = ss.take(k + 1);
        assert(t.drop_last() =~= ss.take(k as int));
        assert(t.last() == ss[k as int]);
        assert(valid_step(*p, ss[k as int].step));
        let ghost eb = strs(errors@);
        match so.step {
            ImportStep::DataSource(i) => {
                record_outcome(&mut data_sources, &mut errors, "DataSource", p.data_sources[i].api_name.as_str(), &so.outcome);
            },
            ImportStep::Dataset(i) => {
                record_outcome(&mut datasets, &mut errors, "Dataset", p.datasets[i].api_name.as_str(), &so.outcome);
            },
            ImportStep::ObjectType(i) => {
                record_outcome(&mut object_types, &mut errors, "ObjectType", p.object_types[i].api_name.as_str(), &so.outcome);
            },
            ImportStep::Link(i, j) => {
                match &so.outcome {
                    Ok(Upsert::Created) => {
                        created = created + 1;
                        assert(strs(errors@) =~= eb);
                    },
                    Ok(_) => {
                        skipped = skipped + 1;
                        assert(strs(errors@) =~= eb);
                    },
                    Err(e) => {
                        let ot = &p.object_types[i];
                        let m = link_failure(ot.api_name.as_str(), ot.links[j].api_name.as_str(), e);
                        errors.push(m);
                        assert(strs(errors@) =~= eb.push(m@));
                    },
                }
            },
            ImportStep::Action(i) => {
                record_outcome(&mut action_types, &mut errors, "ActionType", p.action_types[i].api_name.as_str(), &so.outcome);
            },
            ImportStep::Group(i) => {
                record_outcome(&mut groups, &mut errors, "ObjectTypeGroup", p.object_type_groups[i].api_name.as_str(), &so.outcome);
            },
            ImportStep::Done => {},
        }
        k = k + 1;
    }
    assert(ss.take(n as int) =~= ss);
    ImportResult {
        ontology_api_name: p.api_name.clone(),
        ontology_status: ontology_import_status(existed),
        object_types,
        links_created: created,
        links_skipped: skipped,
        action_types,
        datasets,
        data_sources,
        object_type_groups: groups,
        errors,
    }
}

/// The links of an object type whose write failed are not written: the step
/// after it is never one of its links.
pub proof fn law_failed_object_type_skips_links(p: OntologyPayload, i: usize, e: StoreError)
    requires
        i < p.object_types@.len(),
    ensures
        !(import_step_spec(p, ImportStep::ObjectType(i), Err(e)) is Link),
{
}

/// Every list of the payload has a length that a `usize` holds, as a
/// payload in memory does.
pub open spec fn payload_fits(p: OntologyPayload) -> bool {
    &&& p.data_sources@.len() <= usize::MAX
    &&& p.datasets@.len() <= usize::MAX
    &&& p.object_types@.len() <= usize::MAX
    &&& forall|i: int| 0 <= i < p.object_types@.len() ==> #[trigger] p.object_types@[i].links@.len() <= usize::MAX
    &&& p.action_types@.len() <= usize::MAX
    &&& p.object_type_groups@.len() <= usize::MAX
}

/// The steps of an import as it runs: it starts where an import starts, each
/// step is the one that follows the step before and its outcome, every step
/// names an entity of the payload, and the end is not a step.
pub open spec fn is_import_run(p: OntologyPayload, steps: Seq<StepOutcome>) -> bool {
    &&& payload_fits(p)
    &&& steps.len() > 0 ==> steps[0].step == first_step_spec(p)
    &&& forall|k: int|
        0 <= k < steps.len() - 1 ==> #[trigger] steps[k + 1].step == import_step_spec(
            p,
            steps[k].step,
            steps[k].outcome,
        )
    &&& forall|k: int|
        0 <= k < steps.len() ==> !(#[trigger] steps[k].step is Done) && valid_step(p, steps[k].step)
}

/// The place of a step in the order of the import.
pub open spec fn step_key(s: ImportStep) -> (int, int, int) {
    match s {
        ImportStep::DataSource(i) => (0, i as int, 0),
        ImportStep::Dataset(i) => (1, i as int, 0),
        ImportStep::ObjectType(i) => (2, i as int, 0),
        ImportStep::Link(i, j) => (2, i as int, j + 1),
        ImportStep::Action(i) => (3, i as int, 0),
        ImportStep::Group(i) => (4, i as int, 0),
        ImportStep::Done => (5, 0, 0),
    }
}

pub open spec fn key_lt(a: (int, int, int), b: (int, int, int)) -> bool {
    a.0 < b.0 || (a.0 == b.0 && (a.1 < b.1 || (a.1 == b.1 && a.2 < b.2)))
}

/// Every step but the end is followed by a later one.
proof fn lemma_next_is_later(p: OntologyPayload, at: ImportStep, o: Result<Upsert, StoreError>)
    requires
        payload_fits(p),
        valid_step(p, at),
        !(at is Done),
    ensures
        key_lt(step_key(at), step_key(import_step_spec(p, at, o))),
{
}

/// A run goes forward: a later step lies later in the order of the import.
proof fn lemma_run_increasing(p: OntologyPayload, steps: Seq<StepOutcome>, k: int, m: int)
    requires
        is_import_run(p, steps),
        0 <= k < m < steps.len(),
    ensures
        key_lt(step_key(steps[k].step), step_key(steps[m].step)),
    decreases m - k,
{
    assert(steps[(m - 1) + 1].step == import_step_spec(p, steps[m - 1].step, steps[m - 1].outcome));
    assert(!(steps[m - 1].step is Done));
    lemma_next_is_later(p, steps[m - 1].step, steps[m - 1].outcome);
    if k < m - 1 {
        lemma_run_increasing(p, steps, k, m - 1);
    }
}

/// A link step of a run comes after its object type, written without failure.
proof fn lemma_link_origin(p: OntologyPayload, steps: Seq<StepOutcome>, m: int, i: usize, j: usize) -> (k: int)
    requires
        is_import_run(p, steps),
        0 <= m < steps.len(),
        steps[m].step == ImportStep::Link(i, j),
    ensures
        0 <= k < m,
        steps[k].step == ImportStep::ObjectType(i),
        steps[k].outcome is Ok,
    decreases m,
{
    if m == 0 {
        assert(steps[0].step == first_step_spec(p));
        assert(false);
        0
    } else {
        let prev = steps[m - 1];
        assert(steps[(m - 1) + 1].step == import_step_spec(p, prev.step, prev.outcome));
        match prev.step {
            ImportStep::Link(x, y) => {
                lemma_link_origin(p, steps, m - 1, x, y)
            },
            _ => m - 1,
        }
    }
}

/// The links of an object type whose write failed are neither written nor
/// counted: no step of the run is one of its links.
pub proof fn law_failed_object_type_links_not_written(
    p: OntologyPayload,
    steps: Seq<StepOutcome>,
    k: int,
    i: usize,
)
    requires
        is_import_run(p, steps),
        0 <= k < steps.len(),
        steps[k].step == ImportStep::ObjectType(i),
        steps[k].outcome is Err,
    ensures
        forall|m: int, j: usize| 0 <= m < steps.len() ==> steps[m].step != ImportStep::Link(i, j),
{
    assert forall|m: int, j: usize| 0 <= m < steps.len() implies steps[m].step != ImportStep::Link(
        i,
        j,
    ) by {
        if steps[m].step == ImportStep::Link(i, j) {
            let w = lemma_link_origin(p, steps, m, i, j);
            if w < k {
                lemma_run_increasing(p, steps, w, k);
            } else if k < w {
                lemma_run_increasing(p, steps, k, w);
            }
        }
    }
}

/// The kinds of entity that an import records one by one (links are only
/// counted).
pub open spec fn is_record_kind(k: int) -> bool {
    k == 0 || k == 1 || k == 2 || k == 4 || k == 5
}

/// The api names of the payload's entries of kind `k`, in payload order.
pub open spec fn entry_names(p: OntologyPayload, k: int) -> Seq<Seq<char>> {
    if k == 0 {
        p.data_sources@.map_values(|d: DataSourceDef| d.api_name@)
    } else if k == 1 {
        p.datasets@.map_values(|d: DatasetDef| d.api_name@)
    } else if k == 2 {
        p.object_types@.map_values(|d: ObjectTypeDef| d.api_name@)
    } else if k == 4 {
        p.action_types@.map_values(|d: ActionTypeDef| d.api_name@)
    } else {
        p.object_type_groups@.map_values(|d: ObjectTypeGroupDef| d.api_name@)
    }
}

/// The api names of a list of records.
pub open spec fn rec_names(rs: Seq<(Seq<char>, Seq<char>, Option<Seq<char>>)>) -> Seq<Seq<char>> {
    rs.map_values(|x: (Seq<char>, Seq<char>, Option<Seq<char>>)| x.0)
}

/// A record as an import writes it: a known status, and a message exactly
/// when the write failed.
pub open spec fn record_ok(x: (Seq<char>, Seq<char>, Option<Seq<char>>)) -> bool {
    &&& x.1 == "created"@ || x.1 == "overwritten"@ || x.1 == "skipped"@ || x.1 == "failed"@
    &&& (x.2 is Some <==> x.1 == "failed"@)
}

/// The block of the import a step belongs to (a link belongs to the block of
/// object types).
pub open spec fn step_block(s: ImportStep) -> int {
    match s {
        ImportStep::Link(_, _) => 2,
        _ => step_kind(s),
    }
}

/// How many entries of kind `k` an import has recorded when it reaches step `s`.
pub open spec fn done_before(p: OntologyPayload, s: ImportStep, k: int) -> int {
    if step_block(s) < k {
        0
    } else if step_block(s) > k {
        entry_names(p, k).len() as int
    } else {
        match s {
            ImportStep::DataSource(i) => i as int,
            ImportStep::Dataset(i) => i as int,
            ImportStep::ObjectType(i) => i as int,
            ImportStep::Link(i, _) => i + 1,
            ImportStep::Action(i) => i as int,
            ImportStep::Group(i) => i as int,
            ImportStep::Done => 0,
        }
    }
}

/// The step a run reaches after its first `m` steps.
pub open spec fn step_after(p: OntologyPayload, steps: Seq<StepOutcome>, m: int) -> ImportStep {
    if m == 0 {
        first_step_spec(p)
    } else {
        import_step_spec(p, steps[m - 1].step, steps[m - 1].outcome)
    }
}

proof fn lemma_first_step_counts(p: OntologyPayload, k: int)
    requires
        is_record_kind(k),
    ensures
        done_before(p, first_step_spec(p), k) == 0,
{
}

proof fn lemma_step_counts(p: OntologyPayload, s: ImportStep, o: Result<Upsert, StoreError>, k: int)
    requires
        payload_fits(p),
        valid_step(p, s),
        !(s is Done),
        is_record_kind(k),
    ensures
        done_before(p, import_step_spec(p, s, o), k) == done_before(p, s, k) + (if step_kind(s) == k {
            1int
        } else {
            0int
        }),
        0 <= done_before(p, s, k) <= entry_names(p, k).len(),
        step_kind(s) == k ==> done_before(p, s, k) < entry_names(p, k).len() && step_entity(p, s)
            == entry_names(p, k)[done_before(p, s, k)],
{
}

proof fn lemma_rec_names_push(
    rs: Seq<(Seq<char>, Seq<char>, Option<Seq<char>>)>,
    x: (Seq<char>, Seq<char>, Option<Seq<char>>),
)
    ensures
        rec_names(rs.push(x)) == rec_names(rs).push(x.0),
{
    assert(rec_names(rs.push(x)) =~= rec_names(rs).push(x.0));
}

/// After the first `m` steps of a run, the records of each kind name the
/// first entries of that kind in payload order, as many as the run has
/// passed, and each is a well-formed record.
proof fn lemma_run_prefix(p: OntologyPayload, steps: Seq<StepOutcome>, m: int)
    requires
        is_import_run(p, steps),
        0 <= m <= steps.len(),
    ensures
        forall|k: int|
            is_record_kind(k) ==> {
                &&& 0 <= #[trigger] done_before(p, step_after(p, steps, m), k) <= entry_names(p, k).len()
                &&& rec_names(records_of_kind(p, steps.take(m), k)) == entry_names(p, k).take(
                    done_before(p, step_after(p, steps, m), k),
                )
                &&& forall|i: int|
                    0 <= i < records_of_kind(p, steps.take(m), k).len() ==> record_ok(
                        #[trigger] records_of_kind(p, steps.take(m), k)[i],
                    )
            },
    decreases m,
{
    if m == 0 {
        assert forall|k: int| is_record_kind(k) implies {
            &&& 0 <= #[trigger] done_before(p, step_after(p, steps, 0), k) <= entry_names(p, k).len()
            &&& rec_names(records_of_kind(p, steps.take(0), k)) == entry_names(p, k).take(
                done_before(p, step_after(p, steps, 0), k),
            )
            &&& forall|i: int|
                0 <= i < records_of_kind(p, steps.take(0), k).len() ==> record_ok(
                    #[trigger] records_of_kind(p, steps.take(0), k)[i],
                )
        } by {
            lemma_first_step_counts(p, k);
            assert(steps.take(0) =~= Seq::<StepOutcome>::empty());
            assert(rec_names(records_of_kind(p, steps.take(0), k)) =~= Seq::<Seq<char>>::empty());
            assert(entry_names(p, k).take(0) =~= Seq::<Seq<char>>::empty());
        }
    } else {
        lemma_run_prefix(p, steps, m - 1);
        let so = steps[m - 1];
        let s = so.step;
        let t = steps.take(m);
        assert(t.drop_last() =~= steps.take(m - 1));
        assert(t.last() == so);
        assert(s == step_after(p, steps, m - 1)) by {
            if m - 1 > 0 {
                assert(steps[(m - 2) + 1].step == import_step_spec(p, steps[m - 2].step, steps[m - 2].outcome));
            }
        }
        assert(!(s is Done) && valid_step(p, s));
        assert forall|k: int| is_record_kind(k) implies {
            &&& 0 <= #[trigger] done_before(p, step_after(p, steps, m), k) <= entry_names(p, k).len()
            &&& rec_names(records_of_kind(p, steps.take(m), k)) == entry_names(p, k).take(
                done_before(p, step_after(p, steps, m), k),
            )
            &&& forall|i: int|
                0 <= i < records_of_kind(p, steps.take(m), k).len() ==> record_ok(
                    #[trigger] records_of_kind(p, steps.take(m), k)[i],
                )
        } by {
            lemma_step_counts(p, s, so.outcome, k);
            let before = records_of_kind(p, steps.take(m - 1), k);
            let c = done_before(p, s, k);
            assert(done_before(p, step_after(p, steps, m - 1), k) == c);
            if step_kind(s) == k {
                let x = outcome_rec(kind_label(k), step_entity(p, s), so.outcome);
                assert(records_of_kind(p, t, k) == before.push(x));
                lemma_rec_names_push(before, x);
                assert(entry_names(p, k).take(c + 1) =~= entry_names(p, k).take(c).push(
                    entry_names(p, k)[c],
                ));
                assert(record_ok(x)) by {
                    reveal_strlit("created");
                    reveal_strlit("overwritten");
                    reveal_strlit("skipped");
                    reveal_strlit("failed");
                    assert("created"@.len() != "failed"@.len());
                    assert("skipped"@.len() != "failed"@.len());
                    assert("overwritten"@.len() != "failed"@.len());
                }
                assert forall|i: int| 0 <= i < records_of_kind(p, t, k).len() implies record_ok(
                    #[trigger] records_of_kind(p, t, k)[i],
                ) by {
                    if i < before.len() {
                        assert(records_of_kind(p, t, k)[i] == before[i]);
                    }
                }
            } else {
                assert(records_of_kind(p, t, k) == before);
            }
        }
    }
}

/// A run that went to the end records every entry of the payload once, in
/// payload order, for each kind: the records of the assembled result name
/// the payload's data sources, datasets, object types, action types and
/// groups in order, each with a known status and a message exactly when its
/// write failed.
pub proof fn law_import_run_records_every_entry(
    p: OntologyPayload,
    existed: bool,
    steps: Seq<StepOutcome>,
    r: ImportResult,
)
    requires
        is_import_run(p, steps),
        step_after(p, steps, steps.len() as int) is Done,
        import_result_matches(p, existed, steps, r),
    ensures
        r.ontology_api_name@ == p.api_name@,
        rec_names(items_v(r.data_sources@)) == entry_names(p, 0),
        rec_names(items_v(r.datasets@)) == entry_names(p, 1),
        rec_names(items_v(r.object_types@)) == entry_names(p, 2),
        rec_names(items_v(r.action_types@)) == entry_names(p, 4),
        rec_names(items_v(r.object_type_groups@)) == entry_names(p, 5),
        forall|i: int| 0 <= i < r.data_sources@.len() ==> record_ok(#[trigger] item_v(r.data_sources@[i])),
        forall|i: int| 0 <= i < r.datasets@.len() ==> record_ok(#[trigger] item_v(r.datasets@[i])),
        forall|i: int| 0 <= i < r.object_types@.len() ==> record_ok(#[trigger] item_v(r.object_types@[i])),
        forall|i: int| 0 <= i < r.action_types@.len() ==> record_ok(#[trigger] item_v(r.action_types@[i])),
        forall|i: int|
            0 <= i < r.object_type_groups@.len() ==> record_ok(#[trigger] item_v(r.object_type_groups@[i])),
{
    lemma_run_prefix(p, steps, steps.len() as int);
    assert(steps.take(steps.len() as int) =~= steps);
    let d = step_after(p, steps, steps.len() as int);
    assert forall|k: int| is_record_kind(k) implies rec_names(records_of_kind(p, steps, k)) == entry_names(p, k)
        && forall|i: int| 0 <= i < records_of_kind(p, steps, k).len() ==> record_ok(
            #[trigger] records_of_kind(p, steps, k)[i],
        ) by {
        assert(done_before(p, d, k) == entry_names(p, k).len());
        assert(entry_names(p, k).take(entry_names(p, k).len() as int) =~= entry_names(p, k));
    }
    assert forall|i: int| 0 <= i < r.data_sources@.len() implies record_ok(#[trigger] item_v(r.data_sources@[i])) by {
        assert(items_v(r.data_sources@)[i] == item_v(r.data_sources@[i]));
        assert(is_record_kind(0));
    }
    assert forall|i: int| 0 <= i < r.datasets@.len() implies record_ok(#[trigger] item_v(r.datasets@[i])) by {
        assert(items_v(r.datasets@)[i] == item_v(r.datasets@[i]));
        assert(is_record_kind(1));
    }
    assert forall|i: int| 0 <= i < r.object_types@.len() implies record_ok(#[trigger] item_v(r.object_types@[i])) by {
        assert(items_v(r.object_types@)[i] == item_v(r.object_types@[i]));
        assert(is_record_kind(2));
    }
    assert forall|i: int| 0 <= i < r.action_types@.len() implies record_ok(#[trigger] item_v(r.action_types@[i])) by {
        assert(items_v(r.action_types@)[i] == item_v(r.action_types@[i]));
        assert(is_record_kind(4));
    }
    assert forall|i: int| 0 <= i < r.object_type_groups@.len() implies record_ok(
        #[trigger] item_v(r.object_type_groups@[i]),
    ) by {
        assert(items_v(r.object_type_groups@)[i] == item_v(r.object_type_groups@[i]));
        assert(is_record_kind(5));
    }
    assert(is_record_kind(0) && is_record_kind(1) && is_record_kind(2) && is_record_kind(4) && is_record_kind(5));
}

} // verus!
