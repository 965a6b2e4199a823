//! The rules of the ontology store: validation of every payload entity, the
//! dry-run prediction of an import, the outcome records of an import, and the
//! size limits of the change log.
//!
//! The store itself keeps its tables in SQLite; it asks the database what
//! already exists and hands those facts to the functions here.

use vstd::prelude::*;
use crate::data_type::{is_valid_data_type, spec_data_types};
use crate::error::{StoreError, StoreErrorV};
use crate::naming::{
    is_valid_dataset_api_name, is_valid_object_type_api_name, is_valid_property_api_name,
    spec_dataset_api_name, spec_object_type_api_name, spec_property_api_name,
    DATASET_API_NAME_PATTERN, OBJECT_TYPE_API_NAME_PATTERN, PROPERTY_API_NAME_PATTERN,
};
use crate::payload::{
    ActionTypeDef, DataSourceDef, DatasetDef,
    LinkDef, ObjectTypeDef, ObjectTypeGroupDef, PropertyDef,
};
use crate::text::{concat2, concat3, join, join_strings};
use crate::ttl::strs;

verus! {

// ════════════════════════════════════════════════════════════════
// Sequence helpers
// ════════════════════════════════════════════════════════════════

/// The first error that `f` finds in `s`, scanning from the front.
pub open spec fn first_error<A>(s: Seq<A>, f: spec_fn(A) -> Option<StoreErrorV>) -> Option<
    StoreErrorV,
>
    decreases s.len(),
{
    if s.len() == 0 {
        None
    } else {
        match f(s[0]) {
            Some(e) => Some(e),
            None => first_error(s.drop_first(), f),
        }
    }
}

/// The values that `f` gives for the elements of `s`, in order, skipping `None`.
pub open spec fn filter_map<A, B>(s: Seq<A>, f: spec_fn(A) -> Option<B>) -> Seq<B>
    decreases s.len(),
{
    if s.len() == 0 {
        Seq::empty()
    } else {
        let prev = filter_map(s.drop_last(), f);
        match f(s.last()) {
            Some(b) => prev.push(b),
            None => prev,
        }
    }
}

/// The concatenation of what `f` gives for the elements of `s`, in order.
pub open spec fn flat_map<A, B>(s: Seq<A>, f: spec_fn(A) -> Seq<B>) -> Seq<B>
    decreases s.len(),
{
    if s.len() == 0 {
        Seq::empty()
    } else {
        flat_map(s.drop_last(), f) + f(s.last())
    }
}

pub proof fn lemma_first_error_start<A>(s: Seq<A>, f: spec_fn(A) -> Option<StoreErrorV>)
    ensures
        first_error(s, f) == first_error(s.skip(0), f),
{
    assert(s.skip(0) =~= s);
}

pub proof fn lemma_first_error_skip<A>(s: Seq<A>, f: spec_fn(A) -> Option<StoreErrorV>, i: int)
    requires
        0 <= i < s.len(),
        f(s[i]) is None,
    ensures
        first_error(s.skip(i), f) == first_error(s.skip(i + 1), f),
{
    assert(s.skip(i)[0] == s[i]);
    assert(s.skip(i).drop_first() =~= s.skip(i + 1));
}

pub proof fn lemma_first_error_hit<A>(s: Seq<A>, f: spec_fn(A) -> Option<StoreErrorV>, i: int)
    requires
        0 <= i < s.len(),
        f(s[i]) is Some,
    ensures
        first_error(s.skip(i), f) == f(s[i]),
{
    assert(s.skip(i)[0] == s[i]);
}

pub proof fn lemma_first_error_end<A>(s: Seq<A>, f: spec_fn(A) -> Option<StoreErrorV>)
    ensures
        first_error(s.skip(s.len() as int), f) is None,
{
    assert(s.skip(s.len() as int) =~= Seq::<A>::empty());
}

pub proof fn lemma_filter_map_step<A, B>(s: Seq<A>, f: spec_fn(A) -> Option<B>, i: int)
    requires
        0 <= i < s.len(),
    ensures
        filter_map(s.take(i + 1), f) == (match f(s[i]) {
            Some(b) => filter_map(s.take(i), f).push(b),
            None => filter_map(s.take(i), f),
        }),
{
    assert(s.take(i + 1).drop_last() =~= s.take(i));
    assert(s.take(i + 1).last() == s[i]);
}

pub proof fn lemma_flat_map_step<A, B>(s: Seq<A>, f: spec_fn(A) -> Seq<B>, i: int)
    requires
        0 <= i < s.len(),
    ensures
        flat_map(s.take(i + 1), f) == flat_map(s.take(i), f) + f(s[i]),
{
    assert(s.take(i + 1).drop_last() =~= s.take(i));
    assert(s.take(i + 1).last() == s[i]);
}

pub proof fn lemma_take_all<A>(s: Seq<A>)
    ensures
        s.take(s.len() as int) == s,
{
    assert(s.take(s.len() as int) =~= s);
}

/// Whether `v` holds a string with the text of `s`.
pub fn contains_string(v: &Vec<String>, s: &String) -> (r: bool)
    ensures
        r == strs(v@).contains(s@),
{
    let n = v.len();
    let mut i: usize = 0;
    while i < n
        invariant
            n == v@.len(),
            i <= n,
            forall|k: int| 0 <= k < i ==> v@[k]@ != s@,
        decreases n - i,
    {
        if v[i] == *s {
            assert(strs(v@)[i as int] == s@);
            return true;
        }
        i = i + 1;
    }
    assert(!strs(v@).contains(s@)) by {
        if strs(v@).contains(s@) {
            let k = choose|k: int| 0 <= k < strs(v@).len() && strs(v@)[k] == s@;
            assert(v@[k]@ == s@);
        }
    }
    false
}

pub open spec fn res_is(r: Result<(), StoreError>, e: Option<StoreErrorV>) -> bool {
    match r {
        Ok(()) => e is None,
        Err(x) => e == Some(x@),
    }
}

// ════════════════════════════════════════════════════════════════
// Entity validation (shared by preview and the agent tools)
// ════════════════════════════════════════════════════════════════

pub open spec fn api_name_error(kind: Seq<char>, name: Seq<char>, pattern: Seq<char>) -> StoreErrorV {
    StoreErrorV::InvalidApiName(kind, name, pattern)
}

pub open spec fn property_error(p: PropertyDef) -> Option<StoreErrorV> {
    if !spec_property_api_name(p.api_name@) {
        Some(api_name_error("Property"@, p.api_name@, PROPERTY_API_NAME_PATTERN@))
    } else if !spec_data_types().contains(p.data_type@) {
        Some(StoreErrorV::InvalidDataType(p.data_type@))
    } else {
        None
    }
}

pub open spec fn property_check() -> spec_fn(PropertyDef) -> Option<StoreErrorV> {
    |p: PropertyDef| property_error(p)
}

pub open spec fn object_type_error(ot: ObjectTypeDef) -> Option<StoreErrorV> {
    if !spec_object_type_api_name(ot.api_name@) {
        Some(api_name_error("ObjectType"@, ot.api_name@, OBJECT_TYPE_API_NAME_PATTERN@))
    } else if ot.storage_type@ != "MANAGED"@ && ot.storage_type@ != "VIRTUAL"@ {
        Some(StoreErrorV::Other("storage_type 必须是 MANAGED 或 VIRTUAL，got '"@ + ot.storage_type@ + "'"@))
    } else {
        first_error(ot.properties@, property_check())
    }
}

pub open spec fn link_error(l: LinkDef) -> Option<StoreErrorV> {
    if !spec_property_api_name(l.api_name@) {
        Some(api_name_error("LinkType"@, l.api_name@, PROPERTY_API_NAME_PATTERN@))
    } else if !spec_object_type_api_name(l.target_object_type_api_name@) {
        Some(
            api_name_error(
                "LinkType target"@,
                l.target_object_type_api_name@,
                OBJECT_TYPE_API_NAME_PATTERN@,
            ),
        )
    } else if l.cardinality@ != "ONE"@ && l.cardinality@ != "MANY"@ {
        Some(StoreErrorV::Other("cardinality 必须是 ONE 或 MANY，got '"@ + l.cardinality@ + "'"@))
    } else {
        None
    }
}

pub open spec fn action_error(a: ActionTypeDef) -> Option<StoreErrorV> {
    if !spec_property_api_name(a.api_name@) {
        Some(api_name_error("ActionType"@, a.api_name@, PROPERTY_API_NAME_PATTERN@))
    } else if !spec_object_type_api_name(a.affected_object_type_api_name@) {
        Some(
            api_name_error(
                "ActionType affected"@,
                a.affected_object_type_api_name@,
                OBJECT_TYPE_API_NAME_PATTERN@,
            ),
        )
    } else {
        None
    }
}

pub open spec fn dataset_error(d: DatasetDef) -> Option<StoreErrorV> {
    if !spec_dataset_api_name(d.api_name@) {
        Some(api_name_error("Dataset"@, d.api_name@, DATASET_API_NAME_PATTERN@))
    } else {
        None
    }
}

pub open spec fn data_source_error(d: DataSourceDef) -> Option<StoreErrorV> {
    if !spec_dataset_api_name(d.api_name@) {
        Some(api_name_error("DataSource"@, d.api_name@, DATASET_API_NAME_PATTERN@))
    } else {
        None
    }
}

pub open spec fn group_error(g: ObjectTypeGroupDef) -> Option<StoreErrorV> {
    if !spec_object_type_api_name(g.api_name@) {
        Some(api_name_error("ObjectTypeGroup"@, g.api_name@, OBJECT_TYPE_API_NAME_PATTERN@))
    } else {
        None
    }
}

/// Checks a property: camelCase api_name, a known data type.
pub fn validate_property(p: &PropertyDef) -> (r: Result<(), StoreError>)
    ensures
        res_is(r, property_error(*p)),
{
    if !is_valid_property_api_name(p.api_name.as_str()) {
        return Err(
            StoreError::InvalidApiName {
                entity_kind: "Property",
                api_name: p.api_name.clone(),
                pattern: PROPERTY_API_NAME_PATTERN,
            },
        );
    }
    if !is_valid_data_type(p.data_type.as_str()) {
        return Err(StoreError::InvalidDataType(p.data_type.clone()));
    }
    Ok(())
}

/// Checks an object type: PascalCase api_name, MANAGED or VIRTUAL storage,
/// then each property in order.
pub fn validate_ot(ot: &ObjectTypeDef) -> (r: Result<(), StoreError>)
    ensures
        res_is(r, object_type_error(*ot)),
{
    if !is_valid_object_type_api_name(ot.api_name.as_str()) {
        return Err(
            StoreError::InvalidApiName {
                entity_kind: "ObjectType",
                api_name: ot.api_name.clone(),
                pattern: OBJECT_TYPE_API_NAME_PATTERN,
            },
        );
    }
    let st = ot.storage_type.as_str();
    if !crate::text::str_eq(st, "MANAGED") && !crate::text::str_eq(st, "VIRTUAL") {
        return Err(
            StoreError::Other(
                concat3("storage_type 必须是 MANAGED 或 VIRTUAL，got '", st, "'"),
            ),
        );
    }
    let n = ot.properties.len();
    proof {
        lemma_first_error_start(ot.properties@, property_check());
    }
    let mut i: usize = 0;
    while i < n
        invariant
            n == ot.properties@.len(),
            i <= n,
            object_type_error(*ot) == first_error(ot.properties@, property_check()),
            first_error(ot.properties@, property_check()) == first_error(
                ot.properties@.skip(i as int),
                property_check(),
            ),
        decreases n - i,
    {
        let r = validate_property(&ot.properties[i]);
        match r {
            Err(e) => {
                proof {
                    lemma_first_error_hit(ot.properties@, property_check(), i as int);
                }
                return Err(e);
            },
            Ok(()) => {
                proof {
                    lemma_first_error_skip(ot.properties@, property_check(), i as int);
                }
            },
        }
        i = i + 1;
    }
    proof {
        lemma_first_error_end(ot.properties@, property_check());
    }
    Ok(())
}

/// Checks a link: camelCase api_name, PascalCase target, ONE or MANY cardinality.
pub fn validate_link(l: &LinkDef) -> (r: Result<(), StoreError>)
    ensures
        res_is(r, link_error(*l)),
{
    if !is_valid_property_api_name(l.api_name.as_str()) {
        return Err(
            StoreError::InvalidApiName {
                entity_kind: "LinkType",
                api_name: l.api_name.clone(),
                pattern: PROPERTY_API_NAME_PATTERN,
            },
        );
    }
    if !is_valid_object_type_api_name(l.target_object_type_api_name.as_str()) {
        return Err(
            StoreError::InvalidApiName {
                entity_kind: "LinkType target",
                api_name: l.target_object_type_api_name.clone(),
                pattern: OBJECT_TYPE_API_NAME_PATTERN,
            },
        );
    }
    let c = l.cardinality.as_str();
    if !crate::text::str_eq(c, "ONE") && !crate::text::str_eq(c, "MANY") {
        return Err(
            StoreError::Other(concat3("cardinality 必须是 ONE 或 MANY，got '", c, "'")),
        );
    }
    Ok(())
}

/// Checks an action type: camelCase api_name, PascalCase affected object type.
pub fn validate_action(a: &ActionTypeDef) -> (r: Result<(), StoreError>)
    ensures
        res_is(r, action_error(*a)),
{
    if !is_valid_property_api_name(a.api_name.as_str()) {
        return Err(
            StoreError::InvalidApiName {
                entity_kind: "ActionType",
                api_name: a.api_name.clone(),
                pattern: PROPERTY_API_NAME_PATTERN,
            },
        );
    }
    if !is_valid_object_type_api_name(a.affected_object_type_api_name.as_str()) {
        return Err(
            StoreError::InvalidApiName {
                entity_kind: "ActionType affected",
                api_name: a.affected_object_type_api_name.clone(),
                pattern: OBJECT_TYPE_API_NAME_PATTERN,
            },
        );
    }
    Ok(())
}

/// Checks a dataset: snake_case api_name.
pub fn validate_dataset(d: &DatasetDef) -> (r: Result<(), StoreError>)
    ensures
        res_is(r, dataset_error(*d)),
{
    if !is_valid_dataset_api_name(d.api_name.as_str()) {
        return Err(
            StoreError::InvalidApiName {
                entity_kind: "Dataset",
                api_name: d.api_name.clone(),
                pattern: DATASET_API_NAME_PATTERN,
            },
        );
    }
    Ok(())
}

/// Checks a data source: snake_case api_name.
pub fn validate_data_source(d: &DataSourceDef) -> (r: Result<(), StoreError>)
    ensures
        res_is(r, data_source_error(*d)),
{
    if !is_valid_dataset_api_name(d.api_name.as_str()) {
        return Err(
            StoreError::InvalidApiName {
                entity_kind: "DataSource",
                api_name: d.api_name.clone(),
                pattern: DATASET_API_NAME_PATTERN,
            },
        );
    }
    Ok(())
}

/// Checks an object type group: PascalCase api_name.
pub fn validate_group(g: &ObjectTypeGroupDef) -> (r: Result<(), StoreError>)
    ensures
        res_is(r, group_error(*g)),
{
    if !is_valid_object_type_api_name(g.api_name.as_str()) {
        return Err(
            StoreError::InvalidApiName {
                entity_kind: "ObjectTypeGroup",
                api_name: g.api_name.clone(),
                pattern: OBJECT_TYPE_API_NAME_PATTERN,
            },
        );
    }
    Ok(())
}

// ════════════════════════════════════════════════════════════════
// Deleting referenced entities
// ════════════════════════════════════════════════════════════════

pub open spec fn prefixed(prefix: Seq<char>, names: Seq<Seq<char>>) -> Seq<Seq<char>> {
    names.map_values(|n: Seq<char>| prefix + n)
}

/// The refusal to delete a dataset that object types (as backing) or
/// datasets (as source of a view) still refer to; none when nothing does.
pub open spec fn dataset_delete_refusal(
    dataset: Seq<char>,
    ot_refs: Seq<Seq<char>>,
    dataset_refs: Seq<Seq<char>>,
) -> Option<StoreErrorV> {
    let refs = prefixed("ObjectType "@, ot_refs) + prefixed("Dataset "@, dataset_refs);
    if refs.len() == 0 {
        None
    } else {
        Some(
            StoreErrorV::ReferentialIntegrity(
                "dataset '"@ + dataset + "' 被引用，先解除引用再删除："@ + join(refs, ", "@),
            ),
        )
    }
}

/// The refusal to delete a data source that datasets still use.
pub open spec fn data_source_delete_refusal(source: Seq<char>, dataset_refs: Seq<Seq<char>>) -> Option<StoreErrorV> {
    if dataset_refs.len() == 0 {
        None
    } else {
        Some(
            StoreErrorV::ReferentialIntegrity(
                "data_source '"@ + source + "' 被引用，先解除引用再删除："@ + join(
                    dataset_refs,
                    ", "@,
                ),
            ),
        )
    }
}

fn push_prefixed(out: &mut Vec<String>, prefix: &str, names: &Vec<String>)
    ensures
        strs(final(out)@) == strs(old(out)@) + prefixed(prefix@, strs(names@)),
{
    let n = names.len();
    let mut i: usize = 0;
    assert(strs(old(out)@) + prefixed(prefix@, strs(names@).take(0)) =~= strs(old(out)@));
    while i < n
        invariant
            n == names@.len(),
            i <= n,
            strs(out@) == strs(old(out)@) + prefixed(prefix@, strs(names@).take(i as int)),
        decreases n - i,
    {
        let ghost before = strs(out@);
        out.push(concat2(prefix, names[i].as_str()));
        assert(strs(out@) =~= before.push(prefix@ + names@[i as int]@));
        assert(prefixed(prefix@, strs(names@).take(i + 1)) =~= prefixed(prefix@, strs(names@).take(i as int)).push(
            prefix@ + names@[i as int]@,
        ));
        i = i + 1;
    }
    assert(strs(names@).take(n as int) =~= strs(names@));
}

/// Checks that a dataset can be deleted: refuses, naming every object type
/// and dataset that refers to it.
pub fn check_dataset_deletable(dataset: &str, ot_refs: &Vec<String>, dataset_refs: &Vec<String>) -> (r: Result<(), StoreError>)
    ensures
        res_is(r, dataset_delete_refusal(dataset@, strs(ot_refs@), strs(dataset_refs@))),
{
    let mut refs: Vec<String> = Vec::new();
    assert(strs(refs@) =~= Seq::<Seq<char>>::empty());
    push_prefixed(&mut refs, "ObjectType ", ot_refs);
    push_prefixed(&mut refs, "Dataset ", dataset_refs);
    assert(strs(refs@) =~= prefixed("ObjectType "@, strs(ot_refs@)) + prefixed("Dataset "@, strs(dataset_refs@)));
    if refs.len() == 0 {
        return Ok(());
    }
    let mut msg = concat3("dataset '", dataset, "' 被引用，先解除引用再删除：");
    msg.append(join_strings(&refs, ", ").as_str());
    Err(StoreError::ReferentialIntegrity(msg))
}

/// Checks that a data source can be deleted: refuses, naming every dataset
/// that uses it.
pub fn check_data_source_deletable(source: &str, dataset_refs: &Vec<String>) -> (r: Result<(), StoreError>)
    ensures
        res_is(r, data_source_delete_refusal(source@, strs(dataset_refs@))),
{
    if dataset_refs.len() == 0 {
        return Ok(());
    }
    let mut msg = concat3("data_source '", source, "' 被引用，先解除引用再删除：");
    msg.append(join_strings(dataset_refs, ", ").as_str());
    Err(StoreError::ReferentialIntegrity(msg))
}

} // verus!
