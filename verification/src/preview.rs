//! The dry run of an import: what each entity of a payload would become, the
//! blocking reference errors and the non-blocking warnings, computed from the
//! payload and what the store already holds, without writing anything.

use vstd::prelude::*;
use crate::error::{StoreError, StoreErrorV};
use crate::payload::{
    json_member_str, json_string_members, ActionTypeDef, DataSourceDef, DatasetDef,
    ImportPreview, ImportPreviewItem, ImportRequest, LinkDef, ObjectTypeDef,
    ObjectTypeGroupDef, OntologyPayload, PropertyDef,
};
use crate::store::{
    action_error, contains_string, data_source_error, dataset_error, filter_map, first_error,
    flat_map, group_error, lemma_filter_map_step, lemma_first_error_end, lemma_first_error_hit,
    lemma_first_error_skip, lemma_first_error_start, lemma_flat_map_step, lemma_take_all,
    link_error, object_type_error, validate_action, validate_data_source, validate_dataset,
    validate_group, validate_link, validate_ot,
};
use crate::text::{concat3, decimal_string, spec_decimal};
use crate::ttl::strs;

verus! {

/// What the store already holds for the ontology that a payload names.
pub struct ExistingEntities {
    pub ontology_exists: bool,
    /// api_names of its object types
    pub object_types: Vec<String>,
    /// api_names of its datasets
    pub datasets: Vec<String>,
    /// api_names of its data sources
    pub data_sources: Vec<String>,
    /// api_names of its object type groups
    pub object_type_groups: Vec<String>,
}

/// An item of the prediction: api_name, status, reason.
pub type ItemV = (Seq<char>, Seq<char>, Seq<char>);

pub open spec fn item_v(i: ImportPreviewItem) -> ItemV {
    (i.api_name@, i.status@, i.reason@)
}

pub open spec fn items_v(s: Seq<ImportPreviewItem>) -> Seq<ItemV> {
    s.map_values(|i: ImportPreviewItem| item_v(i))
}

// ════════════════════════════════════════════════════════════════
// Checks, per entity
// ════════════════════════════════════════════════════════════════

pub open spec fn ot_check() -> spec_fn(ObjectTypeDef) -> Option<StoreErrorV> {
    |ot: ObjectTypeDef| object_type_error(ot)
}

pub open spec fn link_check() -> spec_fn(LinkDef) -> Option<StoreErrorV> {
    |l: LinkDef| link_error(l)
}

/// The first invalid link declared on an object type.
pub open spec fn ot_links_check() -> spec_fn(ObjectTypeDef) -> Option<StoreErrorV> {
    |ot: ObjectTypeDef| first_error(ot.links@, link_check())
}

pub open spec fn action_check() -> spec_fn(ActionTypeDef) -> Option<StoreErrorV> {
    |a: ActionTypeDef| action_error(a)
}

pub open spec fn dataset_check() -> spec_fn(DatasetDef) -> Option<StoreErrorV> {
    |d: DatasetDef| dataset_error(d)
}

pub open spec fn data_source_check() -> spec_fn(DataSourceDef) -> Option<StoreErrorV> {
    |d: DataSourceDef| data_source_error(d)
}

pub open spec fn group_check() -> spec_fn(ObjectTypeGroupDef) -> Option<StoreErrorV> {
    |g: ObjectTypeGroupDef| group_error(g)
}

/// The error that stops a dry run: the first invalid object type (or one of
/// its properties); else the first invalid link, object type by object type;
/// else the first invalid action type, dataset, data source, group, in that
/// order.
pub open spec fn preview_error(req: ImportRequest) -> Option<StoreErrorV> {
    let p = req.payload;
    let e_ot = first_error(p.object_types@, ot_check());
    let e_link = first_error(p.object_types@, ot_links_check());
    let e_act = first_error(p.action_types@, action_check());
    let e_ds = first_error(p.datasets@, dataset_check());
    let e_src = first_error(p.data_sources@, data_source_check());
    let e_grp = first_error(p.object_type_groups@, group_check());
    if e_ot is Some {
        e_ot
    } else if e_link is Some {
        e_link
    } else if e_act is Some {
        e_act
    } else if e_ds is Some {
        e_ds
    } else if e_src is Some {
        e_src
    } else {
        e_grp
    }
}

// ════════════════════════════════════════════════════════════════
// Predicted items
// ════════════════════════════════════════════════════════════════

pub open spec fn msg_ot_skipped() -> Seq<char> {
    "同名已存在且未列入 overwrite_object_types"@
}

pub open spec fn msg_same_name_exists() -> Seq<char> {
    "同名已存在"@
}

/// An object type is created when the store does not hold its name, else
/// overwritten when the request lists it, else skipped.
pub open spec fn ot_item(ot: ObjectTypeDef, existing: Seq<Seq<char>>, overwrite: Seq<Seq<char>>) -> ItemV {
    let n = ot.api_name@;
    if !existing.contains(n) {
        (n, "create"@, Seq::empty())
    } else if overwrite.contains(n) {
        (n, "overwrite"@, Seq::empty())
    } else {
        (n, "skip"@, msg_ot_skipped())
    }
}

pub open spec fn ot_items(ots: Seq<ObjectTypeDef>, existing: Seq<Seq<char>>, overwrite: Seq<Seq<char>>) -> Seq<ItemV> {
    ots.map_values(|ot: ObjectTypeDef| ot_item(ot, existing, overwrite))
}

/// A link is always predicted as created; its reason names its source.
pub open spec fn link_item(source: Seq<char>, l: LinkDef) -> ItemV {
    (l.api_name@, "create"@, "(via "@ + source + ")"@)
}

pub open spec fn ot_link_items(ot: ObjectTypeDef) -> Seq<ItemV> {
    ot.links@.map_values(|l: LinkDef| link_item(ot.api_name@, l))
}

pub open spec fn ot_link_items_fn() -> spec_fn(ObjectTypeDef) -> Seq<ItemV> {
    |ot: ObjectTypeDef| ot_link_items(ot)
}

/// The links of all object types, object type by object type.
pub open spec fn link_items(ots: Seq<ObjectTypeDef>) -> Seq<ItemV> {
    flat_map(ots, ot_link_items_fn())
}

pub open spec fn action_items(acts: Seq<ActionTypeDef>) -> Seq<ItemV> {
    acts.map_values(|a: ActionTypeDef| (a.api_name@, "create"@, Seq::<char>::empty()))
}

/// Skipped when the store holds the name, else created.
pub open spec fn plain_item(n: Seq<char>, existing: Seq<Seq<char>>) -> ItemV {
    if existing.contains(n) {
        (n, "skip"@, msg_same_name_exists())
    } else {
        (n, "create"@, Seq::empty())
    }
}

pub open spec fn dataset_items(ds: Seq<DatasetDef>, existing: Seq<Seq<char>>) -> Seq<ItemV> {
    ds.map_values(|d: DatasetDef| plain_item(d.api_name@, existing))
}

pub open spec fn group_items(gs: Seq<ObjectTypeGroupDef>, existing: Seq<Seq<char>>) -> Seq<ItemV> {
    gs.map_values(|g: ObjectTypeGroupDef| plain_item(g.api_name@, existing))
}

/// A data source is created when new, overwritten when listed, else skipped.
pub open spec fn data_source_item(d: DataSourceDef, existing: Seq<Seq<char>>, overwrite: Seq<Seq<char>>) -> ItemV {
    let n = d.api_name@;
    if !existing.contains(n) {
        (n, "create"@, Seq::empty())
    } else if overwrite.contains(n) {
        (n, "overwrite"@, Seq::empty())
    } else {
        (n, "skip"@, msg_same_name_exists())
    }
}

pub open spec fn data_source_items(ds: Seq<DataSourceDef>, existing: Seq<Seq<char>>, overwrite: Seq<Seq<char>>) -> Seq<ItemV> {
    ds.map_values(|d: DataSourceDef| data_source_item(d, existing, overwrite))
}

// ════════════════════════════════════════════════════════════════
// Reference errors and warnings
// ════════════════════════════════════════════════════════════════

pub open spec fn ot_names(ots: Seq<ObjectTypeDef>) -> Seq<Seq<char>> {
    ots.map_values(|ot: ObjectTypeDef| ot.api_name@)
}

/// An object type is known when the payload declares it or the store holds it.
pub open spec fn known_ot(names: Seq<Seq<char>>, existing: Seq<Seq<char>>, n: Seq<char>) -> bool {
    names.contains(n) || existing.contains(n)
}

pub open spec fn msg_dangling_link(source: Seq<char>, link: Seq<char>, target: Seq<char>) -> Seq<char> {
    "LinkType '"@ + source + "."@ + link + "' 的 target_object_type_api_name '"@ + target
        + "' 在本体内不存在"@
}

pub open spec fn msg_dangling_action(action: Seq<char>, target: Seq<char>) -> Seq<char> {
    "ActionType '"@ + action + "' 的 affected_object_type_api_name '"@ + target + "' 在本体内不存在"@
}

pub open spec fn msg_primary_key_count(ot: Seq<char>, count: nat) -> Seq<char> {
    "ObjectType '"@ + ot + "' 必须有且仅一个 is_primary_key=true 的属性（当前 "@ + spec_decimal(count)
        + " 个）"@
}

pub open spec fn msg_password(ds: Seq<char>) -> Seq<char> {
    "DataSource '"@ + ds + "' 的 connector_config 含明文 password，建议改用 credential"@
}

pub open spec fn msg_missing_backing(ot: Seq<char>, p: Seq<char>) -> Seq<char> {
    "VIRTUAL ObjectType '"@ + ot + "' 的属性 '"@ + p + "' 缺 backing_mapping（虚拟类型通常需声明物理列映射）"@
}

pub open spec fn dangling_link(source: Seq<char>, names: Seq<Seq<char>>, existing: Seq<Seq<char>>) -> spec_fn(LinkDef) -> Option<Seq<char>> {
    |l: LinkDef|
        if known_ot(names, existing, l.target_object_type_api_name@) {
            None
        } else {
            Some(msg_dangling_link(source, l.api_name@, l.target_object_type_api_name@))
        }
}

pub open spec fn ot_dangling_links(names: Seq<Seq<char>>, existing: Seq<Seq<char>>) -> spec_fn(ObjectTypeDef) -> Seq<Seq<char>> {
    |ot: ObjectTypeDef| filter_map(ot.links@, dangling_link(ot.api_name@, names, existing))
}

pub open spec fn dangling_action(names: Seq<Seq<char>>, existing: Seq<Seq<char>>) -> spec_fn(ActionTypeDef) -> Option<Seq<char>> {
    |a: ActionTypeDef|
        if known_ot(names, existing, a.affected_object_type_api_name@) {
            None
        } else {
            Some(msg_dangling_action(a.api_name@, a.affected_object_type_api_name@))
        }
}

/// How many properties are marked as primary key.
pub open spec fn pk_count(ps: Seq<PropertyDef>) -> nat
    decreases ps.len(),
{
    if ps.len() == 0 {
        0
    } else {
        pk_count(ps.drop_last()) + if ps.last().is_primary_key == Some(true) {
            1nat
        } else {
            0nat
        }
    }
}

/// A property explicitly marked as primary key (`is_primary_key: Some(true)`);
/// an absent flag is no mark.
pub open spec fn marked_primary_key() -> spec_fn(PropertyDef) -> bool {
    |p: PropertyDef| p.is_primary_key == Some(true)
}

/// The primary keys of an object type are counted among its properties
/// marked `Some(true)` and no others: a property whose flag is `None` or
/// `Some(false)` is never a primary key.
pub proof fn law_primary_keys_are_the_marked_properties(ps: Seq<PropertyDef>)
    ensures
        pk_count(ps) == ps.filter(marked_primary_key()).len(),
    decreases ps.len(),
{
    if ps.len() > 0 {
        law_primary_keys_are_the_marked_properties(ps.drop_last());
        reveal(Seq::filter);
        assert(ps.filter(marked_primary_key()) == if marked_primary_key()(ps.last()) {
            ps.drop_last().filter(marked_primary_key()).push(ps.last())
        } else {
            ps.drop_last().filter(marked_primary_key())
        });
    }
}

/// Properties with no mark, or marked `Some(false)`, add no primary key:
/// adding one leaves the count as it was, adding a `Some(true)` one adds one.
pub proof fn law_unmarked_property_adds_no_key(ps: Seq<PropertyDef>, q: PropertyDef)
    ensures
        q.is_primary_key != Some(true) ==> pk_count(ps.push(q)) == pk_count(ps),
        q.is_primary_key == Some(true) ==> pk_count(ps.push(q)) == pk_count(ps) + 1,
{
    assert(ps.push(q).drop_last() =~= ps);
}

/// An object type with exactly one property marked `Some(true)`, whatever
/// the flags (`None` or `Some(false)`) of the others, has no primary-key
/// problem.
pub proof fn law_one_marked_key_is_enough(ot: ObjectTypeDef, i: int)
    requires
        0 <= i < ot.properties@.len(),
        ot.properties@[i].is_primary_key == Some(true),
        forall|j: int|
            0 <= j < ot.properties@.len() && j != i ==> (#[trigger] ot.properties@[j]).is_primary_key
                != Some(true),
    ensures
        (primary_key_problem())(ot) is None,
{
    lemma_pk_count_one(ot.properties@, i);
}

proof fn lemma_pk_count_one(ps: Seq<PropertyDef>, i: int)
    requires
        0 <= i <= ps.len(),
        i < ps.len() ==> ps[i].is_primary_key == Some(true),
        forall|j: int| 0 <= j < ps.len() && j != i ==> (#[trigger] ps[j]).is_primary_key != Some(true),
    ensures
        pk_count(ps) == (if i < ps.len() { 1nat } else { 0nat }),
    decreases ps.len(),
{
    if ps.len() > 0 {
        let k = ps.len() - 1;
        let rest = ps.drop_last();
        if i == k || i == ps.len() {
            lemma_pk_count_one(rest, rest.len() as int);
        } else {
            assert(forall|j: int| 0 <= j < rest.len() && j != i ==> #[trigger] rest[j] == ps[j]);
            lemma_pk_count_one(rest, i);
        }
    }
}

pub open spec fn primary_key_problem() -> spec_fn(ObjectTypeDef) -> Option<Seq<char>> {
    |ot: ObjectTypeDef|
        if pk_count(ot.properties@) == 1 {
            None
        } else {
            Some(msg_primary_key_count(ot.api_name@, pk_count(ot.properties@)))
        }
}

/// The blocking errors: links whose target is unknown, action types whose
/// affected object type is unknown, object types without exactly one primary
/// key, in that order.
pub open spec fn preview_errors(p: OntologyPayload, existing_ots: Seq<Seq<char>>) -> Seq<Seq<char>> {
    let names = ot_names(p.object_types@);
    flat_map(p.object_types@, ot_dangling_links(names, existing_ots)) + filter_map(
        p.action_types@,
        dangling_action(names, existing_ots),
    ) + filter_map(p.object_types@, primary_key_problem())
}

pub open spec fn password_warning() -> spec_fn(DataSourceDef) -> Option<Seq<char>> {
    |d: DataSourceDef|
        if json_string_members(d.connector_config).dom().contains("password"@) {
            Some(msg_password(d.api_name@))
        } else {
            None
        }
}

pub open spec fn missing_backing(ot: Seq<char>, is_virtual: bool) -> spec_fn(PropertyDef) -> Option<Seq<char>> {
    |p: PropertyDef|
        if p.backing_mapping is None && is_virtual {
            Some(msg_missing_backing(ot, p.api_name@))
        } else {
            None
        }
}

pub open spec fn ot_backing_warnings() -> spec_fn(ObjectTypeDef) -> Seq<Seq<char>> {
    |ot: ObjectTypeDef|
        filter_map(ot.properties@, missing_backing(ot.api_name@, ot.storage_type@ == "VIRTUAL"@))
}

/// The warnings: data sources whose connector config holds a plain-text
/// password, then properties of VIRTUAL object types without a backing
/// mapping.
pub open spec fn preview_warnings(p: OntologyPayload) -> Seq<Seq<char>> {
    filter_map(p.data_sources@, password_warning()) + flat_map(p.object_types@, ot_backing_warnings())
}

/// The whole prediction for a request that passes validation.
pub open spec fn preview_matches(req: ImportRequest, ex: ExistingEntities, r: ImportPreview) -> bool {
    let p = req.payload;
    &&& r.ontology_api_name@ == p.api_name@
    &&& r.ontology_status@ == (if ex.ontology_exists {
        "skip"@
    } else {
        "create"@
    })
    &&& items_v(r.object_types@) == ot_items(
        p.object_types@,
        strs(ex.object_types@),
        strs(req.overwrite_object_types@),
    )
    &&& items_v(r.links@) == link_items(p.object_types@)
    &&& items_v(r.actions@) == action_items(p.action_types@)
    &&& items_v(r.datasets@) == dataset_items(p.datasets@, strs(ex.datasets@))
    &&& items_v(r.data_sources@) == data_source_items(
        p.data_sources@,
        strs(ex.data_sources@),
        strs(req.overwrite_data_sources@),
    )
    &&& items_v(r.object_type_groups@) == group_items(
        p.object_type_groups@,
        strs(ex.object_type_groups@),
    )
    &&& strs(r.errors@) == preview_errors(p, strs(ex.object_types@))
    &&& strs(r.warnings@) == preview_warnings(p)
}

// ════════════════════════════════════════════════════════════════
// Executable parts
// ════════════════════════════════════════════════════════════════

fn make_item(api_name: &String, status: &str, reason: String) -> (r: ImportPreviewItem)
    ensures
        item_v(r) == (api_name@, status@, reason@),
{
    ImportPreviewItem { api_name: api_name.clone(), status: status.to_owned(), reason }
}

fn push_item(out: &mut Vec<ImportPreviewItem>, it: ImportPreviewItem)
    ensures
        items_v(final(out)@) == items_v(old(out)@).push(item_v(it)),
{
    out.push(it);
    assert(items_v(out@) =~= items_v(old(out)@).push(item_v(it)));
}

fn push_text(out: &mut Vec<String>, m: String)
    ensures
        strs(final(out)@) == strs(old(out)@).push(m@),
{
    out.push(m);
    assert(strs(out@) =~= strs(old(out)@).push(m@));
}

fn preview_object_types(ots: &Vec<ObjectTypeDef>, existing: &Vec<String>, overwrite: &Vec<String>) -> (r: Result<Vec<ImportPreviewItem>, StoreError>)
    ensures
        match r {
            Ok(v) => first_error(ots@, ot_check()) is None && items_v(v@) == ot_items(
                ots@,
                strs(existing@),
                strs(overwrite@),
            ),
            Err(e) => first_error(ots@, ot_check()) == Some(e@),
        },
{
    let ghost ex = strs(existing@);
    let ghost ow = strs(overwrite@);
    let mut out: Vec<ImportPreviewItem> = Vec::new();
    let n = ots.len();
    proof {
        lemma_first_error_start(ots@, ot_check());
    }
    let mut i: usize = 0;
    while i < n
        invariant
            n == ots@.len(),
            i <= n,
            ex == strs(existing@),
            ow == strs(overwrite@),
            first_error(ots@, ot_check()) == first_error(ots@.skip(i as int), ot_check()),
            items_v(out@) == ot_items(ots@.take(i as int), ex, ow),
        decreases n - i,
    {
        let ot = &ots[i];
        match validate_ot(ot) {
            Err(e) => {
                proof {
                    lemma_first_error_hit(ots@, ot_check(), i as int);
                }
                return Err(e);
            },
            Ok(()) => {
                proof {
                    lemma_first_error_skip(ots@, ot_check(), i as int);
                }
            },
        }
        let it = if !contains_string(existing, &ot.api_name) {
            make_item(&ot.api_name, "create", String::new())
        } else if contains_string(overwrite, &ot.api_name) {
            make_item(&ot.api_name, "overwrite", String::new())
        } else {
            make_item(&ot.api_name, "skip", "同名已存在且未列入 overwrite_object_types".to_owned())
        };
        push_item(&mut out, it);
        assert(ot_items(ots@.take(i + 1), ex, ow) =~= ot_items(ots@.take(i as int), ex, ow).push(
            ot_item(ots@[i as int], ex, ow),
        ));
        i = i + 1;
    }
    proof {
        lemma_first_error_end(ots@, ot_check());
        lemma_take_all(ots@);
    }
    Ok(out)
}

fn via_reason(source: &String) -> (r: String)
    ensures
        r@ == "(via "@ + source@ + ")"@,
{
    concat3("(via ", source.as_str(), ")")
}

fn preview_links(ots: &Vec<ObjectTypeDef>) -> (r: Result<Vec<ImportPreviewItem>, StoreError>)
    ensures
        match r {
            Ok(v) => first_error(ots@, ot_links_check()) is None && items_v(v@) == link_items(
                ots@,
            ),
            Err(e) => first_error(ots@, ot_links_check()) == Some(e@),
        },
{
    let mut out: Vec<ImportPreviewItem> = Vec::new();
    let n = ots.len();
    proof {
        lemma_first_error_start(ots@, ot_links_check());
    }
    let mut i: usize = 0;
    while i < n
        invariant
            n == ots@.len(),
            i <= n,
            first_error(ots@, ot_links_check()) == first_error(
                ots@.skip(i as int),
                ot_links_check(),
            ),
            items_v(out@) == link_items(ots@.take(i as int)),
        decreases n - i,
    {
        let ot = &ots[i];
        let ghost before = items_v(out@);
        let m = ot.links.len();
        proof {
            lemma_first_error_start(ot.links@, link_check());
        }
        let mut j: usize = 0;
        while j < m
            invariant
                n == ots@.len(),
                i < n,
                *ot == ots@[i as int],
                m == ot.links@.len(),
                j <= m,
                first_error(ot.links@, link_check()) == first_error(
                    ot.links@.skip(j as int),
                    link_check(),
                ),
                first_error(ots@, ot_links_check()) == first_error(
                    ots@.skip(i as int),
                    ot_links_check(),
                ),
                before == link_items(ots@.take(i as int)),
                items_v(out@) == before + ot_link_items(*ot).take(j as int),
            decreases m - j,
        {
            let l = &ot.links[j];
            match validate_link(l) {
                Err(e) => {
                    proof {
                        lemma_first_error_hit(ot.links@, link_check(), j as int);
                        lemma_first_error_hit(ots@, ot_links_check(), i as int);
                    }
                    return Err(e);
                },
                Ok(()) => {
                    proof {
                        lemma_first_error_skip(ot.links@, link_check(), j as int);
                    }
                },
            }
            let it = make_item(&l.api_name, "create", via_reason(&ot.api_name));
            push_item(&mut out, it);
            assert(before + ot_link_items(*ot).take(j + 1) =~= (before + ot_link_items(*ot).take(
                j as int,
            )).push(item_v(it)));
            j = j + 1;
        }
        proof {
            lemma_first_error_end(ot.links@, link_check());
            lemma_first_error_skip(ots@, ot_links_check(), i as int);
            lemma_flat_map_step(ots@, ot_link_items_fn(), i as int);
            assert(ot_link_items(*ot).take(m as int) =~= ot_link_items(*ot));
        }
        i = i + 1;
    }
    proof {
        lemma_first_error_end(ots@, ot_links_check());
        lemma_take_all(ots@);
    }
    Ok(out)
}

fn preview_actions(acts: &Vec<ActionTypeDef>) -> (r: Result<Vec<ImportPreviewItem>, StoreError>)
    ensures
        match r {
            Ok(v) => first_error(acts@, action_check()) is None && items_v(v@) == action_items(
                acts@,
            ),
            Err(e) => first_error(acts@, action_check()) == Some(e@),
        },
{
    let mut out: Vec<ImportPreviewItem> = Vec::new();
    let n = acts.len();
    proof {
        lemma_first_error_start(acts@, action_check());
    }
    let mut i: usize = 0;
    while i < n
        invariant
            n == acts@.len(),
            i <= n,
            first_error(acts@, action_check()) == first_error(acts@.skip(i as int), action_check()),
            items_v(out@) == action_items(acts@.take(i as int)),
        decreases n - i,
    {
        let a = &acts[i];
        match validate_action(a) {
            Err(e) => {
                proof {
                    lemma_first_error_hit(acts@, action_check(), i as int);
                }
                return Err(e);
            },
            Ok(()) => {
                proof {
                    lemma_first_error_skip(acts@, action_check(), i as int);
                }
            },
        }
        let it = make_item(&a.api_name, "create", String::new());
        push_item(&mut out, it);
        assert(action_items(acts@.take(i + 1)) =~= action_items(acts@.take(i as int)).push(
            item_v(it),
        ));
        i = i + 1;
    }
    proof {
        lemma_first_error_end(acts@, action_check());
        lemma_take_all(acts@);
    }
    Ok(out)
}

fn plain_preview_item(api_name: &String, existing: &Vec<String>) -> (r: ImportPreviewItem)
    ensures
        item_v(r) == plain_item(api_name@, strs(existing@)),
{
    if contains_string(existing, api_name) {
        make_item(api_name, "skip", "同名已存在".to_owned())
    } else {
        make_item(api_name, "create", String::new())
    }
}

fn preview_datasets(ds: &Vec<DatasetDef>, existing: &Vec<String>) -> (r: Result<Vec<ImportPreviewItem>, StoreError>)
    ensures
        match r {
            Ok(v) => first_error(ds@, dataset_check()) is None && items_v(v@) == dataset_items(
                ds@,
                strs(existing@),
            ),
            Err(e) => first_error(ds@, dataset_check()) == Some(e@),
        },
{
    let ghost ex = strs(existing@);
    let mut out: Vec<ImportPreviewItem> = Vec::new();
    let n = ds.len();
    proof {
        lemma_first_error_start(ds@, dataset_check());
    }
    let mut i: usize = 0;
    while i < n
        invariant
            n == ds@.len(),
            i <= n,
            ex == strs(existing@),
            first_error(ds@, dataset_check()) == first_error(ds@.skip(i as int), dataset_check()),
            items_v(out@) == dataset_items(ds@.take(i as int), ex),
        decreases n - i,
    {
        let d = &ds[i];
        match validate_dataset(d) {
            Err(e) => {
                proof {
                    lemma_first_error_hit(ds@, dataset_check(), i as int);
                }
                return Err(e);
            },
            Ok(()) => {
                proof {
                    lemma_first_error_skip(ds@, dataset_check(), i as int);
                }
            },
        }
        let it = plain_preview_item(&d.api_name, existing);
        push_item(&mut out, it);
        assert(dataset_items(ds@.take(i + 1), ex) =~= dataset_items(ds@.take(i as int), ex).push(
            item_v(it),
        ));
        i = i + 1;
    }
    proof {
        lemma_first_error_end(ds@, dataset_check());
        lemma_take_all(ds@);
    }
    Ok(out)
}

fn preview_groups(gs: &Vec<ObjectTypeGroupDef>, existing: &Vec<String>) -> (r: Result<Vec<ImportPreviewItem>, StoreError>)
    ensures
        match r {
            Ok(v) => first_error(gs@, group_check()) is None && items_v(v@) == group_items(
                gs@,
                strs(existing@),
            ),
            Err(e) => first_error(gs@, group_check()) == Some(e@),
        },
{
    let ghost ex = strs(existing@);
    let mut out: Vec<ImportPreviewItem> = Vec::new();
    let n = gs.len();
    proof {
        lemma_first_error_start(gs@, group_check());
    }
    let mut i: usize = 0;
    while i < n
        invariant
            n == gs@.len(),
            i <= n,
            ex == strs(existing@),
            first_error(gs@, group_check()) == first_error(gs@.skip(i as int), group_check()),
            items_v(out@) == group_items(gs@.take(i as int), ex),
        decreases n - i,
    {
        let g = &gs[i];
        match validate_group(g) {
            Err(e) => {
                proof {
                    lemma_first_error_hit(gs@, group_check(), i as int);
                }
                return Err(e);
            },
            Ok(()) => {
                proof {
                    lemma_first_error_skip(gs@, group_check(), i as int);
                }
            },
        }
        let it = plain_preview_item(&g.api_name, existing);
        push_item(&mut out, it);
        assert(group_items(gs@.take(i + 1), ex) =~= group_items(gs@.take(i as int), ex).push(
            item_v(it),
        ));
        i = i + 1;
    }
    proof {
        lemma_first_error_end(gs@, group_check());
        lemma_take_all(gs@);
    }
    Ok(out)
}

fn preview_data_sources(ds: &Vec<DataSourceDef>, existing: &Vec<String>, overwrite: &Vec<String>) -> (r: Result<Vec<ImportPreviewItem>, StoreError>)
    ensures
        match r {
            Ok(v) => first_error(ds@, data_source_check()) is None && items_v(v@)
                == data_source_items(ds@, strs(existing@), strs(overwrite@)),
            Err(e) => first_error(ds@, data_source_check()) == Some(e@),
        },
{
    let ghost ex = strs(existing@);
    let ghost ow = strs(overwrite@);
    let mut out: Vec<ImportPreviewItem> = Vec::new();
    let n = ds.len();
    proof {
        lemma_first_error_start(ds@, data_source_check());
    }
    let mut i: usize = 0;
    while i < n
        invariant
            n == ds@.len(),
            i <= n,
            ex == strs(existing@),
            ow == strs(overwrite@),
            first_error(ds@, data_source_check()) == first_error(
                ds@.skip(i as int),
                data_source_check(),
            ),
            items_v(out@) == data_source_items(ds@.take(i as int), ex, ow),
        decreases n - i,
    {
        let d = &ds[i];
        match validate_data_source(d) {
            Err(e) => {
                proof {
                    lemma_first_error_hit(ds@, data_source_check(), i as int);
                }
                return Err(e);
            },
            Ok(()) => {
                proof {
                    lemma_first_error_skip(ds@, data_source_check(), i as int);
                }
            },
        }
        let exists = contains_string(existing, &d.api_name);
        let listed = contains_string(overwrite, &d.api_name);
        let it = if !exists {
            make_item(&d.api_name, "create", String::new())
        } else if listed {
            make_item(&d.api_name, "overwrite", String::new())
        } else {
            make_item(&d.api_name, "skip", "同名已存在".to_owned())
        };
        push_item(&mut out, it);
        assert(data_source_items(ds@.take(i + 1), ex, ow) =~= data_source_items(
            ds@.take(i as int),
            ex,
            ow,
        ).push(item_v(it)));
        i = i + 1;
    }
    proof {
        lemma_first_error_end(ds@, data_source_check());
        lemma_take_all(ds@);
    }
    Ok(out)
}

fn payload_declares_ot(ots: &Vec<ObjectTypeDef>, name: &String) -> (r: bool)
    ensures
        r == ot_names(ots@).contains(name@),
{
    let n = ots.len();
    let mut i: usize = 0;
    while i < n
        invariant
            n == ots@.len(),
            i <= n,
            forall|k: int| 0 <= k < i ==> ots@[k].api_name@ != name@,
        decreases n - i,
    {
        if ots[i].api_name == *name {
            assert(ot_names(ots@)[i as int] == name@);
            return true;
        }
        i = i + 1;
    }
    assert(!ot_names(ots@).contains(name@)) by {
        if ot_names(ots@).contains(name@) {
            let k = choose|k: int| 0 <= k < ot_names(ots@).len() && ot_names(ots@)[k] == name@;
            assert(ots@[k].api_name@ == name@);
        }
    }
    false
}

fn is_known_ot(ots: &Vec<ObjectTypeDef>, existing: &Vec<String>, name: &String) -> (r: bool)
    ensures
        r == known_ot(ot_names(ots@), strs(existing@), name@),
{
    payload_declares_ot(ots, name) || contains_string(existing, name)
}

fn dangling_link_errors(ots: &Vec<ObjectTypeDef>, existing: &Vec<String>) -> (r: Vec<String>)
    ensures
        strs(r@) == flat_map(ots@, ot_dangling_links(ot_names(ots@), strs(existing@))),
{
    let ghost names = ot_names(ots@);
    let ghost ex = strs(existing@);
    let mut out: Vec<String> = Vec::new();
    let n = ots.len();
    let mut i: usize = 0;
    while i < n
        invariant
            n == ots@.len(),
            i <= n,
            names == ot_names(ots@),
            ex == strs(existing@),
            strs(out@) == flat_map(ots@.take(i as int), ot_dangling_links(names, ex)),
        decreases n - i,
    {
        let ot = &ots[i];
        let ghost before = strs(out@);
        let ghost g = dangling_link(ot.api_name@, names, ex);
        let m = ot.links.len();
        let mut j: usize = 0;
        while j < m
            invariant
                n == ots@.len(),
                i < n,
                *ot == ots@[i as int],
                m == ot.links@.len(),
                j <= m,
                names == ot_names(ots@),
                ex == strs(existing@),
                g == dangling_link(ot.api_name@, names, ex),
                strs(out@) == before + filter_map(ot.links@.take(j as int), g),
            decreases m - j,
        {
            let l = &ot.links[j];
            proof {
                lemma_filter_map_step(ot.links@, g, j as int);
            }
            if !is_known_ot(ots, existing, &l.target_object_type_api_name) {
                let mut msg = concat3("LinkType '", ot.api_name.as_str(), ".");
                msg.append(l.api_name.as_str());
                msg.append("' 的 target_object_type_api_name '");
                msg.append(l.target_object_type_api_name.as_str());
                msg.append("' 在本体内不存在");
                proof {
                    assert(msg@ == msg_dangling_link(
                        ot.api_name@,
                        l.api_name@,
                        l.target_object_type_api_name@,
                    ));
                }
                push_text(&mut out, msg);
                assert(before + filter_map(ot.links@.take(j + 1), g) =~= (before + filter_map(
                    ot.links@.take(j as int),
                    g,
                )).push(msg@));
            }
            j = j + 1;
        }
        proof {
            assert(ot.links@.take(m as int) =~= ot.links@);
            lemma_flat_map_step(ots@, ot_dangling_links(names, ex), i as int);
        }
        i = i + 1;
    }
    proof {
        lemma_take_all(ots@);
    }
    out
}

fn dangling_action_errors(acts: &Vec<ActionTypeDef>, ots: &Vec<ObjectTypeDef>, existing: &Vec<String>) -> (r: Vec<String>)
    ensures
        strs(r@) == filter_map(acts@, dangling_action(ot_names(ots@), strs(existing@))),
{
    let ghost f = dangling_action(ot_names(ots@), strs(existing@));
    let mut out: Vec<String> = Vec::new();
    let n = acts.len();
    let mut i: usize = 0;
    while i < n
        invariant
            n == acts@.len(),
            i <= n,
            f == dangling_action(ot_names(ots@), strs(existing@)),
            strs(out@) == filter_map(acts@.take(i as int), f),
        decreases n - i,
    {
        let a = &acts[i];
        proof {
            lemma_filter_map_step(acts@, f, i as int);
        }
        if !is_known_ot(ots, existing, &a.affected_object_type_api_name) {
            let mut msg = concat3("ActionType '", a.api_name.as_str(), "' 的 affected_object_type_api_name '");
            msg.append(a.affected_object_type_api_name.as_str());
            msg.append("' 在本体内不存在");
            push_text(&mut out, msg);
        }
        i = i + 1;
    }
    proof {
        lemma_take_all(acts@);
    }
    out
}

fn count_primary_keys(ps: &Vec<PropertyDef>) -> (r: usize)
    ensures
        r == pk_count(ps@),
{
    let n = ps.len();
    let mut c: usize = 0;
    let mut i: usize = 0;
    while i < n
        invariant
            n == ps@.len(),
            i <= n,
            c == pk_count(ps@.take(i as int)),
            c <= i,
        decreases n - i,
    {
        assert(ps@.take(i + 1).drop_last() =~= ps@.take(i as int));
        let is_pk = match ps[i].is_primary_key {
            Some(b) => b,
            None => false,
        };
        if is_pk {
            c = c + 1;
        }
        i = i + 1;
    }
    proof {
        lemma_take_all(ps@);
    }
    c
}

fn primary_key_errors(ots: &Vec<ObjectTypeDef>) -> (r: Vec<String>)
    ensures
        strs(r@) == filter_map(ots@, primary_key_problem()),
{
    let mut out: Vec<String> = Vec::new();
    let n = ots.len();
    let mut i: usize = 0;
    while i < n
        invariant
            n == ots@.len(),
            i <= n,
            strs(out@) == filter_map(ots@.take(i as int), primary_key_problem()),
        decreases n - i,
    {
        let ot = &ots[i];
        proof {
            lemma_filter_map_step(ots@, primary_key_problem(), i as int);
        }
        let c = count_primary_keys(&ot.properties);
        if c != 1 {
            let mut msg = concat3(
                "ObjectType '",
                ot.api_name.as_str(),
                "' 必须有且仅一个 is_primary_key=true 的属性（当前 ",
            );
            let digits = decimal_string(c as u128);
            msg.append(digits.as_str());
            msg.append(" 个）");
            push_text(&mut out, msg);
        }
        i = i + 1;
    }
    proof {
        lemma_take_all(ots@);
    }
    out
}

fn password_warnings(ds: &Vec<DataSourceDef>) -> (r: Vec<String>)
    ensures
        strs(r@) == filter_map(ds@, password_warning()),
{
    let mut out: Vec<String> = Vec::new();
    let n = ds.len();
    let mut i: usize = 0;
    while i < n
        invariant
            n == ds@.len(),
            i <= n,
            strs(out@) == filter_map(ds@.take(i as int), password_warning()),
        decreases n - i,
    {
        let d = &ds[i];
        proof {
            lemma_filter_map_step(ds@, password_warning(), i as int);
            reveal_strlit("password");
        }
        let pw = json_member_str(&d.connector_config, "password");
        if pw.is_some() {
            let msg = concat3(
                "DataSource '",
                d.api_name.as_str(),
                "' 的 connector_config 含明文 password，建议改用 credential",
            );
            push_text(&mut out, msg);
        }
        i = i + 1;
    }
    proof {
        lemma_take_all(ds@);
    }
    out
}

fn backing_warnings(ots: &Vec<ObjectTypeDef>) -> (r: Vec<String>)
    ensures
        strs(r@) == flat_map(ots@, ot_backing_warnings()),
{
    let mut out: Vec<String> = Vec::new();
    let n = ots.len();
    let mut i: usize = 0;
    while i < n
        invariant
            n == ots@.len(),
            i <= n,
            strs(out@) == flat_map(ots@.take(i as int), ot_backing_warnings()),
        decreases n - i,
    {
        let ot = &ots[i];
        let ghost before = strs(out@);
        let is_virtual = crate::text::str_eq(ot.storage_type.as_str(), "VIRTUAL");
        let ghost g = missing_backing(ot.api_name@, is_virtual);
        proof {
            reveal_strlit("VIRTUAL");
        }
        let m = ot.properties.len();
        let mut j: usize = 0;
        while j < m
            invariant
                n == ots@.len(),
                i < n,
                *ot == ots@[i as int],
                m == ot.properties@.len(),
                j <= m,
                g == missing_backing(ot.api_name@, is_virtual),
                strs(out@) == before + filter_map(ot.properties@.take(j as int), g),
            decreases m - j,
        {
            let p = &ot.properties[j];
            proof {
                lemma_filter_map_step(ot.properties@, g, j as int);
            }
            if p.backing_mapping.is_none() && is_virtual {
                let mut msg = concat3("VIRTUAL ObjectType '", ot.api_name.as_str(), "' 的属性 '");
                msg.append(p.api_name.as_str());
                msg.append("' 缺 backing_mapping（虚拟类型通常需声明物理列映射）");
                push_text(&mut out, msg);
                assert(before + filter_map(ot.properties@.take(j + 1), g) =~= (before + filter_map(
                    ot.properties@.take(j as int),
                    g,
                )).push(msg@));
            }
            j = j + 1;
        }
        proof {
            assert(ot.properties@.take(m as int) =~= ot.properties@);
            lemma_flat_map_step(ots@, ot_backing_warnings(), i as int);
            assert(ot_backing_warnings()(ots@[i as int]) == filter_map(ot.properties@, g));
        }
        i = i + 1;
    }
    proof {
        lemma_take_all(ots@);
    }
    out
}

/// The dry run of an import: validates every entity of the payload in the
/// order object types, links, action types, datasets, data sources, groups,
/// and fails with the first error; otherwise predicts what the import would
/// do with each entity given what the store holds, and lists the reference
/// errors and the warnings. Nothing is written.
pub fn plan_preview(req: &ImportRequest, existing: &ExistingEntities) -> (r: Result<ImportPreview, StoreError>)
    ensures
        match r {
            Ok(p) => preview_error(*req) is None && preview_matches(*req, *existing, p),
            Err(e) => preview_error(*req) == Some(e@),
        },
{
    let payload = &req.payload;
    let object_types = match preview_object_types(
        &payload.object_types,
        &existing.object_types,
        &req.overwrite_object_types,
    ) {
        Ok(v) => v,
        Err(e) => {
            return Err(e);
        },
    };
    let links = match preview_links(&payload.object_types) {
        Ok(v) => v,
        Err(e) => {
            return Err(e);
        },
    };
    let actions = match preview_actions(&payload.action_types) {
        Ok(v) => v,
        Err(e) => {
            return Err(e);
        },
    };
    let datasets = match preview_datasets(&payload.datasets, &existing.datasets) {
        Ok(v) => v,
        Err(e) => {
            return Err(e);
        },
    };
    let data_sources = match preview_data_sources(
        &payload.data_sources,
        &existing.data_sources,
        &req.overwrite_data_sources,
    ) {
        Ok(v) => v,
        Err(e) => {
            return Err(e);
        },
    };
    let object_type_groups = match preview_groups(
        &payload.object_type_groups,
        &existing.object_type_groups,
    ) {
        Ok(v) => v,
        Err(e) => {
            return Err(e);
        },
    };
    let mut errors = dangling_link_errors(&payload.object_types, &existing.object_types);
    let mut action_errors = dangling_action_errors(
        &payload.action_types,
        &payload.object_types,
        &existing.object_types,
    );
    let mut pk_errors = primary_key_errors(&payload.object_types);
    let ghost e0 = errors@;
    let ghost e1 = action_errors@;
    errors.append(&mut action_errors);
    let ghost e01 = errors@;
    let ghost e2 = pk_errors@;
    errors.append(&mut pk_errors);
    assert(strs(errors@) =~= strs(e0) + strs(e1) + strs(e2)) by {
        assert(e01 == e0 + e1);
        assert(errors@ == e01 + e2);
    }
    let mut warnings = password_warnings(&payload.data_sources);
    let mut backing = backing_warnings(&payload.object_types);
    let ghost w0 = warnings@;
    let ghost w1 = backing@;
    warnings.append(&mut backing);
    assert(strs(warnings@) =~= strs(w0) + strs(w1));
    let ontology_status = if existing.ontology_exists {
        "skip".to_owned()
    } else {
        "create".to_owned()
    };
    Ok(
        ImportPreview {
            ontology_api_name: payload.api_name.clone(),
            ontology_status,
            object_types,
            links,
            actions,
            datasets,
            data_sources,
            object_type_groups,
            warnings,
            errors,
        },
    )
}

} // verus!
