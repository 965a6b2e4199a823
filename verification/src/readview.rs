//! The read-views that the ontology store answers drill-in questions with:
//! one object type with its properties, links and actions, one link type.

use vstd::prelude::*;
use crate::error::{StoreError, StoreErrorV};
use crate::payload::{
    BackingMapping, unicode_uppercase, unsortable_types, ActionTypeDef, LinkDef, LinkTypeFull,
    ObjectTypeFullMetadata, PropertyDef, PropertyReadView,
};
use crate::text::concat3;
use crate::ttl::strs;

verus! {

/// `v` is the read-view of the property `p`.
pub open spec fn read_view_of(v: PropertyReadView, p: PropertyDef) -> bool {
    &&& v.api_name == p.api_name
    &&& v.display_name == p.display_name
    &&& v.data_type == p.data_type
    &&& v.is_primary_key == (p.is_primary_key == Some(true))
    &&& v.nullable
    &&& v.filterable == (p.searchable || p.is_primary_key == Some(true))
    &&& v.sortable == !unsortable_types().contains(unicode_uppercase(p.data_type@))
}

/// The read-views of properties, in order.
pub fn property_views(props: &Vec<PropertyDef>) -> (r: Vec<PropertyReadView>)
    ensures
        r@.len() == props@.len(),
        forall|i: int| 0 <= i < props@.len() ==> read_view_of(#[trigger] r@[i], props@[i]),
{
    let n = props.len();
    let mut out: Vec<PropertyReadView> = Vec::new();
    let mut i: usize = 0;
    while i < n
        invariant
            n == props@.len(),
            i <= n,
            out@.len() == i,
            forall|k: int| 0 <= k < i ==> read_view_of(#[trigger] out@[k], props@[k]),
        decreases n - i,
    {
        out.push(props[i].to_read_view());
        i = i + 1;
    }
    out
}

/// The names of link types, in order.
pub open spec fn link_names_of(ls: Seq<LinkDef>) -> Seq<Seq<char>> {
    Seq::new(ls.len(), |i: int| ls[i].api_name@)
}

/// The names of action types, in order.
pub open spec fn action_names_of(acts: Seq<ActionTypeDef>) -> Seq<Seq<char>> {
    Seq::new(acts.len(), |i: int| acts[i].api_name@)
}

/// The names of link types, in order.
pub fn link_names(links: &Vec<LinkDef>) -> (r: Vec<String>)
    ensures
        strs(r@) == link_names_of(links@),
{
    let n = links.len();
    let mut out: Vec<String> = Vec::new();
    let mut i: usize = 0;
    while i < n
        invariant
            n == links@.len(),
            i <= n,
            out@.len() == i,
            forall|k: int| 0 <= k < i ==> (#[trigger] out@[k])@ == links@[k].api_name@,
        decreases n - i,
    {
        out.push(links[i].api_name.clone());
        i = i + 1;
    }
    assert(strs(out@) =~= link_names_of(links@));
    out
}

/// The names of action types, in order.
pub fn action_names(actions: &Vec<ActionTypeDef>) -> (r: Vec<String>)
    ensures
        strs(r@) == action_names_of(actions@),
{
    let n = actions.len();
    let mut out: Vec<String> = Vec::new();
    let mut i: usize = 0;
    while i < n
        invariant
            n == actions@.len(),
            i <= n,
            out@.len() == i,
            forall|k: int| 0 <= k < i ==> (#[trigger] out@[k])@ == actions@[k].api_name@,
        decreases n - i,
    {
        out.push(actions[i].api_name.clone());
        i = i + 1;
    }
    assert(strs(out@) =~= action_names_of(actions@));
    out
}

fn or_empty(s: Option<String>) -> (r: String)
    ensures
        r@ == (match s {
            Some(x) => x@,
            None => Seq::<char>::empty(),
        }),
{
    match s {
        Some(x) => x,
        None => String::new(),
    }
}

/// The backing of a stored property: present when its dataset or its column
/// is stored, the missing names then empty.
pub fn backing_mapping_of(
    dataset: Option<String>,
    catalog: Option<String>,
    schema: Option<String>,
    table: Option<String>,
    column: Option<String>,
) -> (r: Option<BackingMapping>)
    ensures
        (r is Some) == (dataset is Some || column is Some),
        r matches Some(b) ==> {
            &&& b.dataset_api_name@ == (match dataset {
                Some(x) => x@,
                None => Seq::<char>::empty(),
            })
            &&& b.backing_catalog@ == (match catalog {
                Some(x) => x@,
                None => Seq::<char>::empty(),
            })
            &&& b.backing_schema@ == (match schema {
                Some(x) => x@,
                None => Seq::<char>::empty(),
            })
            &&& b.backing_table@ == (match table {
                Some(x) => x@,
                None => Seq::<char>::empty(),
            })
            &&& b.backing_column@ == (match column {
                Some(x) => x@,
                None => Seq::<char>::empty(),
            })
        },
{
    if dataset.is_none() && column.is_none() {
        return None;
    }
    Some(
        BackingMapping {
            dataset_api_name: or_empty(dataset),
            backing_catalog: or_empty(catalog),
            backing_schema: or_empty(schema),
            backing_table: or_empty(table),
            backing_column: or_empty(column),
        },
    )
}

/// The stored columns of an object type that its read-view shows.
pub struct ObjectTypeRow {
    pub display_name: String,
    pub description: String,
    pub primary_key: String,
    pub title_property: String,
    pub storage_type: String,
    pub visibility: String,
    pub backing_dataset_api_name: Option<String>,
}

/// The full read-view of an object type: its stored columns, status ACTIVE,
/// the read-views of its properties, and only the names of its outbound and
/// inbound links and of the actions that apply to it.
pub fn object_type_metadata(
    api_name: &str,
    row: ObjectTypeRow,
    properties: &Vec<PropertyDef>,
    outbound: &Vec<LinkDef>,
    inbound: &Vec<LinkDef>,
    actions: &Vec<ActionTypeDef>,
) -> (r: ObjectTypeFullMetadata)
    ensures
        r.api_name@ == api_name@,
        r.display_name == row.display_name,
        r.description == row.description,
        r.primary_key == row.primary_key,
        r.title_property == row.title_property,
        r.storage_type == row.storage_type,
        r.visibility == row.visibility,
        r.status@ == "ACTIVE"@,
        r.backing_dataset_api_name == row.backing_dataset_api_name,
        r.properties@.len() == properties@.len(),
        forall|i: int|
            0 <= i < properties@.len() ==> read_view_of(#[trigger] r.properties@[i], properties@[i]),
        strs(r.outbound_links@) == link_names_of(outbound@),
        strs(r.inbound_links@) == link_names_of(inbound@),
        strs(r.actions@) == action_names_of(actions@),
{
    ObjectTypeFullMetadata {
        api_name: api_name.to_owned(),
        display_name: row.display_name,
        description: row.description,
        primary_key: row.primary_key,
        title_property: row.title_property,
        storage_type: row.storage_type,
        visibility: row.visibility,
        status: "ACTIVE".to_owned(),
        backing_dataset_api_name: row.backing_dataset_api_name,
        properties: property_views(properties),
        outbound_links: link_names(outbound),
        inbound_links: link_names(inbound),
        actions: action_names(actions),
    }
}

/// The full read-view of a stored link type: links are directional and
/// carry no properties of their own.
pub fn link_type_full(
    api_name: String,
    display_name: String,
    description: String,
    source_object_type: String,
    target_object_type: String,
    foreign_key_property_api_name: Option<String>,
    cardinality: String,
) -> (r: LinkTypeFull)
    ensures
        r.api_name == api_name,
        r.display_name == display_name,
        r.description == description,
        r.source_object_type == source_object_type,
        r.target_object_type == target_object_type,
        r.foreign_key_property_api_name == foreign_key_property_api_name,
        r.cardinality == cardinality,
        r.directional,
        !r.has_properties,
{
    LinkTypeFull {
        api_name,
        display_name,
        description,
        source_object_type,
        target_object_type,
        foreign_key_property_api_name,
        cardinality,
        directional: true,
        has_properties: false,
    }
}

/// The answer for an ontology that the store does not have.
pub fn ontology_not_found(api_name: &str) -> (r: StoreError)
    ensures
        r@ == StoreErrorV::NotFound("ontology '"@ + api_name@ + "'"@),
{
    StoreError::NotFound(concat3("ontology '", api_name, "'"))
}

/// The answer for an object type that the ontology does not have.
pub fn object_type_not_found(object_type: &str, ontology: &str) -> (r: StoreError)
    ensures
        r@ == StoreErrorV::NotFound(
            "object_type '"@ + object_type@ + "' in ontology '"@ + ontology@ + "'"@,
        ),
{
    let mut m = concat3("object_type '", object_type, "' in ontology '");
    m.append(ontology);
    m.append("'");
    StoreError::NotFound(m)
}

/// The answer for a link type that the ontology does not have.
pub fn link_type_not_found(link: &str, ontology: &str) -> (r: StoreError)
    ensures
        r@ == StoreErrorV::NotFound("link_type '"@ + link@ + "' in ontology '"@ + ontology@ + "'"@),
{
    let mut m = concat3("link_type '", link, "' in ontology '");
    m.append(ontology);
    m.append("'");
    StoreError::NotFound(m)
}

} // verus!
