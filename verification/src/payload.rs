//! Payload model of ontology export / import (the JSON shape that an agent
//! produces and consumes) and the read-only summary views.
//!
//! JSON-valued fields hold a `serde_json::Value` that the library carries
//! through without reading, except for the string members of a data source's
//! `connector_config` (see [`json_member_str`]).

use vstd::prelude::*;

verus! {

#[verifier::external_type_specification]
#[verifier::external_body]
pub struct ExJsonValue(serde_json::Value);

/// `Clone` of `serde_json::Value`: a deep copy. Claimed: the copy has the same
/// string members.
pub assume_specification[ <serde_json::Value as Clone>::clone ](v: &serde_json::Value) -> (r: serde_json::Value)
    ensures
        json_string_members(r) == json_string_members(*v),
;

/// The string-valued members of a JSON value: for an object, each member
/// whose value is a JSON string, by member name; empty for any other value.
pub uninterp spec fn json_string_members(v: serde_json::Value) -> Map<Seq<char>, Seq<char>>;

/// `serde_json::Value::get(key)` followed by `Value::as_str`: the member `key`
/// of an object when it is a string. Claimed: `Some` exactly for the named
/// string members, with that member's text.
#[verifier::external_body]
pub(crate) fn json_member_str(v: &serde_json::Value, key: &str) -> (r: Option<String>)
    ensures
        r is Some <==> json_string_members(*v).dom().contains(key@),
        r matches Some(s) ==> json_string_members(*v)[key@] == s@,
{
    v.get(key).and_then(|m| m.as_str()).map(|s| s.to_owned())
}

/// Light list entry of an ontology.
#[derive(Debug, Clone)]
pub struct OntologySummary {
    pub api_name: String,
    pub display_name: String,
    pub description: String,
}

/// The design charter of an ontology (what does not change over its history).
#[derive(Debug, Clone)]
pub struct OntologyCharter {
    pub business_scenario: String,
    pub business_essence: String,
    pub design_intent: String,
    pub invariants: String,
    /// "agent" | "user"
    pub updated_by: String,
    /// unix ms
    pub updated_at: i64,
}

impl Default for OntologyCharter {
    /// The charter of an ontology that has none yet: every text empty.
    fn default() -> (r: OntologyCharter)
        ensures
            r.business_scenario@.len() == 0,
            r.business_essence@.len() == 0,
            r.design_intent@.len() == 0,
            r.invariants@.len() == 0,
            r.updated_by@.len() == 0,
            r.updated_at == 0,
    {
        OntologyCharter {
            business_scenario: String::new(),
            business_essence: String::new(),
            design_intent: String::new(),
            invariants: String::new(),
            updated_by: String::new(),
            updated_at: 0,
        }
    }
}

/// Summary of an ontology: its object types as a catalogue, link and action counts.
#[derive(Debug, Clone)]
pub struct OntologySummaryFull {
    pub api_name: String,
    pub display_name: String,
    pub description: String,
    pub charter: OntologyCharter,
    pub object_types: Vec<ObjectTypeSummary>,
    pub link_type_count: usize,
    pub action_type_count: usize,
}

/// Catalogue entry of an object type.
#[derive(Debug, Clone)]
pub struct ObjectTypeSummary {
    pub api_name: String,
    pub display_name: String,
    pub description: String,
    pub primary_key: String,
    pub storage_type: String,
    /// Number of properties (primary key included).
    pub property_count: usize,
}

/// Lightest list entry of an object type.
#[derive(Debug, Clone)]
pub struct ObjectTypeBrief {
    pub api_name: String,
    pub display_name: String,
    pub description: String,
    pub storage_type: String,
}

/// Full read-view of one object type.
#[derive(Debug, Clone)]
pub struct ObjectTypeFullMetadata {
    pub api_name: String,
    pub display_name: String,
    pub description: String,
    pub primary_key: String,
    pub title_property: String,
    pub storage_type: String,
    pub visibility: String,
    pub status: String,
    pub backing_dataset_api_name: Option<String>,
    pub properties: Vec<PropertyReadView>,
    pub outbound_links: Vec<String>,
    pub inbound_links: Vec<String>,
    pub actions: Vec<String>,
}

/// List entry of a link type.
#[derive(Debug, Clone)]
pub struct LinkTypeBrief {
    pub api_name: String,
    pub source_object_type: String,
    pub target_object_type: String,
    pub cardinality: String,
    pub foreign_key_property_api_name: Option<String>,
}

/// Full read-view of one link type.
#[derive(Debug, Clone)]
pub struct LinkTypeFull {
    pub api_name: String,
    pub display_name: String,
    pub description: String,
    pub source_object_type: String,
    pub target_object_type: String,
    pub foreign_key_property_api_name: Option<String>,
    pub cardinality: String,
    pub directional: bool,
    pub has_properties: bool,
}

/// Export product / import request payload.
#[derive(Debug, Clone)]
pub struct OntologyPayload {
    pub api_name: String,
    pub display_name: String,
    pub description: String,
    pub object_types: Vec<ObjectTypeDef>,
    pub action_types: Vec<ActionTypeDef>,
    pub datasets: Vec<DatasetDef>,
    pub data_sources: Vec<DataSourceDef>,
    pub object_type_groups: Vec<ObjectTypeGroupDef>,
}

/// Object type definition (properties and outgoing links inside).
#[derive(Debug, Clone)]
pub struct ObjectTypeDef {
    pub api_name: String,
    pub display_name: String,
    pub description: String,
    pub primary_key: String,
    pub title_property: String,
    pub storage_type: String,
    pub visibility: String,
    pub capabilities: Capabilities,
    pub properties: Vec<PropertyDef>,
    pub links: Vec<LinkDef>,
    pub confidence: Option<String>,
}

/// The visibility of an object type that does not state one.
pub fn default_visibility() -> (r: String)
    ensures
        r@ == "NORMAL"@,
{
    "NORMAL".to_owned()
}

/// The lifecycle status of an object type that does not state one.
pub fn default_active_status() -> (r: String)
    ensures
        r@ == "ACTIVE"@,
{
    "ACTIVE".to_owned()
}

/// Indexing capabilities of an object type.
#[derive(Debug, Clone)]
pub struct Capabilities {
    pub graph_indexing_enabled: bool,
    pub geotime_indexing_enabled: bool,
}

impl Default for Capabilities {
    /// No indexing.
    fn default() -> (r: Capabilities)
        ensures
            !r.graph_indexing_enabled,
            !r.geotime_indexing_enabled,
    {
        Capabilities { graph_indexing_enabled: false, geotime_indexing_enabled: false }
    }
}

/// Property definition.
#[derive(Debug, Clone)]
pub struct PropertyDef {
    pub api_name: String,
    pub display_name: String,
    pub description: String,
    pub data_type: String,
    pub searchable: bool,
    pub is_primary_key: Option<bool>,
    pub is_title_property: Option<bool>,
    pub backing_mapping: Option<BackingMapping>,
    pub vector_config: Option<serde_json::Value>,
    pub confidence: Option<String>,
}

/// Read-only view of a property.
#[derive(Debug, Clone)]
pub struct PropertyReadView {
    pub api_name: String,
    pub display_name: String,
    pub data_type: String,
    pub is_primary_key: bool,
    pub nullable: bool,
    pub filterable: bool,
    pub sortable: bool,
}

/// What `str::to_uppercase` gives for a text (Unicode upper-case mapping).
pub uninterp spec fn unicode_uppercase(s: Seq<char>) -> Seq<char>;

pub open spec fn ascii_upper_char(c: char) -> char {
    if 'a' <= c && c <= 'z' {
        ((c as int) - 32) as char
    } else {
        c
    }
}

pub open spec fn is_ascii_text(s: Seq<char>) -> bool {
    forall|i: int| 0 <= i < s.len() ==> (#[trigger] s[i] as int) < 128
}

/// std `str::to_uppercase`. Claimed: the named Unicode upper-case mapping; on
/// an ASCII text it maps `a`..`z` to `A`..`Z` and keeps every other character.
#[verifier::external_body]
pub(crate) fn str_to_uppercase(s: &str) -> (r: String)
    ensures
        r@ == unicode_uppercase(s@),
        is_ascii_text(s@) ==> r@ == s@.map_values(|c: char| ascii_upper_char(c)),
{
    s.to_uppercase()
}

/// The data types whose values cannot be sorted.
pub open spec fn unsortable_types() -> Seq<Seq<char>> {
    seq!["ARRAY"@, "STRUCT"@, "VECTOR"@, "GEOPOINT"@, "GEOSHAPE"@, "MEDIA_REFERENCE"@, "ATTACHMENT"@]
}

fn is_unsortable(upper: &str) -> (r: bool)
    ensures
        r == unsortable_types().contains(upper@),
{
    let list = ["ARRAY", "STRUCT", "VECTOR", "GEOPOINT", "GEOSHAPE", "MEDIA_REFERENCE", "ATTACHMENT"];
    let ghost want = unsortable_types();
    let mut i: usize = 0;
    while i < 7
        invariant
            i <= 7,
            want == unsortable_types(),
            forall|k: int| 0 <= k < 7 ==> (#[trigger] list@[k])@ == want[k],
            forall|k: int| 0 <= k < i ==> want[k] != upper@,
        decreases 7 - i,
    {
        if crate::text::str_eq(list[i], upper) {
            assert(want[i as int] == upper@);
            return true;
        }
        i = i + 1;
    }
    assert(!want.contains(upper@)) by {
        if want.contains(upper@) {
            let k = choose|k: int| 0 <= k < want.len() && want[k] == upper@;
        }
    }
    false
}

impl PropertyDef {
    /// The read-only view of this property: primary key flag (absent means
    /// false), always nullable, filterable when searchable or primary key,
    /// sortable unless its upper-cased data type is a complex type.
    pub fn to_read_view(&self) -> (r: PropertyReadView)
        ensures
            r.api_name == self.api_name,
            r.display_name == self.display_name,
            r.data_type == self.data_type,
            r.is_primary_key == (self.is_primary_key == Some(true)),
            r.nullable,
            r.filterable == (self.searchable || self.is_primary_key == Some(true)),
            r.sortable == !unsortable_types().contains(unicode_uppercase(self.data_type@)),
    {
        let is_pk = match self.is_primary_key {
            Some(b) => b,
            None => false,
        };
        let upper = str_to_uppercase(self.data_type.as_str());
        PropertyReadView {
            api_name: self.api_name.clone(),
            display_name: self.display_name.clone(),
            data_type: self.data_type.clone(),
            is_primary_key: is_pk,
            nullable: true,
            filterable: self.searchable || is_pk,
            sortable: !is_unsortable(upper.as_str()),
        }
    }
}

/// `searchable` of a property that does not state it.
pub fn default_true() -> (r: bool)
    ensures
        r,
{
    true
}

/// Physical column that backs a property.
#[derive(Debug, Clone)]
pub struct BackingMapping {
    pub dataset_api_name: String,
    pub backing_catalog: String,
    pub backing_schema: String,
    pub backing_table: String,
    pub backing_column: String,
}

impl Default for BackingMapping {
    /// A mapping with every name empty.
    fn default() -> (r: BackingMapping)
        ensures
            r.dataset_api_name@.len() == 0,
            r.backing_catalog@.len() == 0,
            r.backing_schema@.len() == 0,
            r.backing_table@.len() == 0,
            r.backing_column@.len() == 0,
    {
        BackingMapping {
            dataset_api_name: String::new(),
            backing_catalog: String::new(),
            backing_schema: String::new(),
            backing_table: String::new(),
            backing_column: String::new(),
        }
    }
}

/// Link type definition (declared on its source object type).
#[derive(Debug, Clone)]
pub struct LinkDef {
    pub api_name: String,
    pub display_name: String,
    pub description: String,
    pub target_object_type_api_name: String,
    pub foreign_key_property_api_name: Option<String>,
    pub cardinality: String,
    pub weight_property: Option<String>,
    pub temporal: bool,
    pub confidence: Option<String>,
}

/// Action type definition.
#[derive(Debug, Clone)]
pub struct ActionTypeDef {
    pub api_name: String,
    pub display_name: String,
    pub description: String,
    pub affected_object_type_api_name: String,
    pub parameters: Vec<serde_json::Value>,
    pub rules: Vec<serde_json::Value>,
    pub submission_criteria: Vec<serde_json::Value>,
    pub effects: Vec<serde_json::Value>,
    pub ontology_rules: Vec<serde_json::Value>,
    pub risk_level: String,
    pub operation_kind: String,
    pub batch_enabled: bool,
    pub confidence: Option<String>,
}

/// Risk level of an action that does not state one.
pub fn default_risk() -> (r: String)
    ensures
        r@ == "low"@,
{
    "low".to_owned()
}

/// Operation kind of an action that does not state one.
pub fn default_operation_kind() -> (r: String)
    ensures
        r@ == "mixed"@,
{
    "mixed".to_owned()
}

/// Dataset definition.
#[derive(Debug, Clone)]
pub struct DatasetDef {
    pub api_name: String,
    pub display_name: String,
    pub storage_location: String,
    pub partition_config: Option<serde_json::Value>,
    pub source_dataset_api_name: Option<String>,
    pub data_source_api_name: Option<String>,
    pub kind: String,
    pub is_view: bool,
    pub confidence: Option<String>,
}

/// Kind of a dataset that does not state one.
pub fn default_kind() -> (r: String)
    ensures
        r@ == "MANAGED"@,
{
    "MANAGED".to_owned()
}

/// Data source definition.
#[derive(Debug, Clone)]
pub struct DataSourceDef {
    pub api_name: String,
    pub display_name: String,
    pub description: String,
    pub connector_type: String,
    pub connector_config: serde_json::Value,
    pub credential_id: Option<String>,
    pub confidence: Option<String>,
}

/// Object type group definition.
#[derive(Debug, Clone)]
pub struct ObjectTypeGroupDef {
    pub api_name: String,
    pub display_name: String,
    pub description: String,
    pub members: Vec<String>,
    pub confidence: Option<String>,
}

/// Import request: the payload and the names the user chose to overwrite.
#[derive(Debug, Clone)]
pub struct ImportRequest {
    pub payload: OntologyPayload,
    pub overwrite_object_types: Vec<String>,
    pub overwrite_data_sources: Vec<String>,
}

/// Outcome of importing one entity.
#[derive(Debug, Clone)]
pub struct ImportItemResult {
    pub api_name: String,
    /// created | skipped | overwritten | failed
    pub status: String,
    pub error: Option<String>,
}

/// Outcome of an import.
#[derive(Debug, Clone)]
pub struct ImportResult {
    pub ontology_api_name: String,
    /// created | existed
    pub ontology_status: String,
    pub object_types: Vec<ImportItemResult>,
    pub links_created: i32,
    pub links_skipped: i32,
    pub action_types: Vec<ImportItemResult>,
    pub datasets: Vec<ImportItemResult>,
    pub data_sources: Vec<ImportItemResult>,
    pub object_type_groups: Vec<ImportItemResult>,
    pub errors: Vec<String>,
}

/// Predicted outcome for one entity.
#[derive(Debug, Clone)]
pub struct ImportPreviewItem {
    pub api_name: String,
    /// create | skip | overwrite | fail
    pub status: String,
    pub reason: String,
}

/// Predicted outcome of an import (a dry run).
#[derive(Debug, Clone)]
pub struct ImportPreview {
    pub ontology_api_name: String,
    /// create | skip
    pub ontology_status: String,
    pub object_types: Vec<ImportPreviewItem>,
    pub links: Vec<ImportPreviewItem>,
    pub actions: Vec<ImportPreviewItem>,
    pub datasets: Vec<ImportPreviewItem>,
    pub data_sources: Vec<ImportPreviewItem>,
    pub object_type_groups: Vec<ImportPreviewItem>,
    pub warnings: Vec<String>,
    pub errors: Vec<String>,
}

/// One entry of an ontology's change log.
#[derive(Debug, Clone)]
pub struct OntologyChangelog {
    pub revision: u32,
    pub title: String,
    pub body: String,
    pub change_summary: String,
    pub conversation_id: Option<String>,
    pub author: String,
    pub created_at: i64,
}

} // verus!
