//! Importing a Turtle ontology: what to store for a text, what is answered
//! when nothing can be stored, and the records that the store keeps beside
//! each ontology (summary, charter, change log).

use vstd::prelude::*;
use crate::text::concat2;
use crate::ttl::{
    declares_named_ontology, graph_view, graph_shape, is_blank_display, lemma_meta_iri_declared,
    lemma_named_declaration_found, lemma_sole_ontology, sole_named_ontology,
    ontology_meta, opt_chars, parse_ttl_to_memory, spec_ontology_meta, strs,
    text_declares_named_ontology, turtle_graph_shape, turtle_loads, validate_base_iri, RdfTriple,
};

verus! {

/// Outcome of importing a Turtle text.
#[derive(Debug, Clone)]
pub struct TtlImportResult {
    /// the ontology IRI declared by the text (empty when none is declared)
    pub ontology_iri: String,
    pub triple_count: u64,
    pub errors: Vec<String>,
    pub warnings: Vec<String>,
}

/// List entry of a stored Turtle ontology.
#[derive(Debug, Clone)]
pub struct TtlOntologySummary {
    pub ontology_iri: String,
    /// `owl:versionInfo`, empty when none
    pub version: String,
    pub triple_count: u64,
    /// unix ms
    pub updated_at: i64,
}

/// The design charter of a Turtle ontology.
#[derive(Debug, Clone, PartialEq)]
pub struct TtlCharter {
    pub business_scenario: String,
    pub business_essence: String,
    pub design_intent: String,
    pub invariants: String,
    /// "agent" | "user"
    pub updated_by: String,
    /// unix ms
    pub updated_at: i64,
}

impl Default for TtlCharter {
    /// The charter of an ontology that has none yet: every text empty.
    fn default() -> (r: TtlCharter)
        ensures
            r.business_scenario@.len() == 0,
            r.business_essence@.len() == 0,
            r.design_intent@.len() == 0,
            r.invariants@.len() == 0,
            r.updated_by@.len() == 0,
            r.updated_at == 0,
    {
        TtlCharter {
            business_scenario: String::new(),
            business_essence: String::new(),
            design_intent: String::new(),
            invariants: String::new(),
            updated_by: String::new(),
            updated_at: 0,
        }
    }
}

/// One entry of a Turtle ontology's change log.
#[derive(Debug, Clone, PartialEq)]
pub struct TtlChangelog {
    pub revision: u32,
    pub title: String,
    pub body: String,
    /// JSON text: {"created":[...],"deleted":[...],"modified":[...]}
    pub change_summary: String,
    pub conversation_id: Option<String>,
    /// "agent" | "user"
    pub author: String,
    /// unix ms
    pub created_at: i64,
}

/// What an import does with a text.
pub enum TtlImportPlan {
    /// Nothing is stored; this is the answer.
    Answer(TtlImportResult),
    /// Store the text under this IRI.
    Store { ontology_iri: String, version: Option<String>, triple_count: u64, warnings: Vec<String> },
}

pub open spec fn msg_no_ontology() -> Seq<char> {
    "未找到 owl:Ontology 声明，无法确定本体 IRI"@
}

pub open spec fn msg_skipped_existing() -> Seq<char> {
    "本体已存在且 overwrite=false，已跳过"@
}

pub open spec fn msg_write_failed(e: Seq<char>) -> Seq<char> {
    "SQLite 写入失败: "@ + e
}

/// The plan for a text whose loading gave `parsed`: a text that cannot be
/// loaded, or that declares no ontology, is answered with one error and
/// nothing stored; otherwise the text is stored under the declared IRI, with
/// its version and its triple count.
pub open spec fn plan_matches(parsed: Result<Seq<RdfTriple>, Seq<char>>, r: TtlImportPlan) -> bool {
    let meta = match parsed {
        Ok(g) => spec_ontology_meta(graph_view(g)),
        Err(_) => (None, None),
    };
    match r {
        TtlImportPlan::Answer(res) => {
            &&& meta.0 is None
            &&& res.ontology_iri@.len() == 0
            &&& res.triple_count == 0
            &&& strs(res.errors@) == seq![msg_no_ontology()]
            &&& res.warnings@.len() == 0
        },
        TtlImportPlan::Store { ontology_iri, version, triple_count, warnings } => {
            &&& parsed is Ok
            &&& meta == (Some(ontology_iri@), opt_chars(version))
            &&& triple_count == parsed->Ok_0.len()
            &&& warnings@.len() == 0
        },
    }
}

pub open spec fn parsed_view(p: Result<Vec<RdfTriple>, String>) -> Result<Seq<RdfTriple>, Seq<char>> {
    match p {
        Ok(g) => Ok(g@),
        Err(e) => Err(e@),
    }
}

fn no_ontology_answer() -> (r: TtlImportResult)
    ensures
        r.ontology_iri@.len() == 0,
        r.triple_count == 0,
        strs(r.errors@) == seq![msg_no_ontology()],
        r.warnings@.len() == 0,
{
    let mut errors: Vec<String> = Vec::new();
    errors.push("未找到 owl:Ontology 声明，无法确定本体 IRI".to_owned());
    assert(strs(errors@) =~= seq![msg_no_ontology()]);
    TtlImportResult { ontology_iri: String::new(), triple_count: 0, errors, warnings: Vec::new() }
}

/// The plan for a text, given what loading it gave.
pub fn ttl_import_plan_of(parsed: Result<Vec<RdfTriple>, String>) -> (r: TtlImportPlan)
    ensures
        plan_matches(parsed_view(parsed), r),
{
    match parsed {
        Err(_) => TtlImportPlan::Answer(no_ontology_answer()),
        Ok(g) => {
            let (iri, version) = ontology_meta(&g);
            match iri {
                None => TtlImportPlan::Answer(no_ontology_answer()),
                Some(iri) => TtlImportPlan::Store {
                    ontology_iri: iri,
                    version,
                    triple_count: g.len() as u64,
                    warnings: Vec::new(),
                },
            }
        },
    }
}

/// The plan that answers "no ontology declared" and stores nothing.
pub open spec fn is_no_ontology_answer(r: TtlImportPlan) -> bool {
    r matches TtlImportPlan::Answer(res) && {
        &&& res.ontology_iri@.len() == 0
        &&& res.triple_count == 0
        &&& strs(res.errors@) == seq![msg_no_ontology()]
        &&& res.warnings@.len() == 0
    }
}

/// The plan for a Turtle text: loads it (with oxigraph) and plans from what
/// came back. A text that does not load is answered "no ontology"; a text
/// that loads is planned from its graph; a text that declares a named
/// ontology is stored, under that ontology's IRI when it declares no other;
/// what is stored is stored under an IRI that the text declares, or under the
/// label of a blank-node ontology.
pub fn plan_ttl_import(ttl_content: &str) -> (r: TtlImportPlan)
    ensures
        !turtle_loads(ttl_content@, validate_base_iri()) ==> is_no_ontology_answer(r),
        turtle_loads(ttl_content@, validate_base_iri()) ==> exists|g: Seq<RdfTriple>|
            turtle_graph_shape(ttl_content@, validate_base_iri()) == Some(
                graph_shape(graph_view(g)),
            ) && graph_view(g).no_duplicates() && plan_matches(Ok(g), r),
        text_declares_named_ontology(ttl_content@, validate_base_iri()) ==> r is Store,
        forall|i: Seq<char>|
            #![trigger sole_named_ontology(turtle_graph_shape(ttl_content@, validate_base_iri())->Some_0, i)]
            turtle_loads(ttl_content@, validate_base_iri()) && sole_named_ontology(
                turtle_graph_shape(ttl_content@, validate_base_iri())->Some_0,
                i,
            ) ==> (r matches TtlImportPlan::Store { ontology_iri, .. } && ontology_iri@ == i),
        r matches TtlImportPlan::Store { ontology_iri, .. } ==> turtle_graph_shape(
            ttl_content@,
            validate_base_iri(),
        ) matches Some(gs) && (declares_named_ontology(gs, ontology_iri@) || is_blank_display(
            ontology_iri@,
        )),
{
    let parsed = parse_ttl_to_memory(ttl_content);
    let ghost pv = parsed_view(parsed);
    let r = ttl_import_plan_of(parsed);
    assert(plan_matches(pv, r));
    proof {
        if text_declares_named_ontology(ttl_content@, validate_base_iri()) {
            let g = pv->Ok_0;
            let i = choose|i: Seq<char>| declares_named_ontology(graph_shape(graph_view(g)), i);
            lemma_named_declaration_found(graph_view(g), i);
        }
        if r is Store {
            lemma_meta_iri_declared(graph_view(pv->Ok_0));
        }
        if pv is Ok {
            let g = graph_view(pv->Ok_0);
            assert forall|i: Seq<char>| sole_named_ontology(graph_shape(g), i) implies (
            r matches TtlImportPlan::Store { ontology_iri, .. } && ontology_iri@ == i) by {
                lemma_sole_ontology(g, i);
            }
        }
    }
    r
}

/// Whether an import leaves a stored ontology as it is: it exists and
/// overwriting was not asked for.
pub fn ttl_import_skips(overwrite: bool, exists: bool) -> (r: bool)
    ensures
        r == (!overwrite && exists),
{
    !overwrite && exists
}

/// The answer of an import that found the ontology stored and left it.
pub fn skipped_ttl_import(ontology_iri: String, triple_count: u64, warnings: Vec<String>) -> (r: TtlImportResult)
    ensures
        r.ontology_iri@ == ontology_iri@,
        r.triple_count == triple_count,
        r.errors@.len() == 0,
        strs(r.warnings@) == strs(warnings@).push(msg_skipped_existing()),
{
    let mut w = warnings;
    let ghost before = strs(w@);
    w.push("本体已存在且 overwrite=false，已跳过".to_owned());
    assert(strs(w@) =~= before.push(msg_skipped_existing()));
    TtlImportResult { ontology_iri, triple_count, errors: Vec::new(), warnings: w }
}

/// The answer of an import that stored the text, or tried to: the failure of
/// the write, if any, is its one error.
pub fn stored_ttl_import(
    ontology_iri: String,
    triple_count: u64,
    warnings: Vec<String>,
    write_error: Option<String>,
) -> (r: TtlImportResult)
    ensures
        r.ontology_iri@ == ontology_iri@,
        r.triple_count == triple_count,
        strs(r.warnings@) == strs(warnings@),
        strs(r.errors@) == (match write_error {
            Some(e) => seq![msg_write_failed(e@)],
            None => Seq::<Seq<char>>::empty(),
        }),
{
    let mut errors: Vec<String> = Vec::new();
    match write_error {
        Some(e) => {
            errors.push(concat2("SQLite 写入失败: ", e.as_str()));
            assert(strs(errors@) =~= seq![msg_write_failed(e@)]);
        },
        None => {
            assert(strs(errors@) =~= Seq::<Seq<char>>::empty());
        },
    }
    TtlImportResult { ontology_iri, triple_count, errors, warnings }
}

} // verus!
