//! W3C Turtle ontologies: the RDF graph of a Turtle text as plain values, and
//! the modelling rules that a graph must follow before it is imported:
//! classes are `owl:Class`, properties are not mixed, IRIs are PascalCase or
//! camelCase, Chinese labels carry `@zh`, SWRL rules use `swrl:Imp`,
//! `rdfs:subClassOf` has no cycle, and sub-classes / sub-properties are declared.
//!
//! Parsing is done by `oxigraph` (an in-memory store loaded from the text); the
//! rules themselves are verified functions over the listed triples.

use vstd::prelude::*;
use crate::text::{chars_of, string_of_range, string_push, concat3};
use oxigraph::io::{RdfFormat, RdfParser};

verus! {

// ════════════════════════════════════════════════════════════════
// RDF terms and triples as plain values
// ════════════════════════════════════════════════════════════════

/// An RDF term: an IRI, a blank node (by its label) or a literal.
/// `display` of a literal is its N-Triples form as oxigraph prints it.
pub enum RdfTerm {
    Iri(String),
    Blank(String),
    Literal { value: String, lang: Option<String>, display: String },
}

/// The mathematical value of an [`RdfTerm`].
pub enum TermV {
    Iri(Seq<char>),
    Blank(Seq<char>),
    Literal(Seq<char>, Option<Seq<char>>, Seq<char>),
}

pub open spec fn opt_str_view(o: Option<String>) -> Option<Seq<char>> {
    match o {
        Some(s) => Some(s@),
        None => None,
    }
}

impl View for RdfTerm {
    type V = TermV;

    open spec fn view(&self) -> TermV {
        match self {
            RdfTerm::Iri(s) => TermV::Iri(s@),
            RdfTerm::Blank(s) => TermV::Blank(s@),
            RdfTerm::Literal { value, lang, display } => TermV::Literal(
                value@,
                opt_str_view(*lang),
                display@,
            ),
        }
    }
}

/// One RDF triple; the predicate is an IRI.
pub struct RdfTriple {
    pub subject: RdfTerm,
    pub predicate: String,
    pub object: RdfTerm,
}

pub struct TripleV {
    pub s: TermV,
    pub p: Seq<char>,
    pub o: TermV,
}

impl View for RdfTriple {
    type V = TripleV;

    open spec fn view(&self) -> TripleV {
        TripleV { s: self.subject@, p: self.predicate@, o: self.object@ }
    }
}

/// The graph of a triple list, as values.
pub open spec fn graph_view(g: Seq<RdfTriple>) -> Seq<TripleV> {
    g.map_values(|t: RdfTriple| t@)
}

/// How a term is printed: `<iri>`, `_:label`, or the literal's N-Triples form.
pub open spec fn term_display(t: TermV) -> Seq<char> {
    match t {
        TermV::Iri(i) => seq!['<'] + i + seq!['>'],
        TermV::Blank(b) => seq!['_', ':'] + b,
        TermV::Literal(_, _, d) => d,
    }
}

pub open spec fn is_iri(t: TermV) -> bool {
    t is Iri
}

/// The printed form of a term.
pub fn display_term(t: &RdfTerm) -> (r: String)
    ensures
        r@ == term_display(t@),
{
    match t {
        RdfTerm::Iri(i) => {
            let mut s = String::new();
            string_push(&mut s, '<');
            s.append(i.as_str());
            string_push(&mut s, '>');
            assert(s@ =~= seq!['<'] + i@ + seq!['>']);
            s
        },
        RdfTerm::Blank(b) => {
            let mut s = String::new();
            string_push(&mut s, '_');
            string_push(&mut s, ':');
            s.append(b.as_str());
            assert(s@ =~= seq!['_', ':'] + b@);
            s
        },
        RdfTerm::Literal { display, .. } => display.clone(),
    }
}

fn opt_string_eq(a: &Option<String>, b: &Option<String>) -> (r: bool)
    ensures
        r == (opt_str_view(*a) == opt_str_view(*b)),
{
    match (a, b) {
        (Some(x), Some(y)) => *x == *y,
        (None, None) => true,
        _ => false,
    }
}

/// Whether two terms are the same term.
pub fn term_eq(a: &RdfTerm, b: &RdfTerm) -> (r: bool)
    ensures
        r == (a@ == b@),
{
    match (a, b) {
        (RdfTerm::Iri(x), RdfTerm::Iri(y)) => *x == *y,
        (RdfTerm::Blank(x), RdfTerm::Blank(y)) => *x == *y,
        (
            RdfTerm::Literal { value: v1, lang: l1, display: d1 },
            RdfTerm::Literal { value: v2, lang: l2, display: d2 },
        ) => {
            *v1 == *v2 && opt_string_eq(l1, l2) && *d1 == *d2
        },
        _ => false,
    }
}

/// Whether a term is an IRI.
pub fn term_is_named(t: &RdfTerm) -> (r: bool)
    ensures
        r == is_iri(t@),
{
    match t {
        RdfTerm::Iri(_) => true,
        _ => false,
    }
}

/// Whether a term is the IRI `iri`.
pub fn term_is_iri(t: &RdfTerm, iri: &String) -> (r: bool)
    ensures
        r == (t@ == TermV::Iri(iri@)),
{
    match t {
        RdfTerm::Iri(x) => *x == *iri,
        _ => false,
    }
}

// ════════════════════════════════════════════════════════════════
// Vocabulary
// ════════════════════════════════════════════════════════════════

pub open spec fn rdf_type() -> Seq<char> {
    "http://www.w3.org/1999/02/22-rdf-syntax-ns#type"@
}

pub open spec fn rdf_property() -> Seq<char> {
    "http://www.w3.org/1999/02/22-rdf-syntax-ns#Property"@
}

pub open spec fn rdfs_class() -> Seq<char> {
    "http://www.w3.org/2000/01/rdf-schema#Class"@
}

pub open spec fn rdfs_label() -> Seq<char> {
    "http://www.w3.org/2000/01/rdf-schema#label"@
}

pub open spec fn rdfs_comment() -> Seq<char> {
    "http://www.w3.org/2000/01/rdf-schema#comment"@
}

pub open spec fn rdfs_sub_class_of() -> Seq<char> {
    "http://www.w3.org/2000/01/rdf-schema#subClassOf"@
}

pub open spec fn rdfs_sub_property_of() -> Seq<char> {
    "http://www.w3.org/2000/01/rdf-schema#subPropertyOf"@
}

pub open spec fn owl_class() -> Seq<char> {
    "http://www.w3.org/2002/07/owl#Class"@
}

pub open spec fn owl_datatype_property() -> Seq<char> {
    "http://www.w3.org/2002/07/owl#DatatypeProperty"@
}

pub open spec fn owl_object_property() -> Seq<char> {
    "http://www.w3.org/2002/07/owl#ObjectProperty"@
}

pub open spec fn owl_annotation_property() -> Seq<char> {
    "http://www.w3.org/2002/07/owl#AnnotationProperty"@
}

pub open spec fn owl_ontology() -> Seq<char> {
    "http://www.w3.org/2002/07/owl#Ontology"@
}

pub open spec fn owl_version_info() -> Seq<char> {
    "http://www.w3.org/2002/07/owl#versionInfo"@
}

pub open spec fn swrl_body() -> Seq<char> {
    "http://www.w3.org/2003/11/swrl#body"@
}

pub open spec fn swrl_head() -> Seq<char> {
    "http://www.w3.org/2003/11/swrl#head"@
}

pub open spec fn swrl_imp() -> Seq<char> {
    "http://www.w3.org/2003/11/swrl#Imp"@
}

/// The IRIs the modelling rules speak of.
pub struct Vocab {
    pub rdf_type: String,
    pub rdf_property: String,
    pub rdfs_class: String,
    pub rdfs_label: String,
    pub rdfs_comment: String,
    pub rdfs_sub_class_of: String,
    pub rdfs_sub_property_of: String,
    pub owl_class: String,
    pub owl_datatype_property: String,
    pub owl_object_property: String,
    pub owl_annotation_property: String,
    pub owl_ontology: String,
    pub owl_version_info: String,
    pub swrl_body: String,
    pub swrl_head: String,
    pub swrl_imp: String,
}

impl Vocab {
    pub open spec fn wf(&self) -> bool {
        &&& self.rdf_type@ == rdf_type()
        &&& self.rdf_property@ == rdf_property()
        &&& self.rdfs_class@ == rdfs_class()
        &&& self.rdfs_label@ == rdfs_label()
        &&& self.rdfs_comment@ == rdfs_comment()
        &&& self.rdfs_sub_class_of@ == rdfs_sub_class_of()
        &&& self.rdfs_sub_property_of@ == rdfs_sub_property_of()
        &&& self.owl_class@ == owl_class()
        &&& self.owl_datatype_property@ == owl_datatype_property()
        &&& self.owl_object_property@ == owl_object_property()
        &&& self.owl_annotation_property@ == owl_annotation_property()
        &&& self.owl_ontology@ == owl_ontology()
        &&& self.owl_version_info@ == owl_version_info()
        &&& self.swrl_body@ == swrl_body()
        &&& self.swrl_head@ == swrl_head()
        &&& self.swrl_imp@ == swrl_imp()
    }

    pub fn new() -> (v: Vocab)
        ensures
            v.wf(),
    {
        Vocab {
            rdf_type: "http://www.w3.org/1999/02/22-rdf-syntax-ns#type".to_owned(),
            rdf_property: "http://www.w3.org/1999/02/22-rdf-syntax-ns#Property".to_owned(),
            rdfs_class: "http://www.w3.org/2000/01/rdf-schema#Class".to_owned(),
            rdfs_label: "http://www.w3.org/2000/01/rdf-schema#label".to_owned(),
            rdfs_comment: "http://www.w3.org/2000/01/rdf-schema#comment".to_owned(),
            rdfs_sub_class_of: "http://www.w3.org/2000/01/rdf-schema#subClassOf".to_owned(),
            rdfs_sub_property_of: "http://www.w3.org/2000/01/rdf-schema#subPropertyOf".to_owned(),
            owl_class: "http://www.w3.org/2002/07/owl#Class".to_owned(),
            owl_datatype_property: "http://www.w3.org/2002/07/owl#DatatypeProperty".to_owned(),
            owl_object_property: "http://www.w3.org/2002/07/owl#ObjectProperty".to_owned(),
            owl_annotation_property: "http://www.w3.org/2002/07/owl#AnnotationProperty".to_owned(),
            owl_ontology: "http://www.w3.org/2002/07/owl#Ontology".to_owned(),
            owl_version_info: "http://www.w3.org/2002/07/owl#versionInfo".to_owned(),
            swrl_body: "http://www.w3.org/2003/11/swrl#body".to_owned(),
            swrl_head: "http://www.w3.org/2003/11/swrl#head".to_owned(),
            swrl_imp: "http://www.w3.org/2003/11/swrl#Imp".to_owned(),
        }
    }
}

// ════════════════════════════════════════════════════════════════
// Graph queries
// ════════════════════════════════════════════════════════════════

/// The graph holds the triple `(x, rdf:type, c)`.
pub open spec fn has_type(g: Seq<TripleV>, x: TermV, c: Seq<char>) -> bool {
    exists|j: int| 0 <= j < g.len() && g[j] == TripleV { s: x, p: rdf_type(), o: TermV::Iri(c) }
}

/// Whether `g` holds `(x, rdf:type, c)`.
pub fn graph_has_type(g: &Vec<RdfTriple>, voc: &Vocab, x: &RdfTerm, c: &String) -> (r: bool)
    requires
        voc.wf(),
    ensures
        r == has_type(graph_view(g@), x@, c@),
{
    let ghost gv = graph_view(g@);
    let n = g.len();
    let mut j: usize = 0;
    while j < n
        invariant
            n == g@.len(),
            gv == graph_view(g@),
            voc.wf(),
            j <= n,
            forall|k: int| 0 <= k < j ==> gv[k] != (TripleV { s: x@, p: rdf_type(), o: TermV::Iri(c@) }),
        decreases n - j,
    {
        let t = &g[j];
        if t.predicate == voc.rdf_type && term_eq(&t.subject, x) && term_is_iri(&t.object, c) {
            assert(gv[j as int] == TripleV { s: x@, p: rdf_type(), o: TermV::Iri(c@) });
            return true;
        }
        j = j + 1;
    }
    false
}


// ════════════════════════════════════════════════════════════════
// IRI and term text helpers
// ════════════════════════════════════════════════════════════════

/// Drops one leading `<` and one trailing `>`, each where present.
pub open spec fn spec_strip_iri_brackets(s: Seq<char>) -> Seq<char> {
    let a = if s.len() > 0 && s[0] == '<' { s.drop_first() } else { s };
    if a.len() > 0 && a.last() == '>' { a.drop_last() } else { a }
}

/// Drops the brackets of an IRI and then one pair of enclosing `"` of a literal.
pub open spec fn spec_strip_term(s: Seq<char>) -> Seq<char> {
    let a = spec_strip_iri_brackets(s);
    if a.len() >= 2 && a[0] == '"' && a.last() == '"' { a.subrange(1, a.len() - 1) } else { a }
}

pub open spec fn is_local_sep(c: char) -> bool {
    c == '#' || c == '/'
}

/// The text after the last `#` or `/` (all of it when there is none).
pub open spec fn spec_local_name(s: Seq<char>) -> Seq<char>
    decreases s.len(),
{
    if s.len() == 0 {
        s
    } else if is_local_sep(s.last()) {
        Seq::empty()
    } else {
        spec_local_name(s.drop_last()).push(s.last())
    }
}

/// The local name of an IRI: brackets dropped, then the last `#`/`/` segment.
pub open spec fn spec_extract_local_name(iri: Seq<char>) -> Seq<char> {
    spec_local_name(spec_strip_iri_brackets(iri))
}

fn strip_iri_brackets_chars(cs: &[char]) -> (r: (usize, usize))
    ensures
        r.0 <= r.1 <= cs@.len(),
        cs@.subrange(r.0 as int, r.1 as int) == spec_strip_iri_brackets(cs@),
{
    let n = cs.len();
    let start: usize = if n > 0 && cs[0] == '<' { 1 } else { 0 };
    let end: usize = if n > start && cs[n - 1] == '>' { n - 1 } else { n };
    proof {
        let a = if cs@.len() > 0 && cs@[0] == '<' { cs@.drop_first() } else { cs@ };
        assert(a =~= cs@.subrange(start as int, n as int));
        if a.len() > 0 && a.last() == '>' {
            assert(a.drop_last() =~= cs@.subrange(start as int, end as int));
        }
    }
    (start, end)
}

/// Removes the angle brackets that an IRI is printed with (`<iri>` → `iri`).
pub fn strip_iri_brackets(s: &str) -> (r: String)
    ensures
        r@ == spec_strip_iri_brackets(s@),
{
    let cs = chars_of(s);
    let (a, b) = strip_iri_brackets_chars(cs.as_slice());
    string_of_range(cs.as_slice(), a, b)
}

/// Removes the printed wrapping of a term: IRI brackets, then literal quotes.
pub fn strip_term(s: &str) -> (r: String)
    ensures
        r@ == spec_strip_term(s@),
{
    let cs = chars_of(s);
    let (a, b) = strip_iri_brackets_chars(cs.as_slice());
    proof {
        let x = spec_strip_iri_brackets(s@);
        assert(x.len() == b - a);
        assert forall|i: int| 0 <= i < x.len() implies x[i] == cs@[a + i] by {}
    }
    if b - a >= 2 && cs[a] == '"' && cs[b - 1] == '"' {
        proof {
            let x = spec_strip_iri_brackets(s@);
            assert(x.subrange(1, x.len() - 1) =~= cs@.subrange(a + 1, b - 1));
        }
        string_of_range(cs.as_slice(), a + 1, b - 1)
    } else {
        string_of_range(cs.as_slice(), a, b)
    }
}

proof fn lemma_local_name_from(s: Seq<char>, i: int)
    requires
        0 <= i <= s.len(),
        i == 0 || is_local_sep(s[i - 1]),
        forall|k: int| i <= k < s.len() ==> !is_local_sep(#[trigger] s[k]),
    ensures
        spec_local_name(s) == s.subrange(i, s.len() as int),
    decreases s.len(),
{
    if s.len() == 0 {
        assert(s.subrange(i, 0) =~= s);
    } else if i == s.len() {
        assert(s.subrange(i, s.len() as int) =~= Seq::<char>::empty());
    } else {
        let d = s.drop_last();
        assert(!is_local_sep(s.last()));
        assert forall|k: int| i <= k < d.len() implies !is_local_sep(#[trigger] d[k]) by {
            assert(d[k] == s[k]);
        }
        if i > 0 {
            assert(d[i - 1] == s[i - 1]);
        }
        lemma_local_name_from(d, i);
        assert(d.subrange(i, d.len() as int).push(s.last()) =~= s.subrange(i, s.len() as int));
    }
}

/// The local name of an IRI (the last segment after `#` or `/`).
pub fn extract_local_name(iri: &str) -> (r: String)
    ensures
        r@ == spec_extract_local_name(iri@),
{
    let cs = chars_of(iri);
    let (a, b) = strip_iri_brackets_chars(cs.as_slice());
    let ghost x = cs@.subrange(a as int, b as int);
    let mut i: usize = b;
    while i > a
        invariant
            a <= i <= b,
            b <= cs@.len(),
            x == cs@.subrange(a as int, b as int),
            forall|k: int| i <= k < b ==> !is_local_sep(#[trigger] cs@[k]),
        ensures
            a <= i <= b,
            forall|k: int| i <= k < b ==> !is_local_sep(#[trigger] cs@[k]),
            i == a || is_local_sep(cs@[i - 1]),
        decreases i - a,
    {
        if cs[i - 1] == '#' || cs[i - 1] == '/' {
            break;
        }
        i = i - 1;
    }
    proof {
        let j = i - a;
        assert forall|k: int| j <= k < x.len() implies !is_local_sep(#[trigger] x[k]) by {
            assert(x[k] == cs@[a + k]);
        }
        if j > 0 {
            assert(x[j - 1] == cs@[i - 1]);
        }
        lemma_local_name_from(x, j);
        assert(x.subrange(j, x.len() as int) =~= cs@.subrange(i as int, b as int));
    }
    string_of_range(cs.as_slice(), i, b)
}

/// PascalCase: an upper-case ASCII letter first, ASCII letters and digits only.
pub open spec fn spec_is_pascal_case(s: Seq<char>) -> bool {
    &&& s.len() > 0
    &&& crate::naming::is_ascii_upper(s[0])
    &&& forall|i: int| 0 <= i < s.len() ==> crate::naming::is_ascii_alnum(#[trigger] s[i])
}

/// camelCase: a lower-case ASCII letter first, ASCII letters and digits only.
pub open spec fn spec_is_camel_case(s: Seq<char>) -> bool {
    &&& s.len() > 0
    &&& crate::naming::is_ascii_lower(s[0])
    &&& forall|i: int| 0 <= i < s.len() ==> crate::naming::is_ascii_alnum(#[trigger] s[i])
}

/// A character that may stand in a PascalCase or camelCase name: an ASCII
/// letter or digit (no `_`, `-` or other sign, nothing outside ASCII).
pub open spec fn name_char(c: char) -> bool {
    ('a' <= c && c <= 'z') || ('A' <= c && c <= 'Z') || ('0' <= c && c <= '9')
}

/// A camelCase name starts with a lower-case ASCII letter and holds nothing
/// but ASCII letters and digits: `supplierId` is one, `supplier_id`,
/// `supplier-id`, `SupplierId` and the empty name are not.
pub proof fn law_camel_case_names(s: Seq<char>)
    ensures
        spec_is_camel_case(s) <==> (s.len() > 0 && 'a' <= s[0] && s[0] <= 'z' && forall|i: int|
            0 <= i < s.len() ==> name_char(#[trigger] s[i])),
        (exists|i: int| 0 <= i < s.len() && !name_char(#[trigger] s[i])) ==> !spec_is_camel_case(s),
{
}

/// A PascalCase name starts with an upper-case ASCII letter and holds nothing
/// but ASCII letters and digits.
pub proof fn law_pascal_case_names(s: Seq<char>)
    ensures
        spec_is_pascal_case(s) <==> (s.len() > 0 && 'A' <= s[0] && s[0] <= 'Z' && forall|i: int|
            0 <= i < s.len() ==> name_char(#[trigger] s[i])),
        (exists|i: int| 0 <= i < s.len() && !name_char(#[trigger] s[i])) ==> !spec_is_pascal_case(s),
{
}

/// An object type's API name is a PascalCase name of at most 100
/// characters, a property's a camelCase name of at most 100: the naming
/// rules of the store and of Turtle ontologies agree.
pub proof fn law_api_names_follow_the_case_styles(s: Seq<char>)
    ensures
        crate::naming::spec_object_type_api_name(s) <==> (spec_is_pascal_case(s) && s.len() <= 100),
        crate::naming::spec_property_api_name(s) <==> (spec_is_camel_case(s) && s.len() <= 100),
        crate::naming::spec_dataset_api_name(s) <==> (1 <= s.len() <= 100 && 'a' <= s[0] && s[0] <= 'z'
            && forall|i: int|
            0 <= i < s.len() ==> ('a' <= #[trigger] s[i] && s[i] <= 'z') || ('0' <= s[i] && s[i] <= '9')
                || s[i] == '_'),
{
    assert(spec_is_pascal_case(s) ==> s.len() > 0 && name_char(s[0]));
}

fn all_ascii_alnum(cs: &[char]) -> (r: bool)
    ensures
        r == (forall|i: int| 0 <= i < cs@.len() ==> crate::naming::is_ascii_alnum(#[trigger] cs@[i])),
{
    let n = cs.len();
    let mut i: usize = 0;
    while i < n
        invariant
            n == cs@.len(),
            i <= n,
            forall|k: int| 0 <= k < i ==> crate::naming::is_ascii_alnum(#[trigger] cs@[k]),
        decreases n - i,
    {
        let c = cs[i];
        if !(('A' <= c && c <= 'Z') || ('a' <= c && c <= 'z') || ('0' <= c && c <= '9')) {
            return false;
        }
        i = i + 1;
    }
    true
}

/// Whether a local name is PascalCase.
pub fn is_pascal_case(s: &str) -> (r: bool)
    ensures
        r == spec_is_pascal_case(s@),
{
    let cs = chars_of(s);
    if cs.len() == 0 || !('A' <= cs[0] && cs[0] <= 'Z') {
        return false;
    }
    all_ascii_alnum(cs.as_slice())
}

/// Whether a local name is camelCase.
pub fn is_camel_case(s: &str) -> (r: bool)
    ensures
        r == spec_is_camel_case(s@),
{
    let cs = chars_of(s);
    if cs.len() == 0 || !('a' <= cs[0] && cs[0] <= 'z') {
        return false;
    }
    all_ascii_alnum(cs.as_slice())
}

/// The W3C prefix declarations put in front of a query that declares none.
pub open spec fn common_prefix_block() -> Seq<char> {
    "PREFIX rdf: <http://www.w3.org/1999/02/22-rdf-syntax-ns#>\n         PREFIX rdfs: <http://www.w3.org/2000/01/rdf-schema#>\n         PREFIX owl: <http://www.w3.org/2002/07/owl#>\n         PREFIX xsd: <http://www.w3.org/2001/XMLSchema#>\n         PREFIX skos: <http://www.w3.org/2004/02/skos/core#>\n         PREFIX swrl: <http://www.w3.org/2003/11/swrl#>\n         PREFIX rdfg: <http://www.w3.org/2009/pointg#>\n         "@
}

/// A query that already says `PREFIX ` or `PREFIX<tab>` is kept as it is;
/// any other query gets the common W3C prefixes in front.
pub open spec fn spec_inject_common_prefixes(q: Seq<char>) -> Seq<char> {
    if crate::text::contains_seq(q, "PREFIX "@) || crate::text::contains_seq(q, "PREFIX\t"@) {
        q
    } else {
        common_prefix_block() + q
    }
}

/// Puts the common W3C prefix declarations in front of a SPARQL query that
/// declares no prefix, so that `owl:Class` and the like resolve.
pub fn inject_common_prefixes(sparql: &str) -> (r: String)
    ensures
        r@ == spec_inject_common_prefixes(sparql@),
{
    let q = chars_of(sparql);
    let p1 = chars_of("PREFIX ");
    let p2 = chars_of("PREFIX\t");
    if crate::text::chars_contain(q.as_slice(), p1.as_slice())
        || crate::text::chars_contain(q.as_slice(), p2.as_slice()) {
        return sparql.to_owned();
    }
    let mut r = "PREFIX rdf: <http://www.w3.org/1999/02/22-rdf-syntax-ns#>\n         PREFIX rdfs: <http://www.w3.org/2000/01/rdf-schema#>\n         PREFIX owl: <http://www.w3.org/2002/07/owl#>\n         PREFIX xsd: <http://www.w3.org/2001/XMLSchema#>\n         PREFIX skos: <http://www.w3.org/2004/02/skos/core#>\n         PREFIX swrl: <http://www.w3.org/2003/11/swrl#>\n         PREFIX rdfg: <http://www.w3.org/2009/pointg#>\n         ".to_owned();
    r.append(sparql);
    r
}

/// Injecting the prefixes twice gives what injecting them once gives: the
/// injected block itself declares prefixes.
pub proof fn law_prefix_injection_idempotent(q: Seq<char>)
    ensures
        spec_inject_common_prefixes(spec_inject_common_prefixes(q)) == spec_inject_common_prefixes(q),
{
    let r = spec_inject_common_prefixes(q);
    if r != q {
        reveal_strlit("PREFIX ");
        reveal_strlit("PREFIX rdf: <http://www.w3.org/1999/02/22-rdf-syntax-ns#>\n         PREFIX rdfs: <http://www.w3.org/2000/01/rdf-schema#>\n         PREFIX owl: <http://www.w3.org/2002/07/owl#>\n         PREFIX xsd: <http://www.w3.org/2001/XMLSchema#>\n         PREFIX skos: <http://www.w3.org/2004/02/skos/core#>\n         PREFIX swrl: <http://www.w3.org/2003/11/swrl#>\n         PREFIX rdfg: <http://www.w3.org/2009/pointg#>\n         ");
        assert(r.subrange(0, 7) =~= "PREFIX "@);
        assert(crate::text::occurs_at(r, "PREFIX "@, 0));
    }
}

// ════════════════════════════════════════════════════════════════
// Modelling rules over a graph
// ════════════════════════════════════════════════════════════════

/// The texts of a list of strings.
pub open spec fn strs(v: Seq<String>) -> Seq<Seq<char>> {
    v.map_values(|s: String| s@)
}

/// The messages a per-position rule gives for positions `0..n`, in order.
pub open spec fn rule_msgs(rule: spec_fn(int) -> Option<Seq<char>>, n: int) -> Seq<Seq<char>>
    decreases n,
{
    if n <= 0 {
        Seq::empty()
    } else {
        let prev = rule_msgs(rule, n - 1);
        match rule(n - 1) {
            Some(m) => prev.push(m),
            None => prev,
        }
    }
}

fn push_msg(out: &mut Vec<String>, m: String)
    ensures
        strs(final(out)@) == strs(old(out)@).push(m@),
{
    out.push(m);
    assert(strs(out@) =~= strs(old(out)@).push(m@));
}

pub open spec fn msg_rdfs_class(v: Seq<char>) -> Seq<char> {
    "类 '"@ + v + "' 声明为 rdfs:Class，应为 owl:Class（第 2 类约束）"@
}

pub open spec fn msg_mixed_property(v: Seq<char>) -> Seq<char> {
    "属性 '"@ + v + "' 同时声明为 DatatypeProperty 和 ObjectProperty（第 1 类约束，禁混用）"@
}

pub open spec fn msg_class_naming(local: Seq<char>) -> Seq<char> {
    "类 IRI 局部名 '"@ + local + "' 不符合 PascalCase 规范（应为如 Supplier）"@
}

pub open spec fn msg_property_naming(local: Seq<char>) -> Seq<char> {
    "属性 IRI 局部名 '"@ + local + "' 不符合 camelCase 规范（应为如 supplierId）"@
}

pub open spec fn msg_label_lang(s: Seq<char>) -> Seq<char> {
    "实体 '"@ + s + "' 的中文标签/说明未带 @zh 语言标签（第 3 类约束）"@
}

pub open spec fn msg_swrl(r: Seq<char>) -> Seq<char> {
    "规则 '"@ + r + "' 用了 swrl:body/head 但未声明 a swrl:Imp（第 4 类约束）"@
}

pub open spec fn msg_subclass_cycle(c: Seq<char>) -> Seq<char> {
    "类 '"@ + c + "' 存在 rdfs:subClassOf 循环继承（第 2 类约束）"@
}

pub open spec fn msg_subclass_undeclared(iri: Seq<char>) -> Seq<char> {
    "子类 '"@ + iri + "' 用了 rdfs:subClassOf 但未声明 a owl:Class（第 2 类约束，子类必须显式声明为类——oxigraph 无推理，未声明会从类查询中遗漏）"@
}

pub open spec fn msg_subproperty_undeclared(iri: Seq<char>) -> Seq<char> {
    "子属性 '"@ + iri + "' 用了 rdfs:subPropertyOf 但未声明为 rdf:Property/owl:DatatypeProperty/owl:ObjectProperty（第 1 类约束）"@
}

/// Rule: a class must be `a owl:Class`, not only `a rdfs:Class`.
pub open spec fn rule_rdfs_class(g: Seq<TripleV>, k: int) -> Option<Seq<char>> {
    let t = g[k];
    if t.p == rdf_type() && t.o == TermV::Iri(rdfs_class()) && is_iri(t.s) && !has_type(
        g,
        t.s,
        owl_class(),
    ) {
        Some(msg_rdfs_class(term_display(t.s)))
    } else {
        None
    }
}

/// Rule: no IRI is both a DatatypeProperty and an ObjectProperty.
pub open spec fn rule_mixed_property(g: Seq<TripleV>, k: int) -> Option<Seq<char>> {
    let t = g[k];
    if t.p == rdf_type() && t.o == TermV::Iri(owl_datatype_property()) && is_iri(t.s) && has_type(
        g,
        t.s,
        owl_object_property(),
    ) {
        Some(msg_mixed_property(term_display(t.s)))
    } else {
        None
    }
}

/// Rule: the local name of a class IRI is PascalCase, of a property IRI camelCase.
pub open spec fn rule_iri_naming(g: Seq<TripleV>, k: int) -> Option<Seq<char>> {
    let t = g[k];
    let local = spec_extract_local_name(spec_strip_iri_brackets(term_display(t.s)));
    if !(t.p == rdf_type() && is_iri(t.s)) || local.len() == 0 {
        None
    } else if t.o == TermV::Iri(owl_class()) && !spec_is_pascal_case(local) {
        Some(msg_class_naming(local))
    } else if (t.o == TermV::Iri(owl_datatype_property()) || t.o == TermV::Iri(
        owl_object_property(),
    )) && !spec_is_camel_case(local) {
        Some(msg_property_naming(local))
    } else {
        None
    }
}

/// Whether a text holds a CJK unified ideograph (U+4E00..=U+9FFF).
pub open spec fn has_cjk(v: Seq<char>) -> bool {
    exists|i: int| 0 <= i < v.len() && '\u{4e00}' <= #[trigger] v[i] && v[i] <= '\u{9fff}'
}

/// Rule (warning): a Chinese `rdfs:label` / `rdfs:comment` carries a language tag.
pub open spec fn rule_label_lang(g: Seq<TripleV>, k: int) -> Option<Seq<char>> {
    let t = g[k];
    if (t.p == rdfs_label() || t.p == rdfs_comment()) && (t.o matches TermV::Literal(v, None, _)
        && has_cjk(v)) {
        Some(msg_label_lang(term_display(t.s)))
    } else {
        None
    }
}

/// Rule: a resource with `swrl:body` / `swrl:head` is `a swrl:Imp`.
pub open spec fn rule_swrl(g: Seq<TripleV>, k: int) -> Option<Seq<char>> {
    let t = g[k];
    if (t.p == swrl_body() || t.p == swrl_head()) && is_iri(t.s) && !has_type(g, t.s, swrl_imp()) {
        Some(msg_swrl(term_display(t.s)))
    } else {
        None
    }
}

/// Rule: the subject of `rdfs:subClassOf` is declared `a owl:Class` (or `rdfs:Class`).
pub open spec fn rule_subclass_declared(g: Seq<TripleV>, k: int) -> Option<Seq<char>> {
    let t = g[k];
    if t.p == rdfs_sub_class_of() && is_iri(t.s) && !has_type(g, t.s, owl_class()) && !has_type(
        g,
        t.s,
        rdfs_class(),
    ) {
        Some(msg_subclass_undeclared(spec_strip_iri_brackets(term_display(t.s))))
    } else {
        None
    }
}

/// Rule: the subject of `rdfs:subPropertyOf` is declared a property.
pub open spec fn rule_subproperty_declared(g: Seq<TripleV>, k: int) -> Option<Seq<char>> {
    let t = g[k];
    if t.p == rdfs_sub_property_of() && is_iri(t.s) && !has_type(g, t.s, rdf_property())
        && !has_type(g, t.s, owl_datatype_property()) && !has_type(g, t.s, owl_object_property())
        && !has_type(g, t.s, owl_annotation_property()) {
        Some(msg_subproperty_undeclared(spec_strip_iri_brackets(term_display(t.s))))
    } else {
        None
    }
}

pub open spec fn rdfs_class_errors(g: Seq<TripleV>) -> Seq<Seq<char>> {
    rule_msgs(|k: int| rule_rdfs_class(g, k), g.len() as int)
}

pub open spec fn mixed_property_errors(g: Seq<TripleV>) -> Seq<Seq<char>> {
    rule_msgs(|k: int| rule_mixed_property(g, k), g.len() as int)
}

pub open spec fn iri_naming_errors(g: Seq<TripleV>) -> Seq<Seq<char>> {
    rule_msgs(|k: int| rule_iri_naming(g, k), g.len() as int)
}

pub open spec fn label_lang_warnings(g: Seq<TripleV>) -> Seq<Seq<char>> {
    rule_msgs(|k: int| rule_label_lang(g, k), g.len() as int)
}

pub open spec fn swrl_errors(g: Seq<TripleV>) -> Seq<Seq<char>> {
    rule_msgs(|k: int| rule_swrl(g, k), g.len() as int)
}

pub open spec fn subclass_declared_errors(g: Seq<TripleV>) -> Seq<Seq<char>> {
    rule_msgs(|k: int| rule_subclass_declared(g, k), g.len() as int)
}

pub open spec fn subproperty_declared_errors(g: Seq<TripleV>) -> Seq<Seq<char>> {
    rule_msgs(|k: int| rule_subproperty_declared(g, k), g.len() as int)
}

/// Second class of constraint: classes are `a owl:Class`, not `rdfs:Class`.
fn check_class_uses_owl_class(g: &Vec<RdfTriple>, voc: &Vocab, errors: &mut Vec<String>)
    requires
        voc.wf(),
    ensures
        strs(final(errors)@) == strs(old(errors)@) + rdfs_class_errors(graph_view(g@)),
{
    let ghost gv = graph_view(g@);
    let ghost e0 = strs(errors@);
    let n = g.len();
    let mut k: usize = 0;
    while k < n
        invariant
            n == g@.len(),
            gv == graph_view(g@),
            voc.wf(),
            k <= n,
            strs(errors@) == e0 + rule_msgs(|i: int| rule_rdfs_class(gv, i), k as int),
        decreases n - k,
    {
        let t = &g[k];
        assert(gv[k as int] == t@);
        if t.predicate == voc.rdf_type && term_is_iri(&t.object, &voc.rdfs_class) && term_is_named(&t.subject)
            && !graph_has_type(g, voc, &t.subject, &voc.owl_class) {
            let d = display_term(&t.subject);
            let m = concat3("类 '", d.as_str(), "' 声明为 rdfs:Class，应为 owl:Class（第 2 类约束）");
            push_msg(errors, m);
        }
        k = k + 1;
    }
}

/// First class of constraint: a property is not both datatype and object property.
fn check_property_not_mixed(g: &Vec<RdfTriple>, voc: &Vocab, errors: &mut Vec<String>)
    requires
        voc.wf(),
    ensures
        strs(final(errors)@) == strs(old(errors)@) + mixed_property_errors(graph_view(g@)),
{
    let ghost gv = graph_view(g@);
    let ghost e0 = strs(errors@);
    let n = g.len();
    let mut k: usize = 0;
    while k < n
        invariant
            n == g@.len(),
            gv == graph_view(g@),
            voc.wf(),
            k <= n,
            strs(errors@) == e0 + rule_msgs(|i: int| rule_mixed_property(gv, i), k as int),
        decreases n - k,
    {
        let t = &g[k];
        assert(gv[k as int] == t@);
        if t.predicate == voc.rdf_type && term_is_iri(&t.object, &voc.owl_datatype_property)
            && term_is_named(&t.subject) && graph_has_type(g, voc, &t.subject, &voc.owl_object_property) {
            let d = display_term(&t.subject);
            let m = concat3(
                "属性 '",
                d.as_str(),
                "' 同时声明为 DatatypeProperty 和 ObjectProperty（第 1 类约束，禁混用）",
            );
            push_msg(errors, m);
        }
        k = k + 1;
    }
}

/// IRI local names: classes PascalCase, properties camelCase.
fn check_iri_naming(g: &Vec<RdfTriple>, voc: &Vocab, errors: &mut Vec<String>)
    requires
        voc.wf(),
    ensures
        strs(final(errors)@) == strs(old(errors)@) + iri_naming_errors(graph_view(g@)),
{
    let ghost gv = graph_view(g@);
    let ghost e0 = strs(errors@);
    let n = g.len();
    let mut k: usize = 0;
    while k < n
        invariant
            n == g@.len(),
            gv == graph_view(g@),
            voc.wf(),
            k <= n,
            strs(errors@) == e0 + rule_msgs(|i: int| rule_iri_naming(gv, i), k as int),
        decreases n - k,
    {
        let t = &g[k];
        assert(gv[k as int] == t@);
        if t.predicate == voc.rdf_type && term_is_named(&t.subject) {
            let d = display_term(&t.subject);
            let iri = strip_iri_brackets(d.as_str());
            let local = extract_local_name(iri.as_str());
            if local.as_str().unicode_len() > 0 {
                if term_is_iri(&t.object, &voc.owl_class) && !is_pascal_case(local.as_str()) {
                    let m = concat3(
                        "类 IRI 局部名 '",
                        local.as_str(),
                        "' 不符合 PascalCase 规范（应为如 Supplier）",
                    );
                    push_msg(errors, m);
                } else if (term_is_iri(&t.object, &voc.owl_datatype_property) || term_is_iri(
                    &t.object,
                    &voc.owl_object_property,
                )) && !is_camel_case(local.as_str()) {
                    let m = concat3(
                        "属性 IRI 局部名 '",
                        local.as_str(),
                        "' 不符合 camelCase 规范（应为如 supplierId）",
                    );
                    push_msg(errors, m);
                }
            }
        }
        k = k + 1;
    }
}

fn text_has_cjk(v: &String) -> (r: bool)
    ensures
        r == has_cjk(v@),
{
    let cs = chars_of(v.as_str());
    let n = cs.len();
    let mut i: usize = 0;
    while i < n
        invariant
            n == cs@.len(),
            cs@ == v@,
            i <= n,
            forall|k: int| 0 <= k < i ==> !('\u{4e00}' <= #[trigger] cs@[k] && cs@[k] <= '\u{9fff}'),
        decreases n - i,
    {
        if '\u{4e00}' <= cs[i] && cs[i] <= '\u{9fff}' {
            return true;
        }
        i = i + 1;
    }
    false
}

/// Third class of constraint (warning): Chinese labels and comments carry `@zh`.
fn check_chinese_labels_have_lang(g: &Vec<RdfTriple>, voc: &Vocab, warnings: &mut Vec<String>)
    requires
        voc.wf(),
    ensures
        strs(final(warnings)@) == strs(old(warnings)@) + label_lang_warnings(graph_view(g@)),
{
    let ghost gv = graph_view(g@);
    let ghost e0 = strs(warnings@);
    let n = g.len();
    let mut k: usize = 0;
    while k < n
        invariant
            n == g@.len(),
            gv == graph_view(g@),
            voc.wf(),
            k <= n,
            strs(warnings@) == e0 + rule_msgs(|i: int| rule_label_lang(gv, i), k as int),
        decreases n - k,
    {
        let t = &g[k];
        assert(gv[k as int] == t@);
        if t.predicate == voc.rdfs_label || t.predicate == voc.rdfs_comment {
            match &t.object {
                RdfTerm::Literal { value, lang: None, .. } => {
                    if text_has_cjk(value) {
                        let d = display_term(&t.subject);
                        let m = concat3(
                            "实体 '",
                            d.as_str(),
                            "' 的中文标签/说明未带 @zh 语言标签（第 3 类约束）",
                        );
                        push_msg(warnings, m);
                    }
                },
                _ => {},
            }
        }
        k = k + 1;
    }
}

/// Fourth class of constraint: SWRL rules use the standard `swrl:Imp` vocabulary.
fn check_swrl_uses_standard_vocab(g: &Vec<RdfTriple>, voc: &Vocab, errors: &mut Vec<String>)
    requires
        voc.wf(),
    ensures
        strs(final(errors)@) == strs(old(errors)@) + swrl_errors(graph_view(g@)),
{
    let ghost gv = graph_view(g@);
    let ghost e0 = strs(errors@);
    let n = g.len();
    let mut k: usize = 0;
    while k < n
        invariant
            n == g@.len(),
            gv == graph_view(g@),
            voc.wf(),
            k <= n,
            strs(errors@) == e0 + rule_msgs(|i: int| rule_swrl(gv, i), k as int),
        decreases n - k,
    {
        let t = &g[k];
        assert(gv[k as int] == t@);
        if (t.predicate == voc.swrl_body || t.predicate == voc.swrl_head) && term_is_named(&t.subject)
            && !graph_has_type(g, voc, &t.subject, &voc.swrl_imp) {
            let d = display_term(&t.subject);
            let m = concat3(
                "规则 '",
                d.as_str(),
                "' 用了 swrl:body/head 但未声明 a swrl:Imp（第 4 类约束）",
            );
            push_msg(errors, m);
        }
        k = k + 1;
    }
}

/// Second class (supplement): the subject of `rdfs:subClassOf` is declared a class.
fn check_subclass_subject_is_class(g: &Vec<RdfTriple>, voc: &Vocab, errors: &mut Vec<String>)
    requires
        voc.wf(),
    ensures
        strs(final(errors)@) == strs(old(errors)@) + subclass_declared_errors(graph_view(g@)),
{
    let ghost gv = graph_view(g@);
    let ghost e0 = strs(errors@);
    let n = g.len();
    let mut k: usize = 0;
    while k < n
        invariant
            n == g@.len(),
            gv == graph_view(g@),
            voc.wf(),
            k <= n,
            strs(errors@) == e0 + rule_msgs(|i: int| rule_subclass_declared(gv, i), k as int),
        decreases n - k,
    {
        let t = &g[k];
        assert(gv[k as int] == t@);
        if t.predicate == voc.rdfs_sub_class_of && term_is_named(&t.subject) && !graph_has_type(
            g,
            voc,
            &t.subject,
            &voc.owl_class,
        ) && !graph_has_type(g, voc, &t.subject, &voc.rdfs_class) {
            let d = display_term(&t.subject);
            let iri = strip_iri_brackets(d.as_str());
            let m = concat3(
                "子类 '",
                iri.as_str(),
                "' 用了 rdfs:subClassOf 但未声明 a owl:Class（第 2 类约束，子类必须显式声明为类——oxigraph 无推理，未声明会从类查询中遗漏）",
            );
            push_msg(errors, m);
        }
        k = k + 1;
    }
}

/// First class (supplement): the subject of `rdfs:subPropertyOf` is declared a property.
fn check_subproperty_subject_is_property(
    g: &Vec<RdfTriple>,
    voc: &Vocab,
    errors: &mut Vec<String>,
)
    requires
        voc.wf(),
    ensures
        strs(final(errors)@) == strs(old(errors)@) + subproperty_declared_errors(graph_view(g@)),
{
    let ghost gv = graph_view(g@);
    let ghost e0 = strs(errors@);
    let n = g.len();
    let mut k: usize = 0;
    while k < n
        invariant
            n == g@.len(),
            gv == graph_view(g@),
            voc.wf(),
            k <= n,
            strs(errors@) == e0 + rule_msgs(|i: int| rule_subproperty_declared(gv, i), k as int),
        decreases n - k,
    {
        let t = &g[k];
        assert(gv[k as int] == t@);
        if t.predicate == voc.rdfs_sub_property_of && term_is_named(&t.subject) && !graph_has_type(
            g,
            voc,
            &t.subject,
            &voc.rdf_property,
        ) && !graph_has_type(g, voc, &t.subject, &voc.owl_datatype_property) && !graph_has_type(
            g,
            voc,
            &t.subject,
            &voc.owl_object_property,
        ) && !graph_has_type(g, voc, &t.subject, &voc.owl_annotation_property) {
            let d = display_term(&t.subject);
            let iri = strip_iri_brackets(d.as_str());
            let m = concat3(
                "子属性 '",
                iri.as_str(),
                "' 用了 rdfs:subPropertyOf 但未声明为 rdf:Property/owl:DatatypeProperty/owl:ObjectProperty（第 1 类约束）",
            );
            push_msg(errors, m);
        }
        k = k + 1;
    }
}


// ════════════════════════════════════════════════════════════════
// rdfs:subClassOf reachability (cycle detection)
// ════════════════════════════════════════════════════════════════

/// The graph holds `(a, rdfs:subClassOf, b)`.
pub open spec fn sub_edge(g: Seq<TripleV>, a: TermV, b: TermV) -> bool {
    exists|j: int|
        0 <= j < g.len() && (#[trigger] g[j]).p == rdfs_sub_class_of() && g[j].s == a && g[j].o == b
}

/// A walk of one or more `rdfs:subClassOf` steps through `path`.
pub open spec fn is_path(g: Seq<TripleV>, path: Seq<TermV>) -> bool {
    &&& path.len() >= 2
    &&& forall|i: int| 0 <= i < path.len() - 1 ==> sub_edge(g, #[trigger] path[i], path[i + 1])
}

/// `b` is reached from `a` by one or more `rdfs:subClassOf` steps
/// (the SPARQL path `rdfs:subClassOf+`).
pub open spec fn reaches(g: Seq<TripleV>, a: TermV, b: TermV) -> bool {
    exists|path: Seq<TermV>| #[trigger] is_path(g, path) && path[0] == a && path.last() == b
}

/// The first `rdfs:subClassOf` triple of its subject.
pub open spec fn first_subclass_subject(g: Seq<TripleV>, k: int) -> bool {
    forall|j: int| 0 <= j < k ==> !((#[trigger] g[j]).p == rdfs_sub_class_of() && g[j].s == g[k].s)
}

/// Rule: no class is its own (strict) super-class; one message per class.
pub open spec fn rule_subclass_cycle(g: Seq<TripleV>, k: int) -> Option<Seq<char>> {
    let t = g[k];
    if t.p == rdfs_sub_class_of() && is_iri(t.s) && first_subclass_subject(g, k) && reaches(
        g,
        t.s,
        t.s,
    ) {
        Some(msg_subclass_cycle(term_display(t.s)))
    } else {
        None
    }
}

pub open spec fn subclass_cycle_errors(g: Seq<TripleV>) -> Seq<Seq<char>> {
    rule_msgs(|k: int| rule_subclass_cycle(g, k), g.len() as int)
}

pub open spec fn terms_view(v: Seq<RdfTerm>) -> Seq<TermV> {
    v.map_values(|t: RdfTerm| t@)
}

fn copy_opt_string(o: &Option<String>) -> (r: Option<String>)
    ensures
        opt_str_view(r) == opt_str_view(*o),
{
    match o {
        Some(s) => Some(s.clone()),
        None => None,
    }
}

/// A copy of a term.
pub fn copy_term(t: &RdfTerm) -> (r: RdfTerm)
    ensures
        r@ == t@,
{
    match t {
        RdfTerm::Iri(s) => RdfTerm::Iri(s.clone()),
        RdfTerm::Blank(s) => RdfTerm::Blank(s.clone()),
        RdfTerm::Literal { value, lang, display } => RdfTerm::Literal {
            value: value.clone(),
            lang: copy_opt_string(lang),
            display: display.clone(),
        },
    }
}

fn terms_contain(v: &Vec<RdfTerm>, t: &RdfTerm) -> (r: bool)
    ensures
        r == terms_view(v@).contains(t@),
{
    let n = v.len();
    let mut i: usize = 0;
    while i < n
        invariant
            n == v@.len(),
            i <= n,
            forall|k: int| 0 <= k < i ==> v@[k]@ != t@,
        decreases n - i,
    {
        if term_eq(&v[i], t) {
            assert(terms_view(v@)[i as int] == t@);
            return true;
        }
        i = i + 1;
    }
    assert(!terms_view(v@).contains(t@)) by {
        if terms_view(v@).contains(t@) {
            let k = choose|k: int| 0 <= k < terms_view(v@).len() && terms_view(v@)[k] == t@;
            assert(v@[k]@ == t@);
        }
    }
    false
}

/// Appends to `visited` every `rdfs:subClassOf` successor of `x` not yet in it.
fn add_successors(g: &Vec<RdfTriple>, voc: &Vocab, x: &RdfTerm, visited: &mut Vec<RdfTerm>)
    requires
        voc.wf(),
        terms_view(old(visited)@).no_duplicates(),
    ensures
        terms_view(final(visited)@).no_duplicates(),
        old(visited)@.len() <= final(visited)@.len(),
        terms_view(final(visited)@).subrange(0, old(visited)@.len() as int) == terms_view(
            old(visited)@,
        ),
        forall|b: TermV| sub_edge(graph_view(g@), x@, b) ==> terms_view(final(visited)@).contains(b),
        forall|k: int|
            old(visited)@.len() <= k < final(visited)@.len() ==> sub_edge(
                graph_view(g@),
                x@,
                #[trigger] terms_view(final(visited)@)[k],
            ),
{
    let ghost gv = graph_view(g@);
    let ghost v0 = terms_view(visited@);
    let n = g.len();
    let mut j: usize = 0;
    while j < n
        invariant
            n == g@.len(),
            gv == graph_view(g@),
            voc.wf(),
            j <= n,
            terms_view(visited@).no_duplicates(),
            v0.len() <= visited@.len(),
            terms_view(visited@).subrange(0, v0.len() as int) == v0,
            forall|i: int|
                0 <= i < j && (#[trigger] gv[i]).p == rdfs_sub_class_of() && gv[i].s == x@
                    ==> terms_view(visited@).contains(gv[i].o),
            forall|k: int|
                v0.len() <= k < visited@.len() ==> sub_edge(
                    gv,
                    x@,
                    #[trigger] terms_view(visited@)[k],
                ),
        decreases n - j,
    {
        let t = &g[j];
        assert(gv[j as int] == t@);
        if t.predicate == voc.rdfs_sub_class_of && term_eq(&t.subject, x) {
            if !terms_contain(visited, &t.object) {
                let ghost before = terms_view(visited@);
                let o = copy_term(&t.object);
                visited.push(o);
                proof {
                    assert(terms_view(visited@) =~= before.push(t.object@));
                    assert(sub_edge(gv, x@, t.object@));
                    assert forall|a: int, b: int|
                        0 <= a < terms_view(visited@).len() && 0 <= b < terms_view(
                            visited@,
                        ).len() && a != b implies terms_view(visited@)[a] != terms_view(
                        visited@,
                    )[b] by {
                        if a < before.len() && b < before.len() {
                        } else if a == before.len() {
                            assert(terms_view(visited@)[b] == before[b]);
                        } else {
                            assert(terms_view(visited@)[a] == before[a]);
                        }
                    }
                    assert(terms_view(visited@).subrange(0, v0.len() as int) =~= v0) by {
                        assert(before.subrange(0, v0.len() as int) == v0);
                    }
                    assert forall|i: int|
                        0 <= i < j + 1 && (#[trigger] gv[i]).p == rdfs_sub_class_of() && gv[i].s
                            == x@ implies terms_view(visited@).contains(gv[i].o) by {
                        if i < j {
                            let w = choose|w: int| 0 <= w < before.len() && before[w] == gv[i].o;
                            assert(terms_view(visited@)[w] == before[w]);
                        } else {
                            assert(terms_view(visited@)[before.len() as int] == gv[i].o);
                        }
                    }
                }
            }
        }
        j = j + 1;
    }
    proof {
        assert forall|b: TermV| sub_edge(gv, x@, b) implies terms_view(visited@).contains(b) by {
            let i = choose|i: int|
                0 <= i < gv.len() && (#[trigger] gv[i]).p == rdfs_sub_class_of() && gv[i].s == x@
                    && gv[i].o == b;
        }
    }
}

proof fn lemma_reach_step(g: Seq<TripleV>, a: TermV, x: TermV, b: TermV)
    requires
        reaches(g, a, x),
        sub_edge(g, x, b),
    ensures
        reaches(g, a, b),
{
    let p = choose|path: Seq<TermV>| #[trigger] is_path(g, path) && path[0] == a && path.last() == x;
    let q = p.push(b);
    assert forall|i: int| 0 <= i < q.len() - 1 implies sub_edge(g, #[trigger] q[i], q[i + 1]) by {
        if i < p.len() - 1 {
            assert(q[i] == p[i] && q[i + 1] == p[i + 1]);
        } else {
            assert(q[i] == x);
        }
    }
    assert(is_path(g, q));
}

proof fn lemma_edge_reaches(g: Seq<TripleV>, a: TermV, b: TermV)
    requires
        sub_edge(g, a, b),
    ensures
        reaches(g, a, b),
{
    let q = seq![a, b];
    assert forall|i: int| 0 <= i < q.len() - 1 implies sub_edge(g, #[trigger] q[i], q[i + 1]) by {
        assert(i == 0);
    }
    assert(is_path(g, q));
}

/// `b` is the object of some `rdfs:subClassOf` triple.
pub open spec fn edge_object(g: Seq<TripleV>, b: TermV) -> bool {
    exists|j: int| 0 <= j < g.len() && (#[trigger] g[j]).p == rdfs_sub_class_of() && g[j].o == b
}

proof fn lemma_edge_object(g: Seq<TripleV>, a: TermV, b: TermV)
    requires
        sub_edge(g, a, b),
    ensures
        edge_object(g, b),
{
    let j = choose|j: int|
        0 <= j < g.len() && (#[trigger] g[j]).p == rdfs_sub_class_of() && g[j].s == a && g[j].o == b;
}

proof fn lemma_visited_bound(g: Seq<TripleV>, vis: Seq<TermV>, x: TermV)
    requires
        vis.no_duplicates(),
        forall|k: int| 0 <= k < vis.len() ==> #[trigger] edge_object(g, vis[k]),
    ensures
        vis.len() <= g.len(),
{
    let objs = g.map_values(|t: TripleV| t.o);
    vis.unique_seq_to_set();
    objs.lemma_cardinality_of_set();
    assert(vis.to_set().subset_of(objs.to_set())) by {
        assert forall|b: TermV| vis.to_set().contains(b) implies objs.to_set().contains(b) by {
            let k = choose|k: int| 0 <= k < vis.len() && vis[k] == b;
            assert(edge_object(g, vis[k]));
            let j = choose|j: int|
                0 <= j < g.len() && (#[trigger] g[j]).p == rdfs_sub_class_of() && g[j].o == vis[k];
            assert(objs[j] == b);
        }
    }
    vstd::set_lib::lemma_len_subset(vis.to_set(), objs.to_set());
}

proof fn lemma_closed_contains_path(g: Seq<TripleV>, start: TermV, vis: Seq<TermV>, path: Seq<TermV>)
    requires
        forall|c: TermV| sub_edge(g, start, c) ==> vis.contains(c),
        forall|k: int, c: TermV| 0 <= k < vis.len() && #[trigger] sub_edge(g, vis[k], c) ==> vis.contains(c),
        is_path(g, path),
        path[0] == start,
    ensures
        vis.contains(path.last()),
    decreases path.len(),
{
    if path.len() == 2 {
        assert(sub_edge(g, path[0], path[1]));
    } else {
        let d = path.drop_last();
        assert forall|i: int| 0 <= i < d.len() - 1 implies sub_edge(g, #[trigger] d[i], d[i + 1]) by {
            assert(d[i] == path[i] && d[i + 1] == path[i + 1]);
        }
        lemma_closed_contains_path(g, start, vis, d);
        let k = choose|k: int| 0 <= k < vis.len() && vis[k] == d.last();
        assert(sub_edge(g, path[path.len() - 2], path[path.len() - 1]));
        assert(sub_edge(g, vis[k], path.last()));
    }
}

/// The terms reached from `start` by one or more `rdfs:subClassOf` steps.
fn reachable_from(g: &Vec<RdfTriple>, voc: &Vocab, start: &RdfTerm) -> (r: Vec<RdfTerm>)
    requires
        voc.wf(),
    ensures
        forall|b: TermV| terms_view(r@).contains(b) <==> reaches(graph_view(g@), start@, b),
{
    let ghost gv = graph_view(g@);
    let mut visited: Vec<RdfTerm> = Vec::new();
    proof {
        assert(terms_view(visited@) =~= Seq::<TermV>::empty());
    }
    add_successors(g, voc, start, &mut visited);
    proof {
        assert forall|k: int| 0 <= k < terms_view(visited@).len() implies reaches(
            gv,
            start@,
            #[trigger] terms_view(visited@)[k],
        ) by {
            lemma_edge_reaches(gv, start@, terms_view(visited@)[k]);
        }
        assert forall|k: int| 0 <= k < terms_view(visited@).len() implies #[trigger] edge_object(
            gv,
            terms_view(visited@)[k],
        ) by {
            lemma_edge_object(gv, start@, terms_view(visited@)[k]);
        }
        lemma_visited_bound(gv, terms_view(visited@), start@);
    }
    let mut i: usize = 0;
    while i < visited.len()
        invariant
            gv == graph_view(g@),
            voc.wf(),
            i <= visited@.len(),
            visited@.len() <= g@.len(),
            terms_view(visited@).no_duplicates(),
            forall|k: int|
                0 <= k < terms_view(visited@).len() ==> reaches(
                    gv,
                    start@,
                    #[trigger] terms_view(visited@)[k],
                ),
            forall|k: int|
                0 <= k < terms_view(visited@).len() ==> #[trigger] edge_object(gv, terms_view(visited@)[k]),
            forall|c: TermV| sub_edge(gv, start@, c) ==> terms_view(visited@).contains(c),
            forall|k: int, c: TermV|
                0 <= k < i && #[trigger] sub_edge(gv, terms_view(visited@)[k], c)
                    ==> terms_view(visited@).contains(c),
        decreases g@.len() - i,
    {
        let ghost before = terms_view(visited@);
        let x = copy_term(&visited[i]);
        assert(x@ == before[i as int]);
        add_successors(g, voc, &x, &mut visited);
        proof {
            let after = terms_view(visited@);
            assert forall|k: int| 0 <= k < before.len() implies after[k] == before[k] by {
                assert(after.subrange(0, before.len() as int)[k] == after[k]);
            }
            assert forall|c: TermV| #[trigger] before.contains(c) implies after.contains(c) by {
                let w = choose|w: int| 0 <= w < before.len() && before[w] == c;
                assert(after[w] == c);
            }
            assert forall|k: int| 0 <= k < after.len() implies reaches(
                gv,
                start@,
                #[trigger] after[k],
            ) by {
                if k >= before.len() {
                    assert(sub_edge(gv, x@, after[k]));
                    lemma_reach_step(gv, start@, x@, after[k]);
                } else {
                    assert(after[k] == before[k]);
                }
            }
            assert forall|k: int| 0 <= k < after.len() implies #[trigger] edge_object(gv, after[k]) by {
                if k >= before.len() {
                    lemma_edge_object(gv, x@, after[k]);
                } else {
                    assert(after[k] == before[k]);
                    assert(edge_object(gv, before[k]));
                }
            }
            assert forall|k: int, c: TermV|
                0 <= k < i + 1 && #[trigger] sub_edge(gv, after[k], c) implies after.contains(c) by {
                assert(after[k] == before[k]);
                if k < i {
                    assert(before.contains(c));
                }
            }
            lemma_visited_bound(gv, after, start@);
        }
        i = i + 1;
    }
    proof {
        let vis = terms_view(visited@);
        assert forall|b: TermV| vis.contains(b) <==> reaches(gv, start@, b) by {
            if reaches(gv, start@, b) {
                let path = choose|path: Seq<TermV>| #[trigger] is_path(gv, path) && path[0] == start@
                    && path.last() == b;
                lemma_closed_contains_path(gv, start@, vis, path);
            }
            if vis.contains(b) {
                let k = choose|k: int| 0 <= k < vis.len() && vis[k] == b;
            }
        }
    }
    visited
}

/// Second class of constraint: `rdfs:subClassOf` has no cycle.
fn check_subclass_no_cycle(g: &Vec<RdfTriple>, voc: &Vocab, errors: &mut Vec<String>)
    requires
        voc.wf(),
    ensures
        strs(final(errors)@) == strs(old(errors)@) + subclass_cycle_errors(graph_view(g@)),
{
    let ghost gv = graph_view(g@);
    let ghost e0 = strs(errors@);
    let n = g.len();
    let mut k: usize = 0;
    while k < n
        invariant
            n == g@.len(),
            gv == graph_view(g@),
            voc.wf(),
            k <= n,
            strs(errors@) == e0 + rule_msgs(|i: int| rule_subclass_cycle(gv, i), k as int),
        decreases n - k,
    {
        let t = &g[k];
        assert(gv[k as int] == t@);
        if t.predicate == voc.rdfs_sub_class_of && term_is_named(&t.subject) {
            let mut first = true;
            let mut j: usize = 0;
            while j < k
                invariant
                    n == g@.len(),
                    gv == graph_view(g@),
                    voc.wf(),
                    j <= k < n,
                    t == &g@[k as int],
                    first == (forall|i: int|
                        0 <= i < j ==> !((#[trigger] gv[i]).p == rdfs_sub_class_of() && gv[i].s
                            == gv[k as int].s)),
                decreases k - j,
            {
                assert(gv[j as int] == g@[j as int]@);
                if g[j].predicate == voc.rdfs_sub_class_of && term_eq(&g[j].subject, &t.subject) {
                    first = false;
                }
                j = j + 1;
            }
            if first {
                let reached = reachable_from(g, voc, &t.subject);
                if terms_contain(&reached, &t.subject) {
                    let d = display_term(&t.subject);
                    let m = concat3("类 '", d.as_str(), "' 存在 rdfs:subClassOf 循环继承（第 2 类约束）");
                    push_msg(errors, m);
                }
            }
        }
        k = k + 1;
    }
}


// ════════════════════════════════════════════════════════════════
// Loading a Turtle text
// ════════════════════════════════════════════════════════════════

#[verifier::external_type_specification]
#[verifier::external_body]
pub struct ExOxTerm(oxigraph::model::Term);

/// The base IRI against which relative IRIs of a text are resolved.
pub open spec fn validate_base_iri() -> Seq<char> {
    "urn:onto-studio:validate:"@
}

/// A term with the label of a blank node dropped.
pub open spec fn erase_blank(t: TermV) -> TermV {
    match t {
        TermV::Blank(_) => TermV::Blank(Seq::empty()),
        _ => t,
    }
}

/// A triple with the labels of its blank nodes dropped.
pub open spec fn erase_triple(t: TripleV) -> TripleV {
    TripleV { s: erase_blank(t.s), p: t.p, o: erase_blank(t.o) }
}

/// The triples of a graph with the labels of blank nodes dropped. Blank node
/// labels are chosen afresh at each load; the rest of each triple is not.
pub open spec fn graph_shape(g: Seq<TripleV>) -> Set<TripleV> {
    Set::new(|t: TripleV| exists|k: int| 0 <= k < g.len() && erase_triple(#[trigger] g[k]) == t)
}

/// No triple has a literal for its subject (RDF subjects are IRIs or blank
/// nodes).
pub open spec fn no_literal_subject(g: Seq<TripleV>) -> bool {
    forall|k: int| 0 <= k < g.len() ==> !(#[trigger] g[k].s is Literal)
}

/// What oxigraph's Turtle parser makes of a text under a base IRI: `None`
/// when loading it fails, else the set of its triples with the labels of
/// blank nodes dropped.
pub uninterp spec fn turtle_graph_shape(ttl: Seq<char>, base: Seq<char>) -> Option<Set<TripleV>>;

/// Whether a Turtle text loads.
pub open spec fn turtle_loads(ttl: Seq<char>, base: Seq<char>) -> bool {
    turtle_graph_shape(ttl, base) is Some
}

/// Converts an oxigraph term to a plain term, one arm per variant; a literal
/// keeps its lexical value, its language tag and its printed form.
#[verifier::external_body]
fn term_from_oxigraph(t: oxigraph::model::Term) -> (r: RdfTerm) {
    match t {
        oxigraph::model::Term::NamedNode(n) => RdfTerm::Iri(n.into_string()),
        oxigraph::model::Term::BlankNode(b) => RdfTerm::Blank(b.into_string()),
        oxigraph::model::Term::Literal(l) => RdfTerm::Literal {
            display: l.to_string(),
            lang: l.language().map(|x| x.to_owned()),
            value: l.value().to_owned(),
        },
    }
}

/// Loads a Turtle text into a fresh in-memory `oxigraph::store::Store`
/// (`Store::new`, `RdfParser::with_base_iri`, `Store::load_from_reader`) and
/// lists its triples (`Store::iter`), each once, as plain values; or gives
/// the text of the error. Claimed: the load fails exactly when the parser
/// refuses the text (a memory store neither fails to open, to commit nor to
/// read back what it holds), the triples with blank node labels dropped are
/// those that `turtle_graph_shape` names, no subject is a literal, and each
/// triple of the store comes back once (a store is a set). The
/// blank node labels, chosen at random by the loader, and the order of the
/// list are not stated.
#[verifier::external_body]
fn load_turtle_graph(ttl: &str, base: &str) -> (r: Result<Vec<RdfTriple>, String>)
    ensures
        r is Ok <==> turtle_loads(ttl@, base@),
        r matches Ok(g) ==> turtle_graph_shape(ttl@, base@) == Some(graph_shape(graph_view(g@))),
        r matches Ok(g) ==> no_literal_subject(graph_view(g@)),
        r matches Ok(g) ==> graph_view(g@).no_duplicates(),
{
    let store = oxigraph::store::Store::new().map_err(|e| e.to_string())?;
    let parser = match RdfParser::from_format(RdfFormat::Turtle).with_base_iri(base) {
        Ok(p) => p,
        Err(_) => RdfParser::from_format(RdfFormat::Turtle),
    };
    store.load_from_reader(parser, ttl.as_bytes()).map_err(|e| e.to_string())?;
    let mut out = Vec::new();
    for q in store.iter() {
        let q = q.map_err(|e| e.to_string())?;
        let subject = term_from_oxigraph(q.subject.into());
        out.push(RdfTriple { subject, predicate: q.predicate.into_string(), object: term_from_oxigraph(q.object) });
    }
    Ok(out)
}

/// The graph of a Turtle text, or the text of the error that stopped loading
/// it; relative IRIs are resolved against `validate_base_iri()`.
pub fn parse_ttl_to_memory(ttl: &str) -> (r: Result<Vec<RdfTriple>, String>)
    ensures
        r is Ok <==> turtle_loads(ttl@, validate_base_iri()),
        r matches Ok(g) ==> turtle_graph_shape(ttl@, validate_base_iri()) == Some(
            graph_shape(graph_view(g@)),
        ),
        r matches Ok(g) ==> no_literal_subject(graph_view(g@)),
        r matches Ok(g) ==> graph_view(g@).no_duplicates(),
{
    load_turtle_graph(ttl, "urn:onto-studio:validate:")
}

// ════════════════════════════════════════════════════════════════
// Validation
// ════════════════════════════════════════════════════════════════

/// Result of checking a Turtle text: its triple count, the blocking errors and
/// the warnings.
#[derive(Debug, Clone)]
pub struct TtlValidation {
    pub triple_count: u64,
    pub errors: Vec<String>,
    pub warnings: Vec<String>,
}

/// All blocking findings on a graph, in the order the rules are run.
pub open spec fn graph_errors(g: Seq<TripleV>) -> Seq<Seq<char>> {
    rdfs_class_errors(g) + mixed_property_errors(g) + iri_naming_errors(g) + swrl_errors(g)
        + subclass_cycle_errors(g) + subclass_declared_errors(g) + subproperty_declared_errors(g)
}

/// All warnings on a graph.
pub open spec fn graph_warnings(g: Seq<TripleV>) -> Seq<Seq<char>> {
    label_lang_warnings(g)
}

/// The message for a text that cannot be loaded.
pub open spec fn msg_syntax(e: Seq<char>) -> Seq<char> {
    "Turtle 语法错误: 其他: "@ + e
}

/// Runs every modelling rule on a graph: (errors, warnings).
pub fn check_graph(g: &Vec<RdfTriple>) -> (r: (Vec<String>, Vec<String>))
    ensures
        strs(r.0@) == graph_errors(graph_view(g@)),
        strs(r.1@) == graph_warnings(graph_view(g@)),
{
    let voc = Vocab::new();
    let mut errors: Vec<String> = Vec::new();
    let mut warnings: Vec<String> = Vec::new();
    assert(strs(errors@) =~= Seq::<Seq<char>>::empty());
    assert(strs(warnings@) =~= Seq::<Seq<char>>::empty());
    check_class_uses_owl_class(g, &voc, &mut errors);
    check_property_not_mixed(g, &voc, &mut errors);
    check_iri_naming(g, &voc, &mut errors);
    check_chinese_labels_have_lang(g, &voc, &mut warnings);
    check_swrl_uses_standard_vocab(g, &voc, &mut errors);
    check_subclass_no_cycle(g, &voc, &mut errors);
    check_subclass_subject_is_class(g, &voc, &mut errors);
    check_subproperty_subject_is_property(g, &voc, &mut errors);
    let ghost gv = graph_view(g@);
    assert(strs(errors@) =~= graph_errors(gv));
    assert(strs(warnings@) =~= graph_warnings(gv));
    (errors, warnings)
}

/// The validation of a loaded graph.
pub fn validation_of_graph(g: &Vec<RdfTriple>) -> (r: TtlValidation)
    ensures
        r.triple_count == g@.len(),
        strs(r.errors@) == graph_errors(graph_view(g@)),
        strs(r.warnings@) == graph_warnings(graph_view(g@)),
{
    let (errors, warnings) = check_graph(g);
    TtlValidation { triple_count: g.len() as u64, errors, warnings }
}

/// The validation of what loading a text gave: a text that could not be
/// loaded has one error, the loader's message, and nothing else; a loaded
/// graph is checked against the modelling rules.
pub fn validation_of_parse(parsed: Result<Vec<RdfTriple>, String>) -> (r: TtlValidation)
    ensures
        match parsed {
            Ok(g) => r.triple_count == g@.len() && strs(r.errors@) == graph_errors(graph_view(g@))
                && strs(r.warnings@) == graph_warnings(graph_view(g@)),
            Err(e) => r.triple_count == 0 && r.warnings@.len() == 0 && strs(r.errors@) == seq![
                msg_syntax(e@),
            ],
        },
{
    match parsed {
        Ok(g) => validation_of_graph(&g),
        Err(e) => {
            let mut m = "Turtle 语法错误: 其他: ".to_owned();
            m.append(e.as_str());
            let mut errors: Vec<String> = Vec::new();
            errors.push(m);
            assert(strs(errors@) =~= seq![msg_syntax(e@)]);
            TtlValidation { triple_count: 0, errors, warnings: Vec::new() }
        },
    }
}

/// Checks a Turtle text: syntax (loading must succeed), then the modelling
/// rules. Errors block an import; warnings do not. A text that does not load
/// has exactly one error, the syntax error, and nothing else; a text that
/// loads is reported by the rules on its graph, and its triple count is the
/// number of distinct triples loaded.
pub fn validate_ttl(ttl_content: &str) -> (r: TtlValidation)
    ensures
        !turtle_loads(ttl_content@, validate_base_iri()) ==> {
            &&& r.triple_count == 0
            &&& r.warnings@.len() == 0
            &&& r.errors@.len() == 1
            &&& exists|e: Seq<char>| r.errors@[0]@ == msg_syntax(e)
        },
        turtle_loads(ttl_content@, validate_base_iri()) ==> exists|g: Seq<RdfTriple>|
            {
                &&& turtle_graph_shape(ttl_content@, validate_base_iri()) == Some(
                    graph_shape(graph_view(g)),
                )
                &&& graph_view(g).no_duplicates()
                &&& r.triple_count == g.len()
                &&& strs(r.errors@) == graph_errors(graph_view(g))
                &&& strs(r.warnings@) == graph_warnings(graph_view(g))
            },
{
    let parsed = parse_ttl_to_memory(ttl_content);
    let ghost p = parsed;
    let r = validation_of_parse(parsed);
    proof {
        match p {
            Ok(g) => {
                assert(r.triple_count == g@.len() && strs(r.errors@) == graph_errors(graph_view(g@))
                    && strs(r.warnings@) == graph_warnings(graph_view(g@)));
            },
            Err(e) => {
                assert(strs(r.errors@).len() == 1);
                assert(r.errors@.len() == 1);
                assert(strs(r.errors@)[0] == r.errors@[0]@);
                assert(r.errors@[0]@ == msg_syntax(e@));
            },
        }
    }
    r
}

// ════════════════════════════════════════════════════════════════
// Ontology metadata
// ════════════════════════════════════════════════════════════════

/// Position `k` holds `(x, rdf:type, owl:Ontology)`.
pub open spec fn is_ontology_decl(t: TripleV) -> bool {
    t.p == rdf_type() && t.o == TermV::Iri(owl_ontology())
}

/// Position `k` holds `(<iri>, owl:versionInfo, v)`.
pub open spec fn is_version_of(t: TripleV, iri: Seq<char>) -> bool {
    t.p == owl_version_info() && t.s == TermV::Iri(iri)
}

/// The ontology IRI of a graph: the subject of its first `a owl:Ontology`
/// triple, printed and stripped of brackets; then its version: the first
/// `owl:versionInfo` of that IRI, printed and stripped of quotes. A blank-node
/// ontology has no version (its label is no IRI to look it up by).
pub open spec fn spec_ontology_meta(g: Seq<TripleV>) -> (Option<Seq<char>>, Option<Seq<char>>) {
    if exists|k: int| 0 <= k < g.len() && is_ontology_decl(#[trigger] g[k]) {
        let k = choose|k: int|
            0 <= k < g.len() && is_ontology_decl(#[trigger] g[k]) && forall|j: int|
                0 <= j < k ==> !is_ontology_decl(#[trigger] g[j]);
        let iri = spec_strip_iri_brackets(term_display(g[k].s));
        let version = if is_iri(g[k].s) {
            spec_version_of(g, iri)
        } else {
            None
        };
        (Some(iri), version)
    } else {
        (None, None)
    }
}

/// The first `owl:versionInfo` value of an IRI, printed and stripped of quotes.
pub open spec fn spec_version_of(g: Seq<TripleV>, iri: Seq<char>) -> Option<Seq<char>> {
    if exists|v: int| 0 <= v < g.len() && is_version_of(#[trigger] g[v], iri) {
        let v = choose|v: int|
            0 <= v < g.len() && is_version_of(#[trigger] g[v], iri) && forall|j: int|
                0 <= j < v ==> !is_version_of(#[trigger] g[j], iri);
        Some(spec_strip_term(term_display(g[v].o)))
    } else {
        None
    }
}

fn find_version(g: &Vec<RdfTriple>, voc: &Vocab, iri: &String) -> (r: Option<String>)
    requires
        voc.wf(),
    ensures
        opt_chars(r) == spec_version_of(graph_view(g@), iri@),
{
    let ghost gv = graph_view(g@);
    let target = RdfTerm::Iri(iri.clone());
    let n = g.len();
    let mut v: usize = 0;
    while v < n
        invariant
            n == g@.len(),
            gv == graph_view(g@),
            voc.wf(),
            v <= n,
            target@ == TermV::Iri(iri@),
            forall|j: int| 0 <= j < v ==> !is_version_of(#[trigger] gv[j], iri@),
        decreases n - v,
    {
        assert(gv[v as int] == g@[v as int]@);
        if g[v].predicate == voc.owl_version_info && term_eq(&g[v].subject, &target) {
            assert(is_version_of(gv[v as int], iri@));
            let od = display_term(&g[v].object);
            let val = strip_term(od.as_str());
            proof {
                let w = choose|w: int|
                    0 <= w < gv.len() && is_version_of(#[trigger] gv[w], iri@) && forall|j: int|
                        0 <= j < w ==> !is_version_of(#[trigger] gv[j], iri@);
                assert(w == v) by {
                    if w > v {
                        assert(!is_version_of(gv[v as int], iri@));
                    }
                }
            }
            return Some(val);
        }
        v = v + 1;
    }
    None
}

pub open spec fn opt_chars(o: Option<String>) -> Option<Seq<char>> {
    opt_str_view(o)
}

/// The ontology IRI and version of a graph.
pub fn ontology_meta(g: &Vec<RdfTriple>) -> (r: (Option<String>, Option<String>))
    ensures
        (opt_chars(r.0), opt_chars(r.1)) == spec_ontology_meta(graph_view(g@)),
{
    let ghost gv = graph_view(g@);
    let voc = Vocab::new();
    let n = g.len();
    let mut k: usize = 0;
    while k < n
        invariant
            n == g@.len(),
            gv == graph_view(g@),
            voc.wf(),
            k <= n,
            forall|j: int| 0 <= j < k ==> !is_ontology_decl(#[trigger] gv[j]),
        decreases n - k,
    {
        assert(gv[k as int] == g@[k as int]@);
        if g[k].predicate == voc.rdf_type && term_is_iri(&g[k].object, &voc.owl_ontology) {
            assert(is_ontology_decl(gv[k as int]));
            let d = display_term(&g[k].subject);
            let iri = strip_iri_brackets(d.as_str());
            let version = if term_is_named(&g[k].subject) {
                find_version(g, &voc, &iri)
            } else {
                None
            };
            proof {
                let w = choose|w: int|
                    0 <= w < gv.len() && is_ontology_decl(#[trigger] gv[w]) && forall|j: int|
                        0 <= j < w ==> !is_ontology_decl(#[trigger] gv[j]);
                assert(w == k) by {
                    if w > k {
                        assert(!is_ontology_decl(gv[k as int]));
                    }
                }
            }
            return (Some(iri), version);
        }
        k = k + 1;
    }
    (None, None)
}

/// The triples hold `<iri> rdf:type owl:Ontology`.
pub open spec fn declares_named_ontology(shape: Set<TripleV>, iri: Seq<char>) -> bool {
    shape.contains(TripleV { s: TermV::Iri(iri), p: rdf_type(), o: TermV::Iri(owl_ontology()) })
}

/// The triples declare the named ontology `iri` and no other ontology.
pub open spec fn sole_named_ontology(shape: Set<TripleV>, iri: Seq<char>) -> bool {
    &&& declares_named_ontology(shape, iri)
    &&& forall|t: TripleV| #[trigger] shape.contains(t) && is_ontology_decl(t) ==> t.s == TermV::Iri(iri)
}

/// A text whose triples declare a named ontology.
pub open spec fn text_declares_named_ontology(ttl: Seq<char>, base: Seq<char>) -> bool {
    turtle_graph_shape(ttl, base) matches Some(gs) && exists|i: Seq<char>|
        declares_named_ontology(gs, i)
}

/// A graph whose triples declare a named ontology has an ontology IRI.
pub proof fn lemma_named_declaration_found(g: Seq<TripleV>, i: Seq<char>)
    requires
        declares_named_ontology(graph_shape(g), i),
    ensures
        spec_ontology_meta(g).0 is Some,
{
    let t = TripleV { s: TermV::Iri(i), p: rdf_type(), o: TermV::Iri(owl_ontology()) };
    assert(graph_shape(g).contains(t));
    let k = choose|k: int| 0 <= k < g.len() && erase_triple(#[trigger] g[k]) == t;
    assert(is_ontology_decl(g[k]));
}

/// In a graph whose only ontology, declared and named, is `i`, the ontology
/// IRI is `i`.
pub proof fn lemma_sole_ontology(g: Seq<TripleV>, i: Seq<char>)
    requires
        sole_named_ontology(graph_shape(g), i),
    ensures
        spec_ontology_meta(g).0 == Some(i),
{
    lemma_named_declaration_found(g, i);
    let k0 = choose|k: int| 0 <= k < g.len() && is_ontology_decl(#[trigger] g[k]);
    lemma_first_decl(g, k0);
    let k = choose|k: int|
        0 <= k < g.len() && is_ontology_decl(#[trigger] g[k]) && forall|j: int|
            0 <= j < k ==> !is_ontology_decl(#[trigger] g[j]);
    let e = erase_triple(g[k]);
    assert(graph_shape(g).contains(e));
    assert(is_ontology_decl(e));
    assert(e.s == TermV::Iri(i));
    assert(g[k].s == TermV::Iri(i));
    let d = seq!['<'] + i + seq!['>'];
    assert(d.drop_first() =~= i + seq!['>']);
    assert((i + seq!['>']).drop_last() =~= i);
}

/// The printed form of a blank node: `_:` and its label.
pub open spec fn is_blank_display(s: Seq<char>) -> bool {
    s.len() >= 2 && s[0] == '_' && s[1] == ':'
}

/// A graph with an ontology declaration has a first one.
proof fn lemma_first_decl(g: Seq<TripleV>, k0: int)
    requires
        0 <= k0 < g.len(),
        is_ontology_decl(g[k0]),
    ensures
        exists|k: int|
            0 <= k < g.len() && is_ontology_decl(#[trigger] g[k]) && forall|j: int|
                0 <= j < k ==> !is_ontology_decl(#[trigger] g[j]),
    decreases k0,
{
    if exists|j: int| 0 <= j < k0 && is_ontology_decl(#[trigger] g[j]) {
        let j = choose|j: int| 0 <= j < k0 && is_ontology_decl(#[trigger] g[j]);
        lemma_first_decl(g, j);
    } else {
        assert(forall|j: int| 0 <= j < k0 ==> !is_ontology_decl(#[trigger] g[j]));
    }
}

/// The ontology IRI of a graph is one that its triples declare, or the
/// printed label of a blank node.
pub proof fn lemma_meta_iri_declared(g: Seq<TripleV>)
    requires
        no_literal_subject(g),
        spec_ontology_meta(g).0 is Some,
    ensures
        declares_named_ontology(graph_shape(g), spec_ontology_meta(g).0->Some_0)
            || is_blank_display(spec_ontology_meta(g).0->Some_0),
{
    let k0 = choose|k: int| 0 <= k < g.len() && is_ontology_decl(#[trigger] g[k]);
    lemma_first_decl(g, k0);
    let k = choose|k: int|
        0 <= k < g.len() && is_ontology_decl(#[trigger] g[k]) && forall|j: int|
            0 <= j < k ==> !is_ontology_decl(#[trigger] g[j]);
    let iri = spec_ontology_meta(g).0->Some_0;
    assert(iri == spec_strip_iri_brackets(term_display(g[k].s)));
    assert(!(g[k].s is Literal));
    match g[k].s {
        TermV::Iri(x) => {
            let d = seq!['<'] + x + seq!['>'];
            assert(d.drop_first() =~= x + seq!['>']);
            assert((x + seq!['>']).drop_last() =~= x);
            assert(iri =~= x);
            let t = TripleV { s: TermV::Iri(x), p: rdf_type(), o: TermV::Iri(owl_ontology()) };
            assert(g[k] == t);
            assert(erase_triple(g[k]) == t);
            assert(graph_shape(g).contains(t));
        },
        TermV::Blank(b) => {
            let d = seq!['_', ':'] + b;
            assert(d[0] == '_' && d[1] == ':');
        },
        TermV::Literal(_, _, _) => {},
    }
}

/// The ontology IRI and version declared by a Turtle text; `(None, None)`
/// when the text cannot be loaded or declares no ontology. A text that loads
/// and declares a named ontology always gives an IRI.
pub fn extract_ontology_meta(ttl: &str, warnings: &mut Vec<String>) -> (r: (
    Option<String>,
    Option<String>,
))
    ensures
        final(warnings)@ == old(warnings)@,
        r.0 is None ==> r.1 is None,
        !turtle_loads(ttl@, validate_base_iri()) ==> r.0 is None && r.1 is None,
        turtle_loads(ttl@, validate_base_iri()) ==> exists|g: Seq<RdfTriple>|
            turtle_graph_shape(ttl@, validate_base_iri()) == Some(graph_shape(graph_view(g)))
                && (opt_chars(r.0), opt_chars(r.1)) == spec_ontology_meta(graph_view(g)),
        text_declares_named_ontology(ttl@, validate_base_iri()) ==> r.0 is Some,
        forall|i: Seq<char>|
            #![trigger sole_named_ontology(turtle_graph_shape(ttl@, validate_base_iri())->Some_0, i)]
            turtle_loads(ttl@, validate_base_iri()) && sole_named_ontology(
                turtle_graph_shape(ttl@, validate_base_iri())->Some_0,
                i,
            ) ==> opt_chars(r.0) == Some(i),
        r.0 matches Some(iri) ==> turtle_graph_shape(ttl@, validate_base_iri()) matches Some(gs)
            && (declares_named_ontology(gs, iri@) || is_blank_display(iri@)),
{
    match parse_ttl_to_memory(ttl) {
        Ok(g) => {
            let r = ontology_meta(&g);
            proof {
                let gv = graph_view(g@);
                if !(exists|k: int| 0 <= k < gv.len() && is_ontology_decl(#[trigger] gv[k])) {
                    assert(r.0 is None && r.1 is None);
                }
                if text_declares_named_ontology(ttl@, validate_base_iri()) {
                    let i = choose|i: Seq<char>| declares_named_ontology(graph_shape(gv), i);
                    lemma_named_declaration_found(gv, i);
                }
                if spec_ontology_meta(gv).0 is Some {
                    lemma_meta_iri_declared(gv);
                }
                assert forall|i: Seq<char>| sole_named_ontology(graph_shape(gv), i) implies opt_chars(r.0)
                    == Some(i) by {
                    lemma_sole_ontology(gv, i);
                }
            }
            r
        },
        Err(_) => (None, None),
    }
}

} // verus!
