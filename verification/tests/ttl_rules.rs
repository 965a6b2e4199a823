use onto_studio::ttl::{
    validation_of_parse,
    extract_local_name, extract_ontology_meta, inject_common_prefixes, is_camel_case,
    is_pascal_case, strip_iri_brackets, strip_term, validate_ttl,
};
use onto_studio::ttl_import::{
    plan_ttl_import, skipped_ttl_import, stored_ttl_import, ttl_import_skips, TtlCharter,
    TtlImportPlan,
};

fn sample_ttl() -> &'static str {
    r#"@prefix rdf: <http://www.w3.org/1999/02/22-rdf-syntax-ns#> .
@prefix rdfs: <http://www.w3.org/2000/01/rdf-schema#> .
@prefix owl: <http://www.w3.org/2002/07/owl#> .
@prefix xsd: <http://www.w3.org/2001/XMLSchema#> .
@prefix : <https://example.org/ontology/test#> .

:TestOntology a owl:Ontology ;
    rdfs:label "测试本体"@zh ;
    owl:versionInfo "1.0.0" .

:Supplier a owl:Class ;
    rdfs:label "供应商"@zh ;
    rdfs:comment "采购供应商 [confirmed]"@zh .

:supplierId a owl:DatatypeProperty ;
    rdfs:domain :Supplier ;
    rdfs:range xsd:string ;
    rdfs:label "供应商编号"@zh .

:supplies a owl:ObjectProperty ;
    rdfs:domain :Supplier ;
    rdfs:range :Supplier ;
    rdfs:label "供货"@zh .
"#
}

#[test]
fn validate_accepts_clean_ttl() {
    let r = validate_ttl(sample_ttl());
    assert!(r.errors.is_empty(), "errors should be empty: {:?}", r.errors);
    assert!(r.triple_count > 0);
}

#[test]
fn validate_rejects_rdfs_class() {
    let bad = r#"@prefix rdfs: <http://www.w3.org/2000/01/rdf-schema#> .
@prefix : <https://example.org/ontology/test#> .
:Foo a rdfs:Class .
"#;
    let r = validate_ttl(bad);
    assert!(r.errors.iter().any(|e| e.contains("owl:Class")));
}

#[test]
fn validate_rejects_mixed_property() {
    let bad = r#"@prefix owl: <http://www.w3.org/2002/07/owl#> .
@prefix : <https://example.org/ontology/test#> .
:p a owl:DatatypeProperty, owl:ObjectProperty .
"#;
    let r = validate_ttl(bad);
    assert!(r.errors.iter().any(|e| e.contains("混用")));
}

#[test]
fn validate_rejects_bad_iri_naming() {
    let bad = r#"@prefix owl: <http://www.w3.org/2002/07/owl#> .
@prefix : <https://example.org/ontology/test#> .
:supplier a owl:Class .
"#;
    let r = validate_ttl(bad);
    assert!(r.errors.iter().any(|e| e.contains("PascalCase")));
}

fn sample_ttl_with_subclass_missing_decl() -> &'static str {
    r#"@prefix rdf: <http://www.w3.org/1999/02/22-rdf-syntax-ns#> .
@prefix rdfs: <http://www.w3.org/2000/01/rdf-schema#> .
@prefix owl: <http://www.w3.org/2002/07/owl#> .
@prefix xsd: <http://www.w3.org/2001/XMLSchema#> .
@prefix : <https://example.org/ontology/test#> .

:TestOntology a owl:Ontology ;
    rdfs:label "测试本体"@zh ;
    owl:versionInfo "1.0.0" .

:Supplier a owl:Class ;
    rdfs:label "供应商"@zh .

# Anchor 用了 subClassOf 但缺 a owl:Class——应被校验拦住
:Anchor rdfs:subClassOf :Supplier ;
    rdfs:label "主播"@zh .
"#
}

#[test]
fn validate_rejects_subclass_missing_owl_class() {
    let r = validate_ttl(sample_ttl_with_subclass_missing_decl());
    assert!(
        r.errors.iter().any(|e| e.contains("subClassOf") && e.contains("a owl:Class")),
        "errors: {:?}",
        r.errors
    );
}

#[test]
fn validate_accepts_subclass_with_owl_class() {
    let ttl = r#"@prefix owl: <http://www.w3.org/2002/07/owl#> .
@prefix rdfs: <http://www.w3.org/2000/01/rdf-schema#> .
@prefix : <https://example.org/ontology/test#> .
:TestOntology a owl:Ontology ; rdfs:label "测试"@zh .
:Supplier a owl:Class ; rdfs:label "供应商"@zh .
:Anchor a owl:Class ; rdfs:subClassOf :Supplier ; rdfs:label "主播"@zh .
"#;
    let r = validate_ttl(ttl);
    assert!(r.errors.is_empty(), "errors: {:?}", r.errors);
}

#[test]
fn validate_reports_syntax_errors_only() {
    let r = validate_ttl("this is not turtle .");
    assert_eq!(r.triple_count, 0);
    assert_eq!(r.errors.len(), 1);
    assert!(r.errors[0].starts_with("Turtle 语法错误: 其他: "));
    assert!(r.warnings.is_empty());
}

#[test]
fn validate_counts_triples() {
    let r = validate_ttl(sample_ttl());
    assert_eq!(r.triple_count, 14);
}

#[test]
fn validate_finds_subclass_cycle() {
    let ttl = r#"@prefix owl: <http://www.w3.org/2002/07/owl#> .
@prefix rdfs: <http://www.w3.org/2000/01/rdf-schema#> .
@prefix : <https://example.org/ontology/test#> .
:A a owl:Class ; rdfs:subClassOf :B .
:B a owl:Class ; rdfs:subClassOf :A .
"#;
    let r = validate_ttl(ttl);
    assert!(r.errors.iter().any(|e| e.contains("循环继承")), "errors: {:?}", r.errors);
}

#[test]
fn validate_warns_on_chinese_label_without_language() {
    let ttl = r#"@prefix owl: <http://www.w3.org/2002/07/owl#> .
@prefix rdfs: <http://www.w3.org/2000/01/rdf-schema#> .
@prefix : <https://example.org/ontology/test#> .
:Supplier a owl:Class ; rdfs:label "供应商" .
"#;
    let r = validate_ttl(ttl);
    assert!(r.errors.is_empty(), "errors: {:?}", r.errors);
    assert_eq!(r.warnings.len(), 1);
    assert!(r.warnings[0].contains("@zh"));
}

#[test]
fn validate_rejects_swrl_rule_without_imp() {
    let ttl = r#"@prefix swrl: <http://www.w3.org/2003/11/swrl#> .
@prefix : <https://example.org/ontology/test#> .
:rule1 swrl:body :x ; swrl:head :y .
"#;
    let r = validate_ttl(ttl);
    assert!(r.errors.iter().any(|e| e.contains("swrl:Imp")), "errors: {:?}", r.errors);
}

#[test]
fn validate_rejects_undeclared_sub_property() {
    let ttl = r#"@prefix owl: <http://www.w3.org/2002/07/owl#> .
@prefix rdfs: <http://www.w3.org/2000/01/rdf-schema#> .
@prefix : <https://example.org/ontology/test#> .
:name a owl:DatatypeProperty .
:nickName rdfs:subPropertyOf :name .
"#;
    let r = validate_ttl(ttl);
    assert!(r.errors.iter().any(|e| e.contains("subPropertyOf")), "errors: {:?}", r.errors);
}

#[test]
fn local_names_and_stripping() {
    assert_eq!(extract_local_name("<https://example.org/ontology/test#Supplier>"), "Supplier");
    assert_eq!(extract_local_name("https://example.org/a/b/Part"), "Part");
    assert_eq!(extract_local_name("https://example.org/a/"), "");
    assert_eq!(strip_iri_brackets("<urn:x>"), "urn:x");
    assert_eq!(strip_iri_brackets("urn:x"), "urn:x");
    assert_eq!(strip_term("\"1.0.0\""), "1.0.0");
    assert_eq!(strip_term("<urn:y>"), "urn:y");
    assert_eq!(strip_term("\""), "\"");
}

#[test]
fn case_styles_of_local_names() {
    assert!(is_pascal_case("Supplier"));
    assert!(!is_pascal_case("supplier"));
    assert!(!is_pascal_case("Sup_plier"));
    assert!(!is_pascal_case(""));
    assert!(is_camel_case("supplierId"));
    assert!(!is_camel_case("SupplierId"));
    assert!(!is_camel_case("supplier-id"));
}

#[test]
fn prefixes_are_injected_once() {
    let q = "SELECT ?c WHERE { ?c a owl:Class . }";
    let once = inject_common_prefixes(q);
    assert!(once.starts_with("PREFIX rdf: <http://www.w3.org/1999/02/22-rdf-syntax-ns#>\n"));
    assert!(once.ends_with(q));
    assert_eq!(inject_common_prefixes(&once), once);
    let declared = "PREFIX ex: <urn:ex#> SELECT * WHERE { ?s ?p ?o }";
    assert_eq!(inject_common_prefixes(declared), declared);
}

#[test]
fn ontology_meta_of_a_text() {
    let mut warnings: Vec<String> = Vec::new();
    let (iri, version) = extract_ontology_meta(sample_ttl(), &mut warnings);
    assert_eq!(iri.as_deref(), Some("https://example.org/ontology/test#TestOntology"));
    assert_eq!(version.as_deref(), Some("1.0.0"));
    assert!(warnings.is_empty());
    let (none, no_version) = extract_ontology_meta("not turtle", &mut warnings);
    assert!(none.is_none() && no_version.is_none());
}

#[test]
fn import_plan_stores_declared_ontology() {
    match plan_ttl_import(sample_ttl()) {
        TtlImportPlan::Store { ontology_iri, version, triple_count, warnings } => {
            assert_eq!(ontology_iri, "https://example.org/ontology/test#TestOntology");
            assert_eq!(version.as_deref(), Some("1.0.0"));
            assert_eq!(triple_count, 14);
            assert!(warnings.is_empty());
        }
        TtlImportPlan::Answer(_) => panic!("the text declares an ontology"),
    }
}

#[test]
fn import_plan_answers_when_no_ontology_is_declared() {
    let ttl = r#"@prefix owl: <http://www.w3.org/2002/07/owl#> .
@prefix : <https://example.org/ontology/test#> .
:Supplier a owl:Class .
"#;
    match plan_ttl_import(ttl) {
        TtlImportPlan::Answer(r) => {
            assert_eq!(r.ontology_iri, "");
            assert_eq!(r.triple_count, 0);
            assert_eq!(r.errors, vec!["未找到 owl:Ontology 声明，无法确定本体 IRI".to_string()]);
        }
        TtlImportPlan::Store { .. } => panic!("no ontology is declared"),
    }
}

#[test]
fn import_plan_of_a_blank_node_ontology_uses_its_label() {
    let ttl = r#"@prefix owl: <http://www.w3.org/2002/07/owl#> .
[] a owl:Ontology .
"#;
    match plan_ttl_import(ttl) {
        TtlImportPlan::Store { ontology_iri, version, triple_count, .. } => {
            assert!(ontology_iri.starts_with("_:"), "{ontology_iri}");
            assert_eq!(version, None);
            assert_eq!(triple_count, 1);
        }
        TtlImportPlan::Answer(_) => panic!("the text declares an ontology"),
    }
}

#[test]
fn import_plan_of_an_unloadable_text_is_the_no_ontology_answer() {
    match plan_ttl_import("@prefix : <broken") {
        TtlImportPlan::Answer(r) => {
            assert_eq!(r.errors, vec!["未找到 owl:Ontology 声明，无法确定本体 IRI".to_string()]);
            assert!(r.warnings.is_empty());
        }
        TtlImportPlan::Store { .. } => panic!("the text does not load"),
    }
}

#[test]
fn import_overwrite_false_skips_existing() {
    assert!(ttl_import_skips(false, true));
    assert!(!ttl_import_skips(true, true));
    assert!(!ttl_import_skips(false, false));
    let r = skipped_ttl_import("urn:o".to_string(), 3, Vec::new());
    assert!(r.warnings.iter().any(|w| w.contains("已跳过")));
    assert!(r.errors.is_empty());
    assert_eq!(r.triple_count, 3);
}

#[test]
fn stored_import_reports_write_failures() {
    let ok = stored_ttl_import("urn:o".to_string(), 2, Vec::new(), None);
    assert!(ok.errors.is_empty());
    let failed = stored_ttl_import("urn:o".to_string(), 2, Vec::new(), Some("disk full".to_string()));
    assert_eq!(failed.errors, vec!["SQLite 写入失败: disk full".to_string()]);
}

#[test]
fn charter_for_unknown_ontology_returns_empty() {
    let c = TtlCharter::default();
    assert!(c.business_scenario.is_empty());
    assert!(c.updated_by.is_empty());
    assert_eq!(c.updated_at, 0);
}

#[test]
fn a_failed_load_is_one_syntax_error() {
    let v = validation_of_parse(Err("unexpected end of file".to_string()));
    assert_eq!(v.triple_count, 0);
    assert_eq!(v.errors, vec!["Turtle 语法错误: 其他: unexpected end of file".to_string()]);
    assert!(v.warnings.is_empty());
    let empty = validation_of_parse(Ok(Vec::new()));
    assert_eq!(empty.triple_count, 0);
    assert!(empty.errors.is_empty() && empty.warnings.is_empty());
}
