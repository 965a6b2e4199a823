use onto_studio::changelog::{
    charter_author, check_changelog_entry, check_changelog_size, next_revision, ttl_changelog_target_missing,
};
use onto_studio::error::StoreError;
use onto_studio::import::{
    dataset_results_push, entity_failure, failed_result, item_result, link_failure,
    ontology_import_status, upsert_decision, Upsert,
};
use onto_studio::payload::{
    ActionTypeDef, BackingMapping, Capabilities, DataSourceDef, DatasetDef, ImportItemResult,
    ImportRequest, LinkDef, ObjectTypeDef, ObjectTypeGroupDef, OntologyPayload, PropertyDef,
};
use onto_studio::import_steps::{assemble_import_result, first_import_step, next_import_step, ImportStep, StepOutcome};
use onto_studio::preview::{plan_preview, ExistingEntities};
use onto_studio::store::{check_data_source_deletable, check_dataset_deletable};

fn prop(api_name: &str, pk: Option<bool>) -> PropertyDef {
    PropertyDef {
        api_name: api_name.to_string(),
        display_name: api_name.to_string(),
        description: String::new(),
        data_type: "STRING".to_string(),
        searchable: true,
        is_primary_key: pk,
        is_title_property: None,
        backing_mapping: None,
        vector_config: None,
        confidence: None,
    }
}

fn sample_payload() -> OntologyPayload {
    OntologyPayload {
        api_name: "SupplyChain".to_string(),
        display_name: "供应链本体".to_string(),
        description: "测试用".to_string(),
        object_types: vec![ObjectTypeDef {
            api_name: "Supplier".to_string(),
            display_name: "供应商".to_string(),
            description: String::new(),
            primary_key: "supplierId".to_string(),
            title_property: "name".to_string(),
            storage_type: "MANAGED".to_string(),
            visibility: "NORMAL".to_string(),
            capabilities: Capabilities::default(),
            properties: vec![prop("supplierId", Some(true)), prop("name", Some(false))],
            links: vec![],
            confidence: None,
        }],
        action_types: vec![],
        datasets: vec![],
        data_sources: vec![],
        object_type_groups: vec![],
    }
}

fn nothing_stored() -> ExistingEntities {
    ExistingEntities {
        ontology_exists: false,
        object_types: vec![],
        datasets: vec![],
        data_sources: vec![],
        object_type_groups: vec![],
    }
}

fn link(api_name: &str, target: &str) -> LinkDef {
    LinkDef {
        api_name: api_name.to_string(),
        display_name: "供应".to_string(),
        description: String::new(),
        target_object_type_api_name: target.to_string(),
        foreign_key_property_api_name: None,
        cardinality: "MANY".to_string(),
        weight_property: None,
        temporal: false,
        confidence: None,
    }
}

fn request(payload: OntologyPayload) -> ImportRequest {
    ImportRequest { payload, overwrite_object_types: vec![], overwrite_data_sources: vec![] }
}

#[test]
fn preview_catches_missing_primary_key() {
    let mut payload = sample_payload();
    payload.object_types[0].properties[0].is_primary_key = Some(false);
    let preview = plan_preview(&request(payload), &nothing_stored()).ok().unwrap();
    assert!(preview.errors.iter().any(|e| e.contains("必须有且仅一个 is_primary_key")));
    assert_eq!(
        preview.errors,
        vec!["ObjectType 'Supplier' 必须有且仅一个 is_primary_key=true 的属性（当前 0 个）".to_string()]
    );
}

#[test]
fn preview_catches_dangling_link_target() {
    let mut payload = sample_payload();
    payload.object_types[0].links.push(link("supplies", "NonExistent"));
    let preview = plan_preview(&request(payload), &nothing_stored()).ok().unwrap();
    assert!(preview.errors.iter().any(|e| e.contains("NonExistent") && e.contains("不存在")));
    assert_eq!(preview.links.len(), 1);
    assert_eq!(preview.links[0].status, "create");
    assert_eq!(preview.links[0].reason, "(via Supplier)");
}

#[test]
fn invalid_api_name_rejected() {
    let mut payload = sample_payload();
    payload.object_types[0].api_name = "supplier".to_string();
    let preview = plan_preview(&request(payload), &nothing_stored());
    assert!(preview.is_err());
}

#[test]
fn clean_payload_previews_without_errors() {
    let preview = plan_preview(&request(sample_payload()), &nothing_stored()).ok().unwrap();
    assert_eq!(preview.ontology_api_name, "SupplyChain");
    assert_eq!(preview.ontology_status, "create");
    assert_eq!(preview.object_types.len(), 1);
    assert_eq!(preview.object_types[0].api_name, "Supplier");
    assert_eq!(preview.object_types[0].status, "create");
    assert_eq!(preview.object_types[0].reason, "");
    assert!(preview.errors.is_empty());
    assert!(preview.warnings.is_empty());
}

#[test]
fn existing_object_types_are_skipped_unless_overwritten() {
    let stored = ExistingEntities {
        ontology_exists: true,
        object_types: vec!["Supplier".to_string()],
        datasets: vec![],
        data_sources: vec![],
        object_type_groups: vec![],
    };
    let skipped = plan_preview(&request(sample_payload()), &stored).ok().unwrap();
    assert_eq!(skipped.ontology_status, "skip");
    assert_eq!(skipped.object_types[0].status, "skip");
    assert_eq!(skipped.object_types[0].reason, "同名已存在且未列入 overwrite_object_types");
    let mut req = request(sample_payload());
    req.overwrite_object_types = vec!["Supplier".to_string()];
    let overwritten = plan_preview(&req, &stored).ok().unwrap();
    assert_eq!(overwritten.object_types[0].status, "overwrite");
    assert_eq!(overwritten.object_types[0].reason, "");
}

#[test]
fn stored_object_types_resolve_links_and_actions() {
    let mut payload = sample_payload();
    payload.object_types[0].links.push(link("supplies", "Part"));
    payload.action_types.push(ActionTypeDef {
        api_name: "approvePart".to_string(),
        display_name: "审批".to_string(),
        description: String::new(),
        affected_object_type_api_name: "Part".to_string(),
        parameters: vec![],
        rules: vec![],
        submission_criteria: vec![],
        effects: vec![],
        ontology_rules: vec![],
        risk_level: "low".to_string(),
        operation_kind: "mixed".to_string(),
        batch_enabled: false,
        confidence: None,
    });
    let none = plan_preview(&request(payload.clone()), &nothing_stored()).ok().unwrap();
    assert_eq!(
        none.errors,
        vec![
            "LinkType 'Supplier.supplies' 的 target_object_type_api_name 'Part' 在本体内不存在".to_string(),
            "ActionType 'approvePart' 的 affected_object_type_api_name 'Part' 在本体内不存在".to_string(),
        ]
    );
    assert_eq!(none.actions.len(), 1);
    assert_eq!(none.actions[0].status, "create");
    let stored = ExistingEntities {
        ontology_exists: true,
        object_types: vec!["Part".to_string()],
        datasets: vec![],
        data_sources: vec![],
        object_type_groups: vec![],
    };
    let resolved = plan_preview(&request(payload), &stored).ok().unwrap();
    assert!(resolved.errors.is_empty(), "errors: {:?}", resolved.errors);
}

#[test]
fn datasets_sources_and_groups_are_predicted() {
    let mut payload = sample_payload();
    payload.datasets.push(DatasetDef {
        api_name: "orders".to_string(),
        display_name: "订单".to_string(),
        storage_location: String::new(),
        partition_config: None,
        source_dataset_api_name: None,
        data_source_api_name: Some("erp".to_string()),
        kind: "MANAGED".to_string(),
        is_view: false,
        confidence: None,
    });
    let mut config = serde_json::Map::new();
    config.insert("host".to_string(), serde_json::Value::String("db".to_string()));
    config.insert("password".to_string(), serde_json::Value::String("secret".to_string()));
    payload.data_sources.push(DataSourceDef {
        api_name: "erp".to_string(),
        display_name: "ERP".to_string(),
        description: String::new(),
        connector_type: "postgres".to_string(),
        connector_config: serde_json::Value::Object(config),
        credential_id: None,
        confidence: None,
    });
    payload.object_type_groups.push(ObjectTypeGroupDef {
        api_name: "Core".to_string(),
        display_name: "核心".to_string(),
        description: String::new(),
        members: vec!["Supplier".to_string()],
        confidence: None,
    });
    let stored = ExistingEntities {
        ontology_exists: true,
        object_types: vec![],
        datasets: vec!["orders".to_string()],
        data_sources: vec!["erp".to_string()],
        object_type_groups: vec![],
    };
    let p = plan_preview(&request(payload.clone()), &stored).ok().unwrap();
    assert_eq!(p.datasets[0].status, "skip");
    assert_eq!(p.datasets[0].reason, "同名已存在");
    assert_eq!(p.data_sources[0].status, "skip");
    assert_eq!(p.data_sources[0].reason, "同名已存在");
    assert_eq!(p.object_type_groups[0].status, "create");
    assert_eq!(
        p.warnings,
        vec!["DataSource 'erp' 的 connector_config 含明文 password，建议改用 credential".to_string()]
    );
    let mut req = request(payload);
    req.overwrite_data_sources = vec!["erp".to_string()];
    let p2 = plan_preview(&req, &stored).ok().unwrap();
    assert_eq!(p2.data_sources[0].status, "overwrite");
    assert_eq!(p2.data_sources[0].reason, "");
}

#[test]
fn virtual_properties_without_backing_are_warned() {
    let mut payload = sample_payload();
    payload.object_types[0].storage_type = "VIRTUAL".to_string();
    payload.object_types[0].properties[1].backing_mapping = Some(BackingMapping::default());
    let p = plan_preview(&request(payload), &nothing_stored()).ok().unwrap();
    assert_eq!(
        p.warnings,
        vec!["VIRTUAL ObjectType 'Supplier' 的属性 'supplierId' 缺 backing_mapping（虚拟类型通常需声明物理列映射）".to_string()]
    );
}

#[test]
fn validation_errors_come_in_order() {
    let mut bad_type = sample_payload();
    bad_type.object_types[0].properties[1].data_type = "BIGINT".to_string();
    match plan_preview(&request(bad_type), &nothing_stored()) {
        Err(StoreError::InvalidDataType(t)) => assert_eq!(t, "BIGINT"),
        _ => panic!("expected an invalid data type"),
    }
    let mut bad_storage = sample_payload();
    bad_storage.object_types[0].storage_type = "REMOTE".to_string();
    match plan_preview(&request(bad_storage), &nothing_stored()) {
        Err(e) => assert_eq!(e.message(), "其他: storage_type 必须是 MANAGED 或 VIRTUAL，got 'REMOTE'"),
        Ok(_) => panic!("expected a storage error"),
    }
    let mut bad_link = sample_payload();
    let mut l = link("supplies", "Supplier");
    l.cardinality = "SOME".to_string();
    bad_link.object_types[0].links.push(l);
    match plan_preview(&request(bad_link), &nothing_stored()) {
        Err(e) => assert_eq!(e.message(), "其他: cardinality 必须是 ONE 或 MANY，got 'SOME'"),
        Ok(_) => panic!("expected a cardinality error"),
    }
    let mut bad_group = sample_payload();
    bad_group.object_type_groups.push(ObjectTypeGroupDef {
        api_name: "core".to_string(),
        display_name: String::new(),
        description: String::new(),
        members: vec![],
        confidence: None,
    });
    match plan_preview(&request(bad_group), &nothing_stored()) {
        Err(e) => assert_eq!(
            e.message(),
            "api_name 校验失败: ObjectTypeGroup 'core' 不符合 ^[A-Z][a-zA-Z0-9]{0,99}$"
        ),
        Ok(_) => panic!("expected a group name error"),
    }
}

#[test]
fn upsert_decisions_match_the_preview() {
    assert!(matches!(upsert_decision(false, false), Upsert::Created));
    assert!(matches!(upsert_decision(false, true), Upsert::Created));
    assert!(matches!(upsert_decision(true, true), Upsert::Overwritten));
    assert!(matches!(upsert_decision(true, false), Upsert::Skipped));
    assert_eq!(item_result("Supplier", Upsert::Overwritten).status, "overwritten");
    assert_eq!(item_result("Supplier", Upsert::Skipped).status, "skipped");
    assert_eq!(ontology_import_status(true), "existed");
    assert_eq!(ontology_import_status(false), "created");
}

#[test]
fn failures_are_recorded_with_their_message() {
    let e = StoreError::NotFound("x".to_string());
    let msg = entity_failure("ObjectType", "Supplier", &e);
    assert_eq!(msg, "ObjectType 'Supplier': 实体未找到: x");
    let r = failed_result("Supplier", msg.clone());
    assert_eq!(r.status, "failed");
    assert_eq!(r.error, Some(msg));
    assert_eq!(link_failure("Supplier", "supplies", &e), "Link 'Supplier.supplies': 实体未找到: x");
    let mut v: Vec<ImportItemResult> = Vec::new();
    dataset_results_push(&mut v, "orders", "created", None);
    assert_eq!(v.len(), 1);
    assert_eq!(v[0].api_name, "orders");
    assert_eq!(v[0].status, "created");
}

#[test]
fn changelog_enforces_size_limits() {
    let big_body = "x".repeat(501);
    assert!(check_changelog_size("ttl_changelog", "t", &big_body, "{}").is_err());
    let long_title = "x".repeat(501);
    match check_changelog_size("changelog", &long_title, "", "{}") {
        Err(e) => {
            assert!(e.message().contains("500"));
            assert_eq!(e.message(), "api_name 校验失败: changelog 'title+body=501' 不符合 title+body <= 500 chars");
        }
        Ok(()) => panic!("title+body over 500 must be refused"),
    }
    let big_summary = "y".repeat(999);
    match check_changelog_size("changelog", "t", "b", &big_summary) {
        Err(e) => {
            assert!(e.message().contains("1000"));
            assert_eq!(e.message(), "api_name 校验失败: changelog 'total=1001' 不符合 total <= 1000 chars");
        }
        Ok(()) => panic!("a whole entry over 1000 must be refused"),
    }
    assert!(check_changelog_size("changelog", "标题", "正文", "{}").is_ok());
    let exactly = "字".repeat(500);
    assert!(check_changelog_size("changelog", &exactly, "", "").is_ok());
}

#[test]
fn charter_author_defaults_to_agent() {
    assert_eq!(charter_author(""), "agent");
    assert_eq!(charter_author("user"), "user");
}

#[test]
fn changelog_rejects_unknown_ontology() {
    let e = ttl_changelog_target_missing("urn:none");
    assert!(matches!(e, StoreError::NotFound(_)));
    assert_eq!(e.message(), "实体未找到: 本体 'urn:none' 未找到，无法提交 changelog");
}

#[test]
fn delete_dataset_refuses_when_referenced() {
    let ots = vec!["Supplier".to_string()];
    let views = vec!["orders_view".to_string()];
    match check_dataset_deletable("orders", &ots, &views) {
        Err(e) => assert_eq!(
            e.message(),
            "引用完整性违反: dataset 'orders' 被引用，先解除引用再删除：ObjectType Supplier, Dataset orders_view"
        ),
        Ok(()) => panic!("a referenced dataset must not be deleted"),
    }
    assert!(check_dataset_deletable("orders", &vec![], &vec![]).is_ok());
}

#[test]
fn delete_data_source_refuses_when_dataset_bound() {
    let bound = vec!["orders".to_string(), "items".to_string()];
    match check_data_source_deletable("erp", &bound) {
        Err(e) => assert_eq!(
            e.message(),
            "引用完整性违反: data_source 'erp' 被引用，先解除引用再删除：orders, items"
        ),
        Ok(()) => panic!("a bound data source must not be deleted"),
    }
    assert!(check_data_source_deletable("erp", &vec![]).is_ok());
}

#[test]
fn incremental_skip_then_overwrite() {
    let payload = sample_payload();
    let ot = &payload.object_types[0].api_name;
    // first import: nothing stored yet
    let r1 = item_result(ot, upsert_decision(false, false));
    assert_eq!(r1.status, "created");
    // second import without overwrite: skipped
    let r2 = item_result(ot, upsert_decision(true, false));
    assert_eq!(r2.status, "skipped");
    // third import listing it for overwrite: overwritten
    let overwrite = vec!["Supplier".to_string()];
    let r3 = item_result(ot, upsert_decision(true, overwrite.contains(ot)));
    assert_eq!(r3.status, "overwritten");
}

#[test]
fn preview_data_source_overwrite_prediction() {
    let mut payload = sample_payload();
    let mut config = serde_json::Map::new();
    config.insert("host".to_string(), serde_json::Value::String("localhost".to_string()));
    payload.data_sources.push(DataSourceDef {
        api_name: "erp_postgres".to_string(),
        display_name: "ERP 数据库".to_string(),
        description: String::new(),
        connector_type: "postgresql".to_string(),
        connector_config: serde_json::Value::Object(config),
        credential_id: None,
        confidence: None,
    });
    // what the store holds after the payload was imported once
    let stored = ExistingEntities {
        ontology_exists: true,
        object_types: vec!["Supplier".to_string()],
        datasets: vec![],
        data_sources: vec!["erp_postgres".to_string()],
        object_type_groups: vec![],
    };
    let p1 = plan_preview(&request(payload.clone()), &stored).ok().unwrap();
    assert_eq!(p1.data_sources[0].status, "skip");
    assert!(p1.data_sources[0].reason.contains("同名已存在"));
    let mut req = request(payload);
    req.overwrite_data_sources = vec!["erp_postgres".to_string()];
    let p2 = plan_preview(&req, &stored).ok().unwrap();
    assert_eq!(p2.data_sources[0].status, "overwrite");
    assert!(p2.data_sources[0].reason.is_empty());
}

fn two_object_types() -> OntologyPayload {
    let mut p = sample_payload();
    p.object_types[0].links = vec![link("supplies", "Part"), link("ownedBy", "Company")];
    let mut part = p.object_types[0].clone();
    part.api_name = "Part".to_string();
    part.links = vec![link("madeBy", "Supplier")];
    p.object_types.push(part);
    p
}

#[test]
fn import_steps_follow_the_order_of_kinds() {
    let p = two_object_types();
    let first = first_import_step(&p);
    assert_eq!(first, ImportStep::ObjectType(0));
    let ok = Ok(Upsert::Created);
    assert_eq!(next_import_step(&p, ImportStep::ObjectType(0), &ok), ImportStep::Link(0, 0));
    assert_eq!(next_import_step(&p, ImportStep::Link(0, 0), &ok), ImportStep::Link(0, 1));
    assert_eq!(next_import_step(&p, ImportStep::Link(0, 1), &ok), ImportStep::ObjectType(1));
    assert_eq!(next_import_step(&p, ImportStep::Link(1, 0), &ok), ImportStep::Done);
    let failed = Err(StoreError::Sqlite("disk I/O error".to_string()));
    assert_eq!(next_import_step(&p, ImportStep::ObjectType(0), &failed), ImportStep::ObjectType(1));
}

#[test]
fn import_result_records_failures_and_counts_links() {
    let p = two_object_types();
    let steps = vec![
        StepOutcome {
            step: ImportStep::ObjectType(0),
            outcome: Err(StoreError::Sqlite("disk I/O error".to_string())),
        },
        StepOutcome { step: ImportStep::ObjectType(1), outcome: Ok(Upsert::Overwritten) },
        StepOutcome { step: ImportStep::Link(1, 0), outcome: Ok(Upsert::Created) },
    ];
    let r = assemble_import_result(&p, true, &steps);
    assert_eq!(r.ontology_api_name, "SupplyChain");
    assert_eq!(r.ontology_status, "existed");
    assert_eq!(r.object_types.len(), 2);
    assert_eq!(r.object_types[0].api_name, "Supplier");
    assert_eq!(r.object_types[0].status, "failed");
    assert_eq!(
        r.object_types[0].error.as_deref(),
        Some("ObjectType 'Supplier': SQLite 错误: disk I/O error")
    );
    assert_eq!(r.object_types[1].status, "overwritten");
    assert_eq!(r.links_created, 1);
    assert_eq!(r.links_skipped, 0);
    assert_eq!(r.errors, vec!["ObjectType 'Supplier': SQLite 错误: disk I/O error".to_string()]);
    assert!(r.data_sources.is_empty() && r.datasets.is_empty() && r.action_types.is_empty());
}

#[test]
fn link_failures_are_errors_without_a_record() {
    let p = two_object_types();
    let steps = vec![
        StepOutcome { step: ImportStep::ObjectType(0), outcome: Ok(Upsert::Created) },
        StepOutcome { step: ImportStep::Link(0, 0), outcome: Ok(Upsert::Skipped) },
        StepOutcome { step: ImportStep::Link(0, 1), outcome: Err(StoreError::NotFound("Company".to_string())) },
    ];
    let r = assemble_import_result(&p, false, &steps);
    assert_eq!(r.ontology_status, "created");
    assert_eq!(r.object_types.len(), 1);
    assert_eq!(r.links_created, 0);
    assert_eq!(r.links_skipped, 1);
    assert_eq!(r.errors, vec!["Link 'Supplier.ownedBy': 实体未找到: Company".to_string()]);
}

#[test]
fn revisions_count_up_from_one() {
    assert_eq!(next_revision(None), 1);
    assert_eq!(next_revision(Some(1)), 2);
    assert_eq!(next_revision(Some(41)), 42);
}

/// Drives one import of `p` through the steps against a list of stored object
/// type names, as the store does, and assembles its result.
fn run_import(p: &OntologyPayload, stored: &mut Vec<String>, overwrite: &[String]) -> onto_studio::payload::ImportResult {
    let mut steps = Vec::new();
    let mut at = first_import_step(p);
    while at != ImportStep::Done {
        let outcome = match at {
            ImportStep::ObjectType(i) => {
                let name = &p.object_types[i].api_name;
                let u = upsert_decision(stored.contains(name), overwrite.contains(name));
                if u == Upsert::Created {
                    stored.push(name.clone());
                }
                Ok(u)
            }
            _ => Ok(Upsert::Created),
        };
        let next = next_import_step(p, at, &outcome);
        steps.push(StepOutcome { step: at, outcome });
        at = next;
    }
    assemble_import_result(p, !stored.is_empty(), &steps)
}

#[test]
fn import_runs_skip_then_overwrite_through_the_steps() {
    let payload = sample_payload();
    let mut stored = Vec::new();
    let r1 = run_import(&payload, &mut stored, &[]);
    assert_eq!(r1.object_types.len(), 1);
    assert_eq!(r1.object_types[0].api_name, "Supplier");
    assert_eq!(r1.object_types[0].status, "created");
    let r2 = run_import(&payload, &mut stored, &[]);
    assert_eq!(r2.object_types.len(), 1);
    assert_eq!(r2.object_types[0].status, "skipped");
    let r3 = run_import(&payload, &mut stored, &["Supplier".to_string()]);
    assert_eq!(r3.object_types.len(), 1);
    assert_eq!(r3.object_types[0].status, "overwritten");
    assert!(r3.errors.is_empty());
}

#[test]
fn changelog_entry_checks_sizes_before_the_ontology() {
    let long_title = "x".repeat(501);
    let missing = Some(ttl_changelog_target_missing("urn:none"));
    match check_changelog_entry("ttl_changelog", &long_title, "", "{}", missing) {
        Err(e) => assert!(e.message().contains("500")),
        Ok(()) => panic!("an oversized entry is refused first"),
    }
    let missing = Some(ttl_changelog_target_missing("urn:none"));
    match check_changelog_entry("ttl_changelog", "t", "b", "{}", missing) {
        Err(e) => assert!(matches!(e, StoreError::NotFound(_))),
        Ok(()) => panic!("a missing ontology is refused"),
    }
    assert!(check_changelog_entry("ttl_changelog", "t", "b", "{}", None).is_ok());
}
