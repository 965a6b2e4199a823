use onto_studio::readview::{
    backing_mapping_of,
    link_type_full, object_type_metadata, object_type_not_found, link_type_not_found,
    ObjectTypeRow,
};
use onto_studio::payload::{ActionTypeDef, LinkDef, PropertyDef};
use onto_studio::schema::{
    add_column_sql, ddl_has_column_level_unique, missing_columns, table_info_sql, table_rebuild,
    text_lines,
};

const LEGACY_DATASETS: &str = "CREATE TABLE datasets (
                       id TEXT PRIMARY KEY, api_name TEXT NOT NULL UNIQUE,
                       display_name TEXT NOT NULL DEFAULT '',
                       storage_location TEXT NOT NULL DEFAULT '',
                       created_at INTEGER NOT NULL, updated_at INTEGER NOT NULL)";

const CURRENT_DATASETS: &str = "CREATE TABLE datasets (
    id                        TEXT PRIMARY KEY,
    ontology_api_name         TEXT NOT NULL,
    api_name                  TEXT NOT NULL,
    UNIQUE(ontology_api_name, api_name),
    FOREIGN KEY (ontology_api_name) REFERENCES ontologies(api_name) ON DELETE CASCADE
)";

fn pairs(v: &[(&str, &str)]) -> Vec<(String, String)> {
    v.iter().map(|(a, b)| (a.to_string(), b.to_string())).collect()
}

fn prop_def(api_name: &str, data_type: &str, pk: Option<bool>, searchable: bool) -> PropertyDef {
    PropertyDef {
        api_name: api_name.to_string(),
        display_name: api_name.to_uppercase(),
        description: String::new(),
        data_type: data_type.to_string(),
        searchable,
        is_primary_key: pk,
        is_title_property: None,
        backing_mapping: None,
        vector_config: None,
        confidence: None,
    }
}

fn link_def(api_name: &str) -> LinkDef {
    LinkDef {
        api_name: api_name.to_string(),
        display_name: String::new(),
        description: String::new(),
        target_object_type_api_name: "Store".to_string(),
        foreign_key_property_api_name: None,
        cardinality: "MANY_TO_ONE".to_string(),
        weight_property: None,
        temporal: false,
        confidence: None,
    }
}

fn action(api_name: &str) -> ActionTypeDef {
    ActionTypeDef {
        api_name: api_name.to_string(),
        display_name: String::new(),
        description: String::new(),
        affected_object_type_api_name: "Order".to_string(),
        parameters: Vec::new(),
        rules: Vec::new(),
        submission_criteria: Vec::new(),
        effects: Vec::new(),
        ontology_rules: Vec::new(),
        risk_level: "LOW".to_string(),
        operation_kind: "UPDATE".to_string(),
        batch_enabled: false,
        confidence: None,
    }
}

#[test]
fn lines_are_cut_like_str_lines() {
    let text = "a\r\nb\n\nc";
    assert_eq!(text_lines(text), text.lines().map(|l| l.to_string()).collect::<Vec<_>>());
    assert_eq!(text_lines("x\n"), vec!["x".to_string()]);
    assert!(text_lines("").is_empty());
}

#[test]
fn legacy_column_unique_is_detected() {
    assert!(ddl_has_column_level_unique(LEGACY_DATASETS));
    assert!(!ddl_has_column_level_unique(CURRENT_DATASETS));
    assert!(ddl_has_column_level_unique("CREATE TABLE t (\n  api_name text not null unique\n)"));
    assert!(!ddl_has_column_level_unique("CREATE TABLE t (\n  unique(ontology_api_name, api_name)\n)"));
}

#[test]
fn rebuilt_tables_drop_the_legacy_constraint() {
    for table in ["datasets", "data_sources"] {
        let r = table_rebuild(table).expect("a rebuild for this table");
        assert!(r.create.starts_with(&format!("CREATE TABLE {table}__migrate (")));
        assert!(r.create.contains("UNIQUE(ontology_api_name, api_name)"));
        // running the migration again finds nothing to rebuild
        assert!(!ddl_has_column_level_unique(&r.create));
        assert!(r.copy.starts_with(&format!("INSERT INTO {table}__migrate (")));
        assert!(r.copy.ends_with(&format!("FROM {table}")));
        assert_eq!(r.drop, format!("DROP TABLE {table};"));
        assert_eq!(r.rename, format!("ALTER TABLE {table}__migrate RENAME TO {table};"));
    }
    assert!(table_rebuild("object_types").is_none());
}

#[test]
fn only_missing_columns_are_added() {
    let existing = vec!["id".to_string(), "api_name".to_string()];
    let wanted = pairs(&[
        ("api_name", "TEXT"),
        ("ontology_api_name", "TEXT NOT NULL DEFAULT ''"),
        ("folder_path", "TEXT"),
        ("ontology_api_name", "TEXT"),
    ]);
    assert_eq!(
        missing_columns(&existing, &wanted),
        pairs(&[("ontology_api_name", "TEXT NOT NULL DEFAULT ''"), ("folder_path", "TEXT")])
    );
    assert!(missing_columns(&existing, &pairs(&[("id", "TEXT")])).is_empty());
}

#[test]
fn column_statements() {
    assert_eq!(
        add_column_sql("datasets", "ontology_api_name", "TEXT NOT NULL DEFAULT ''"),
        "ALTER TABLE datasets ADD COLUMN ontology_api_name TEXT NOT NULL DEFAULT '';"
    );
    assert_eq!(table_info_sql("link_types"), "PRAGMA table_info(link_types)");
}

#[test]
fn object_type_read_view_lists_names_only() {
    let row = ObjectTypeRow {
        display_name: "订单".to_string(),
        description: "d".to_string(),
        primary_key: "order_id".to_string(),
        title_property: String::new(),
        storage_type: "TABLE".to_string(),
        visibility: "NORMAL".to_string(),
        backing_dataset_api_name: Some("orders".to_string()),
    };
    let props = vec![
        prop_def("order_id", "string", Some(true), false),
        prop_def("tags", "array", None, true),
    ];
    let md = object_type_metadata(
        "Order",
        row,
        &props,
        &vec![link_def("placedAt"), link_def("ownedBy")],
        &vec![link_def("contains")],
        &vec![action("cancelOrder")],
    );
    assert_eq!(md.api_name, "Order");
    assert_eq!(md.status, "ACTIVE");
    assert_eq!(md.backing_dataset_api_name.as_deref(), Some("orders"));
    assert_eq!(md.outbound_links, vec!["placedAt".to_string(), "ownedBy".to_string()]);
    assert_eq!(md.inbound_links, vec!["contains".to_string()]);
    assert_eq!(md.actions, vec!["cancelOrder".to_string()]);
    assert_eq!(md.properties.len(), 2);
    let pk = &md.properties[0];
    assert!(pk.is_primary_key && pk.filterable && pk.sortable && pk.nullable);
    let tags = &md.properties[1];
    assert!(!tags.is_primary_key && tags.filterable && !tags.sortable);
}

#[test]
fn link_read_view_is_directional() {
    let l = link_type_full(
        "placedAt".to_string(),
        "下单门店".to_string(),
        String::new(),
        "Order".to_string(),
        "Store".to_string(),
        Some("store_id".to_string()),
        "MANY_TO_ONE".to_string(),
    );
    assert!(l.directional);
    assert!(!l.has_properties);
    assert_eq!(l.foreign_key_property_api_name.as_deref(), Some("store_id"));
}

#[test]
fn missing_entities_name_what_was_asked() {
    assert_eq!(
        object_type_not_found("Ghost", "retail").message(),
        "实体未找到: object_type 'Ghost' in ontology 'retail'"
    );
    assert_eq!(
        link_type_not_found("nope", "retail").message(),
        "实体未找到: link_type 'nope' in ontology 'retail'"
    );
}

#[test]
fn stored_backing_columns_make_a_mapping() {
    let some = |s: &str| Some(s.to_string());
    let b = backing_mapping_of(some("orders"), None, some("public"), some("t_orders"), some("id"))
        .expect("a mapping");
    assert_eq!(b.dataset_api_name, "orders");
    assert_eq!(b.backing_catalog, "");
    assert_eq!((b.backing_schema.as_str(), b.backing_table.as_str(), b.backing_column.as_str()), ("public", "t_orders", "id"));
    assert!(backing_mapping_of(None, some("c"), some("s"), some("t"), None).is_none());
    let only_column = backing_mapping_of(None, None, None, None, some("id")).expect("a mapping");
    assert_eq!(only_column.dataset_api_name, "");
}
