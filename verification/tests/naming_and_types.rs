use onto_studio::data_type::{data_types, is_valid_data_type};
use onto_studio::naming::{
    is_valid_dataset_api_name, is_valid_object_type_api_name, is_valid_property_api_name,
};

#[test]
fn known_types() {
    assert!(is_valid_data_type("STRING"));
    assert!(is_valid_data_type("TIMESTAMP"));
    assert!(is_valid_data_type("DECIMAL"));
    assert!(is_valid_data_type("LONG"));
}

#[test]
fn unknown_types() {
    assert!(!is_valid_data_type("BIGINT"));
    assert!(!is_valid_data_type("INT"));
    assert!(!is_valid_data_type("INT64"));
    assert!(!is_valid_data_type(""));
    assert!(!is_valid_data_type("string"));
}

#[test]
fn pascal_case() {
    assert!(is_valid_object_type_api_name("PurchaseOrder"));
    assert!(is_valid_object_type_api_name("A"));
    assert!(!is_valid_object_type_api_name("purchaseOrder"));
    assert!(!is_valid_object_type_api_name("Purchase_Order"));
    assert!(!is_valid_object_type_api_name(""));
}

#[test]
fn camel_case() {
    assert!(is_valid_property_api_name("orderDate"));
    assert!(is_valid_property_api_name("a"));
    assert!(!is_valid_property_api_name("OrderDate"));
    assert!(!is_valid_property_api_name("order_date"));
}

#[test]
fn snake_case() {
    assert!(is_valid_dataset_api_name("purchase_order"));
    assert!(is_valid_dataset_api_name("a"));
    assert!(!is_valid_dataset_api_name("PurchaseOrder"));
    assert!(!is_valid_dataset_api_name("1abc"));
}

#[test]
fn api_names_are_at_most_a_hundred_characters() {
    let ok = format!("A{}", "b".repeat(99));
    let too_long = format!("A{}", "b".repeat(100));
    assert!(is_valid_object_type_api_name(&ok));
    assert!(!is_valid_object_type_api_name(&too_long));
    assert!(!is_valid_property_api_name("a-b"));
    assert!(!is_valid_dataset_api_name("a b"));
}

#[test]
fn naming_styles_never_overlap() {
    for name in ["PurchaseOrder", "orderDate", "purchase_order", "a", "A", "x1"] {
        let pascal = is_valid_object_type_api_name(name);
        let camel = is_valid_property_api_name(name);
        assert!(!(pascal && camel));
        assert!(!(pascal && is_valid_dataset_api_name(name)));
    }
}

#[test]
fn every_listed_data_type_is_valid() {
    let all = data_types();
    assert_eq!(all.len(), 20);
    for t in all.iter() {
        assert!(is_valid_data_type(t));
    }
    assert!(!is_valid_data_type("ATTACHMENTS"));
}
