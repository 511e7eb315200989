use biyard_kit::qdrant::{plan_qdrant_entity, QdrantData, QdrantError, QdrantField, QdrantItem, QdrantValue};
use biyard_kit::rest_error::{rest_error_arms, RestErrorError, RestItem, RestValue, RestVariant, VariantShape};
use biyard_kit::sub_partition::{
    partition_id, partition_key_error, plan_sub_partition, replace_all, PartitionShape, PartitionVariant,
};

fn rv(name: &str, shape: VariantShape, attrs: Vec<Vec<RestItem>>) -> RestVariant {
    RestVariant { name: name.to_string(), shape, attrs }
}

fn ri(k: &str, v: u64) -> RestItem {
    RestItem { key: Some(k.to_string()), value: RestValue::Int(Some(v)) }
}

#[test]
fn rest_error_codes_count_up_from_the_last() {
    let arms = rest_error_arms(&vec![
        rv("NotFound", VariantShape::Unit, vec![vec![ri("status", 404)]]),
        rv("Invalid", VariantShape::Tuple, vec![]),
        rv("Internal", VariantShape::Struct, vec![vec![ri("status", 500), ri("code", 1000)]]),
        rv("Next", VariantShape::Unit, vec![]),
    ])
    .ok()
    .unwrap();
    let got: Vec<(String, u16, u64)> = arms.iter().map(|a| (a.variant.clone(), a.status, a.code)).collect();
    assert_eq!(
        got,
        vec![
            ("NotFound".to_string(), 404, 1),
            ("Invalid".to_string(), 400, 2),
            ("Internal".to_string(), 500, 1000),
            ("Next".to_string(), 400, 1001),
        ]
    );
}

#[test]
fn rest_error_bad_item_keeps_what_was_read() {
    let arms = rest_error_arms(&vec![rv(
        "A",
        VariantShape::Unit,
        vec![vec![ri("code", 7), RestItem { key: Some("kind".to_string()), value: RestValue::Absent }, ri("status", 418)]],
    )])
    .ok()
    .unwrap();
    assert_eq!((arms[0].status, arms[0].code), (400, 7));
    let arms = rest_error_arms(&vec![rv("A", VariantShape::Unit, vec![vec![ri("status", 70000)]])]).ok().unwrap();
    assert_eq!(arms[0].status, 400);
}

#[test]
fn rest_error_code_overflow_is_refused() {
    let r = rest_error_arms(&vec![
        rv("A", VariantShape::Unit, vec![vec![ri("code", u64::MAX)]]),
        rv("B", VariantShape::Unit, vec![]),
    ]);
    assert_eq!(r.err(), Some(RestErrorError::CodeOverflow));
    assert_eq!(biyard_kit::rest_error::not_an_enum_message(), "RestError can only be derived for enums");
}

fn qi(k: &str, v: QdrantValue) -> QdrantItem {
    QdrantItem { key: Some(k.to_string()), value: v }
}

fn qf(name: &str, attrs: Vec<Vec<QdrantItem>>) -> QdrantField {
    QdrantField { name: name.to_string(), attrs }
}

#[test]
fn qdrant_collection_id_and_payload() {
    let plan = plan_qdrant_entity(
        &vec![vec![qi("collection_name", QdrantValue::Str("essences".to_string()))]],
        &QdrantData::Named(vec![qf("id", vec![vec![qi("id", QdrantValue::Absent)]]), qf("title", vec![])]),
    )
    .ok()
    .unwrap();
    assert_eq!(plan.collection_name, "essences");
    assert_eq!(plan.id_field, "id");
    assert_eq!(plan.payload_fields, vec!["id".to_string(), "title".to_string()]);
}

#[test]
fn qdrant_defaults_and_errors() {
    let plan = plan_qdrant_entity(&vec![], &QdrantData::Named(vec![qf("pk", vec![vec![qi("id", QdrantValue::Absent)]])]))
        .ok()
        .unwrap();
    assert_eq!(plan.collection_name, "main");
    assert_eq!(plan_qdrant_entity(&vec![], &QdrantData::Named(vec![qf("a", vec![])])).err(), Some(QdrantError::NoIdField));
    assert_eq!(plan_qdrant_entity(&vec![], &QdrantData::NotNamed).err(), Some(QdrantError::FieldsNotNamed));
    assert_eq!(plan_qdrant_entity(&vec![], &QdrantData::NotStruct).err(), Some(QdrantError::NotAStruct));
    assert_eq!(QdrantError::NoIdField.message(), "QdrantEntity requires one field with #[qdrant(id)]");
}

#[test]
fn sub_partition_structs_and_prefixes() {
    let out = plan_sub_partition(
        "Partition",
        &vec![
            PartitionVariant { name: "User".to_string(), shape: PartitionShape::Single },
            PartitionVariant { name: "SpacePost".to_string(), shape: PartitionShape::Unit },
            PartitionVariant { name: "Pair".to_string(), shape: PartitionShape::Other },
        ],
    );
    let got: Vec<(String, String, bool)> = out.iter().map(|p| (p.struct_name.clone(), p.prefix.clone(), p.tuple)).collect();
    assert_eq!(
        got,
        vec![
            ("UserPartition".to_string(), "USER#".to_string(), true),
            ("SpacePostPartition".to_string(), "SPACE_POST".to_string(), false),
        ]
    );
}

#[test]
fn partition_id_strips_prefix_and_url_encoding() {
    assert_eq!(partition_id("SPACE#abc-123", "SPACE#"), "abc-123");
    assert_eq!(partition_id("SPACE%23abc-123", "SPACE#"), "abc-123");
    assert_eq!(partition_id("abc-123", "SPACE#"), "abc-123");
    assert_eq!(partition_id("USER#x", "SPACE#"), "USER#x");
    assert_eq!(partition_id("SPACE#a#SPACE#b", "SPACE#"), "a#b");
}

#[test]
fn replace_is_left_to_right_without_overlap() {
    assert_eq!(replace_all("aaa", "aa", "b"), "ba");
    assert_eq!(replace_all("x%23y%23", "%23", "#"), "x#y#");
    assert_eq!(replace_all("", "a", "b"), "");
}

#[test]
fn partition_key_error_message() {
    assert_eq!(partition_key_error("TeamPartition", "TEAM"), "TeamPartition must be TEAM");
}

#[test]
fn partition_id_with_an_empty_prefix_only_decodes() {
    assert_eq!(partition_id("A%23b", ""), "A#b");
}
