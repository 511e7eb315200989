use biyard_kit::dynamo_plan::{compose_key, get_key_condition, query_defaults};
use biyard_kit::dynamo::{parse_struct_cfg, table_name, DynItem, DynValue};
use biyard_kit::dynamo_fields::{check_fields, check_names_paired, parse_fields, FieldInput, FieldsError};
use biyard_kit::dynamo_plan::{
    create_condition, generate_enum_index_fns, plan_dynamo_entity, update_condition, update_expression, DynamoData,
    DynamoError, EntityPlan, SkFilter,
};
use biyard_kit::rust_type::RustType;

fn s(k: &str, v: &str) -> DynItem {
    DynItem { key: Some(k.to_string()), value: DynValue::Str(v.to_string()) }
}

fn bare(k: &str) -> DynItem {
    DynItem { key: Some(k.to_string()), value: DynValue::Absent }
}

fn order_item(k: &str, v: i32) -> DynItem {
    DynItem { key: Some(k.to_string()), value: DynValue::Int(Some(v)) }
}

fn ty(id: &str) -> RustType {
    RustType::Path { ident: id.to_string(), args: vec![] }
}

fn field(name: &str, t: &str, attrs: Vec<Vec<DynItem>>) -> FieldInput {
    FieldInput { name: name.to_string(), ty: ty(t), ty_text: t.to_string(), attrs }
}

#[test]
fn struct_cfg_defaults() {
    let cfg = parse_struct_cfg("", &vec![]);
    assert_eq!(cfg.table, "main");
    assert_eq!(cfg.pk_name, "pk");
    assert_eq!(cfg.sk_name, Some("sk".to_string()));
    assert_eq!(cfg.result_ty, "std::result::Result");
    assert_eq!(cfg.error_ctor, "crate::Error");
    assert!(cfg.indice.is_empty());
    assert_eq!(table_name(&parse_struct_cfg("ratel-dev", &vec![])), "ratel-dev-main");
}

#[test]
fn struct_cfg_reads_table_keys_and_indexes() {
    let cfg = parse_struct_cfg(
        "p",
        &vec![
            vec![s("table", "users"), s("pk_name", "id")],
            vec![s("index", "gsi1"), s("pk_prefix", "EMAIL"), bare("enable_sk")],
            vec![s("name", "by_code"), s("index", "gsi2")],
        ],
    );
    assert_eq!(cfg.table, "users");
    assert_eq!(cfg.pk_name, "id");
    assert_eq!(cfg.indice.len(), 2);
    assert_eq!(cfg.indice[0].index, "gsi1");
    assert_eq!(cfg.indice[0].name, "find_by_gsi1");
    assert_eq!(cfg.indice[0].pk_prefix, Some("EMAIL".to_string()));
    assert!(cfg.indice[0].enable_sk);
    assert_eq!(cfg.indice[1].name, "by_code");
}

#[test]
fn sk_name_none_as_last_item_removes_the_sort_key() {
    let cfg = parse_struct_cfg("", &vec![vec![s("table", "t"), s("sk_name", "none")]]);
    assert_eq!(cfg.sk_name, None);
    let cfg = parse_struct_cfg("", &vec![vec![s("sk_name", "none"), s("table", "t")]]);
    assert_eq!(cfg.sk_name, Some("none".to_string()));
    assert_eq!(cfg.table, "t");
}

#[test]
fn unread_value_ends_the_attribute() {
    let cfg = parse_struct_cfg(
        "",
        &vec![vec![DynItem { key: Some("table".to_string()), value: DynValue::Other }, s("pk_name", "x")]],
    );
    assert_eq!(cfg.table, "main");
    assert_eq!(cfg.pk_name, "pk");
}

#[test]
fn fields_declare_indexes_in_order() {
    let cfg = parse_struct_cfg("", &vec![]);
    let fields = vec![
        field("pk", "String", vec![]),
        field("sk", "String", vec![]),
        field("email", "String", vec![vec![s("index", "gsi1"), bare("pk"), s("prefix", "email"), s("name", "find_by_email")]]),
        field("code", "String", vec![vec![s("index", "gsi1"), bare("pk"), order_item("order", 0)]]),
        field("created_at", "i64", vec![vec![s("index", "gsi1"), bare("sk")]]),
    ];
    assert_eq!(check_fields(&cfg, &fields), Ok(()));
    let plan = parse_fields(&cfg, &fields);
    assert!(plan.fields[0].is_pk && plan.fields[1].is_sk);
    assert_eq!(plan.index_fns, vec![("gsi1".to_string(), "find_by_email".to_string())]);
    assert_eq!(plan.indexes.len(), 1);
    let ix = &plan.indexes[0];
    assert_eq!(ix.name, "find_by_email");
    assert_eq!(ix.pk.prefix, Some("EMAIL".to_string()));
    let pk: Vec<(usize, i32)> = ix.pk.fields.iter().map(|f| (f.field, f.order)).collect();
    assert_eq!(pk, vec![(2, 0), (3, 0)]);
    let sk: Vec<(usize, i32)> = ix.sk.as_ref().unwrap().fields.iter().map(|f| (f.field, f.order)).collect();
    assert_eq!(sk, vec![(4, 0)]);
}

#[test]
fn automatic_order_follows_the_last_and_explicit_order_sorts() {
    let cfg = parse_struct_cfg("", &vec![]);
    let fields = vec![
        field("a", "String", vec![vec![s("index", "g"), bare("pk"), order_item("order", 5)]]),
        field("b", "String", vec![vec![s("index", "g"), bare("pk")]]),
        field("c", "String", vec![vec![s("index", "g"), bare("pk"), order_item("order", 1)]]),
    ];
    assert_eq!(check_fields(&cfg, &fields), Ok(()));
    let plan = parse_fields(&cfg, &fields);
    let pk: Vec<(usize, i32)> = plan.indexes[0].pk.fields.iter().map(|f| (f.field, f.order)).collect();
    assert_eq!(pk, vec![(2, 1), (0, 5), (1, 6)]);
    assert_eq!(plan.indexes[0].name, "query_on_g");
}

#[test]
fn name_without_index_and_order_overflow_are_rejected() {
    let cfg = parse_struct_cfg("", &vec![]);
    let unpaired = vec![field("a", "String", vec![vec![s("name", "f")]])];
    assert!(!check_names_paired(&unpaired));
    assert_eq!(check_fields(&cfg, &unpaired), Err(FieldsError::NameWithoutIndex));
    let fields = vec![
        field("a", "String", vec![vec![s("index", "g"), bare("pk"), order_item("order", i32::MAX)]]),
        field("b", "String", vec![vec![s("index", "g"), bare("pk")]]),
    ];
    assert!(check_names_paired(&fields));
    assert_eq!(check_fields(&cfg, &fields), Err(FieldsError::OrderOverflow));
}

#[test]
fn key_conditions() {
    let cfg = parse_struct_cfg("", &vec![]);
    assert_eq!(create_condition(&cfg), "attribute_not_exists(pk) AND attribute_not_exists(sk)");
    assert_eq!(update_condition(&cfg), "attribute_exists(pk) AND attribute_exists(sk)");
    let cfg = parse_struct_cfg("", &vec![vec![DynItem { key: Some("sk_name".to_string()), value: DynValue::Ident("None".to_string()) }]]);
    assert_eq!(create_condition(&cfg), "attribute_not_exists(pk)");
    assert_eq!(update_condition(&cfg), "attribute_exists(pk)");
}

#[test]
fn update_expression_joins_sets_and_removes() {
    let sets = vec!["#a = :a".to_string(), "#b = :b".to_string()];
    let removes = vec!["#c".to_string()];
    assert_eq!(update_expression(&sets, &removes), "SET #a = :a, #b = :b REMOVE #c");
    assert_eq!(update_expression(&sets, &vec![]), "SET #a = :a, #b = :b ");
    assert_eq!(update_expression(&vec![], &removes), "REMOVE #c");
    assert_eq!(update_expression(&vec![], &vec![]), "");
}

#[test]
fn struct_plan_names_updater_and_index_queries() {
    let fields = vec![
        field("pk", "String", vec![]),
        field("sk", "String", vec![]),
        field("views", "i64", vec![]),
        field("email", "Option<String>", vec![vec![s("index", "gsi1"), bare("pk"), s("prefix", "user"), s("name", "find_by_email")]]),
    ];
    let plan = plan_dynamo_entity("dev", "user_profile", &vec![], &DynamoData::Struct(fields)).ok().unwrap();
    assert_eq!(plan.table_name, "dev-main");
    let sp = match plan.entity {
        EntityPlan::Struct(sp) => sp,
        _ => panic!("expected a struct plan"),
    };
    assert_eq!(sp.updater_name, "UserProfileUpdater");
    assert_eq!(sp.query_option_name, "UserProfileQueryOption");
    assert_eq!(sp.updater_fields.len(), 2);
    let views = &sp.updater_fields[0];
    assert_eq!(views.setter, "with_views");
    assert_eq!(views.counters, Some(("increase_views".to_string(), "decrease_views".to_string())));
    assert_eq!(views.set_expr, "#views = :views");
    assert_eq!(views.add_expr, "#views = if_not_exists(#views, :z) + :views");
    let email = &sp.updater_fields[1];
    assert_eq!(email.counters, None);
    assert_eq!(email.remove_expr, "#email");
    assert_eq!(email.gsi.len(), 1);
    assert_eq!(email.gsi[0].getter, "get_pk_for_gsi1");
    assert_eq!(email.gsi[0].key, "gsi1_pk");
    assert_eq!(email.gsi[0].set_expr, "#gsi1_pk = :gsi1_pk");
    assert_eq!(sp.composers.len(), 1);
    assert_eq!(sp.composers[0].name, "compose_gsi1_pk");
    assert_eq!(sp.composers[0].prefix, Some("user".to_string()));
    assert_eq!(sp.index_fns.len(), 1);
    assert_eq!(sp.index_fns[0].fn_name, "find_by_email");
    assert_eq!(sp.index_fns[0].index_name, "gsi1-index");
    assert_eq!(sp.index_fns[0].sk_composer, "compose_gsi1_sk");
}

#[test]
fn unnamed_index_and_unions_are_refused() {
    let fields = vec![field("email", "String", vec![vec![s("index", "gsi1"), bare("pk")]])];
    assert_eq!(
        plan_dynamo_entity("", "X", &vec![], &DynamoData::Struct(fields)).err(),
        Some(DynamoError::UnnamedIndex)
    );
    assert_eq!(plan_dynamo_entity("", "X", &vec![], &DynamoData::Other).err(), Some(DynamoError::Unsupported));
    assert_eq!(
        biyard_kit::dynamo_plan::unsupported_message(),
        "#[derive(DynamoEntity)] only supports structs and enum"
    );
}

#[test]
fn enum_index_queries() {
    let cfg = parse_struct_cfg(
        "",
        &vec![
            vec![s("index", "gsi1"), s("name", "FindByType"), s("sk_prefix", "TS")],
            vec![s("index", "gsi2"), bare("enable_sk")],
            vec![s("index", "gsi3")],
        ],
    );
    let fns = generate_enum_index_fns(&cfg);
    assert_eq!(fns.len(), 3);
    assert_eq!(fns[0].fn_name, "find_by_type");
    assert_eq!(fns[0].index_name, "gsi1-index");
    assert!(matches!(&fns[0].sk, SkFilter::Prefixed(p) if p == "TS"));
    assert!(matches!(fns[1].sk, SkFilter::Plain));
    assert!(matches!(fns[2].sk, SkFilter::NoSk));
    assert_eq!(fns[2].pk_field, "gsi3_pk");
}

#[test]
fn plan_reports_each_field_panic_apart() {
    let unpaired = vec![field("a", "String", vec![vec![s("name", "f")]])];
    assert_eq!(
        plan_dynamo_entity("", "X", &vec![], &DynamoData::Struct(unpaired)).err(),
        Some(DynamoError::NameWithoutIndex)
    );
    let overflow = vec![
        field("a", "String", vec![vec![s("index", "g"), bare("pk"), order_item("order", i32::MAX), s("name", "q")]]),
        field("b", "String", vec![vec![s("index", "g"), bare("pk")]]),
    ];
    assert_eq!(
        plan_dynamo_entity("", "X", &vec![], &DynamoData::Struct(overflow)).err(),
        Some(DynamoError::OrderOverflow)
    );
}

#[test]
fn composed_keys_and_query_defaults() {
    assert_eq!(compose_key("EMAIL", "a@b.c"), "EMAIL#a@b.c");
    assert_eq!(compose_key("EMAIL", "EMAIL#a@b.c"), "EMAIL#a@b.c");
    assert_eq!(compose_key("EMAIL", &compose_key("EMAIL", "x")), compose_key("EMAIL", "x"));
    assert_eq!(compose_key("EMAIL", "EMAILx"), "EMAIL#EMAILx");
    assert_eq!(get_key_condition(true), "#pk = :pk AND #sk = :sk");
    assert_eq!(get_key_condition(false), "#pk = :pk");
    let d = query_defaults();
    assert_eq!((d.limit, d.scan_index_forward, d.all), (10, false, false));
    assert_eq!((d.one_limit, d.all_limit, d.get_limit), (1, 1_000_000, 1));
}
