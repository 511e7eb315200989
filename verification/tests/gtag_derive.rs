use biyard_kit::gtag_derive::{
    plan_gtag_event, to_snake_case, AttrValue, GtagData, GtagDeriveError, GtagDeriveInput, GtagField, GtagItem,
};

fn item(key: &str, value: AttrValue) -> GtagItem {
    GtagItem { key: Some(key.to_string()), value }
}

fn field(name: &str, items: Vec<GtagItem>) -> GtagField {
    GtagField { name: name.to_string(), items }
}

fn params(input: &GtagDeriveInput) -> (String, Vec<(String, String)>) {
    let plan = plan_gtag_event(input).ok().expect("derive accepted");
    (plan.event_name, plan.params.into_iter().map(|p| (p.key, p.field)).collect())
}

#[test]
fn derive_with_name_rename_and_skip() {
    let input = GtagDeriveInput {
        name: "Purchase".to_string(),
        items: vec![item("name", AttrValue::Str("purchase".to_string()))],
        data: GtagData::Named(vec![
            field("value", vec![]),
            field("currency", vec![]),
            field("sku", vec![item("rename", AttrValue::Str("item_id".to_string()))]),
            field("internal", vec![item("skip", AttrValue::Absent)]),
        ]),
    };
    let (name, ps) = params(&input);
    assert_eq!(name, "purchase");
    assert_eq!(
        ps,
        vec![
            ("value".to_string(), "value".to_string()),
            ("currency".to_string(), "currency".to_string()),
            ("item_id".to_string(), "sku".to_string()),
        ]
    );
}

#[test]
fn event_name_defaults_to_snake_case() {
    let input = GtagDeriveInput {
        name: "QuizSubmitted".to_string(),
        items: vec![],
        data: GtagData::Named(vec![field("score", vec![])]),
    };
    let (name, ps) = params(&input);
    assert_eq!(name, "quiz_submitted");
    assert_eq!(ps, vec![("score".to_string(), "score".to_string())]);
}

#[test]
fn unit_struct_has_empty_params() {
    let input = GtagDeriveInput { name: "SignOut".to_string(), items: vec![], data: GtagData::Unit };
    let (name, ps) = params(&input);
    assert_eq!(name, "sign_out");
    assert!(ps.is_empty());
}

#[test]
fn snake_case_of_names() {
    assert_eq!(to_snake_case("QuizSubmitted"), "quiz_submitted");
    assert_eq!(to_snake_case("already_snake"), "already_snake");
    assert_eq!(to_snake_case("HTTPError"), "h_t_t_p_error");
    assert_eq!(to_snake_case(""), "");
}

#[test]
fn derive_errors() {
    let bad_attr = GtagDeriveInput {
        name: "X".to_string(),
        items: vec![item("title", AttrValue::Str("t".to_string()))],
        data: GtagData::Unit,
    };
    assert_eq!(plan_gtag_event(&bad_attr).err(), Some(GtagDeriveError::UnsupportedEventAttr));
    let tuple = GtagDeriveInput { name: "X".to_string(), items: vec![], data: GtagData::Tuple };
    assert_eq!(plan_gtag_event(&tuple).err(), Some(GtagDeriveError::FieldsNotNamed));
    let e = GtagDeriveInput { name: "X".to_string(), items: vec![], data: GtagData::NotStruct };
    assert_eq!(plan_gtag_event(&e).err(), Some(GtagDeriveError::NotAStruct));
    let bad_field = GtagDeriveInput {
        name: "X".to_string(),
        items: vec![],
        data: GtagData::Named(vec![field("a", vec![item("hide", AttrValue::Absent)])]),
    };
    assert_eq!(plan_gtag_event(&bad_field).err(), Some(GtagDeriveError::UnsupportedFieldAttr));
    let no_eq = GtagDeriveInput {
        name: "X".to_string(),
        items: vec![item("name", AttrValue::Absent)],
        data: GtagData::Unit,
    };
    assert_eq!(plan_gtag_event(&no_eq).err(), Some(GtagDeriveError::ExpectedEquals));
    let not_str = GtagDeriveInput {
        name: "X".to_string(),
        items: vec![],
        data: GtagData::Named(vec![field("a", vec![item("rename", AttrValue::Other)])]),
    };
    assert_eq!(plan_gtag_event(&not_str).err(), Some(GtagDeriveError::ExpectedStringLiteral));
    let skip_value = GtagDeriveInput {
        name: "X".to_string(),
        items: vec![],
        data: GtagData::Named(vec![field("a", vec![item("skip", AttrValue::Other)])]),
    };
    assert_eq!(plan_gtag_event(&skip_value).err(), Some(GtagDeriveError::ExpectedComma));
    assert_eq!(GtagDeriveError::NotAStruct.message(), "GtagEvent can only be derived for structs");
}

#[test]
fn last_name_wins() {
    let input = GtagDeriveInput {
        name: "X".to_string(),
        items: vec![item("name", AttrValue::Str("a".to_string())), item("name", AttrValue::Str("b".to_string()))],
        data: GtagData::Unit,
    };
    assert_eq!(params(&input).0, "b");
}

#[test]
fn list_form_items_are_refused() {
    let named = GtagDeriveInput {
        name: "A".to_string(),
        items: vec![item("name", AttrValue::List)],
        data: GtagData::Unit,
    };
    let e = plan_gtag_event(&named).err().unwrap();
    assert_eq!(e, GtagDeriveError::ExpectedEquals);
    assert_eq!(e.message(), "expected `=`");
    let renamed = GtagDeriveInput {
        name: "A".to_string(),
        items: vec![],
        data: GtagData::Named(vec![field("x", vec![item("rename", AttrValue::List)])]),
    };
    assert_eq!(plan_gtag_event(&renamed).err().unwrap(), GtagDeriveError::ExpectedEquals);
    let skipped = GtagDeriveInput {
        name: "A".to_string(),
        items: vec![],
        data: GtagData::Named(vec![field("x", vec![item("skip", AttrValue::List)])]),
    };
    assert_eq!(plan_gtag_event(&skipped).err().unwrap(), GtagDeriveError::ExpectedComma);
}
