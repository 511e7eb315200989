use biyard_kit::mcp_tool::{
    classify, extract_mcp_description, parse_route_attr, plan_mcp_tool, FieldKind, McpToolArgs, McpToolInput,
    NameValue, ParamAttr, ParamKind, RouteAttrInput, RouteList, SchemaArg, ToolArg, ToolArgsError, ToolParam,
};
use biyard_kit::rust_type::RustType;

fn ty(id: &str, args: Vec<RustType>) -> RustType {
    RustType::Path { ident: id.to_string(), args }
}

fn nv(k: &str, v: &str) -> NameValue {
    NameValue { key: Some(k.to_string()), value: Some(v.to_string()) }
}

#[test]
fn classifies_wrapper_types_and_excludes_extractors() {
    let p = SchemaArg::Typed(ty("Query", vec![ty("SearchQuery", vec![])]));
    assert!(matches!(classify(&p), ParamKind::Query(_)));
    let j = SchemaArg::Typed(ty("Json", vec![ty("CreateReq", vec![])]));
    assert!(matches!(classify(&j), ParamKind::Json(_)));
    let path = SchemaArg::Typed(ty("Path", vec![ty("String", vec![])]));
    assert!(matches!(classify(&path), ParamKind::Path(_)));
    let ex = SchemaArg::Typed(ty("McpHouse", vec![]));
    assert!(matches!(classify(&ex), ParamKind::Extractor));
    let ex2 = SchemaArg::Typed(ty("User", vec![]));
    assert!(matches!(classify(&ex2), ParamKind::Extractor));
}

#[test]
fn classify_keeps_the_inner_type() {
    match classify(&SchemaArg::Typed(ty("Form", vec![ty("Upload", vec![])]))) {
        ParamKind::Form(t) => assert_eq!(t, ty("Upload", vec![])),
        _ => panic!("expected Form"),
    }
    assert!(matches!(classify(&SchemaArg::Receiver), ParamKind::Extractor));
    assert!(matches!(classify(&SchemaArg::Typed(ty("Query", vec![]))), ParamKind::Extractor));
}

#[test]
fn tool_args_parse_and_errors() {
    let a = McpToolArgs::parse(&vec![nv("name", "search"), nv("description", "search essences")]).ok().unwrap();
    assert_eq!(a.name, "search");
    assert_eq!(a.description, "search essences");
    let e = McpToolArgs::parse(&vec![nv("name", "x")]).err().unwrap();
    assert!(matches!(e, ToolArgsError::MissingDescription));
    assert_eq!(e.message(), "missing `description` attribute");
    let e = McpToolArgs::parse(&vec![nv("title", "x")]).err().unwrap();
    assert_eq!(e.message(), "unknown attribute: title");
    let e = McpToolArgs::parse(&vec![NameValue { key: Some("name".to_string()), value: None }]).err().unwrap();
    assert_eq!(e.message(), "expected string literal");
    let e = McpToolArgs::parse(&vec![]).err().unwrap();
    assert_eq!(e.message(), "missing `name` attribute");
}

#[test]
fn route_attr_reads_method_and_params() {
    let info = parse_route_attr(&RouteAttrInput {
        name: Some("get".to_string()),
        list: RouteList::Literal("/api/{id}/x?limit".to_string()),
    })
    .unwrap();
    assert_eq!(info.method, "GET");
    assert_eq!(info.path_params, vec!["id".to_string()]);
    assert_eq!(info.query_params, vec!["limit".to_string()]);
    assert!(parse_route_attr(&RouteAttrInput { name: Some("doc".to_string()), list: RouteList::NotList }).is_none());
}

#[test]
fn description_comes_from_mcp_attribute() {
    let attrs = vec![
        ParamAttr { name: Some("serde".to_string()), pairs: Some(vec![nv("description", "no")]) },
        ParamAttr { name: Some("mcp".to_string()), pairs: Some(vec![nv("description", "the id")]) },
    ];
    assert_eq!(extract_mcp_description(&attrs), Some("the id".to_string()));
    assert_eq!(extract_mcp_description(&vec![]), None);
}

fn param(name: &str, t: RustType) -> ToolArg {
    ToolArg::Typed(ToolParam { name: Some(name.to_string()), ty: t, attrs: vec![] })
}

#[test]
fn plan_orders_path_query_body_fields() {
    let input = McpToolInput {
        args: vec![nv("name", "add_comment"), nv("description", "adds")],
        fn_name: "create_discussion".to_string(),
        attrs: vec![RouteAttrInput {
            name: Some("post".to_string()),
            list: RouteList::Literal("/api/spaces/{space_id}/posts/{post_id}?after".to_string()),
        }],
        params: vec![
            param("req", ty("CreateReq", vec![])),
            param("after", ty("Option", vec![ty("String", vec![])])),
            param("post_id", ty("String", vec![])),
            param("space_id", ty("String", vec![])),
        ],
    };
    let plan = plan_mcp_tool(&input).ok().unwrap();
    assert_eq!(plan.method, "POST");
    assert_eq!(plan.format_path, "/api/spaces/{}/posts/{}");
    assert_eq!(plan.impl_fn_name, "create_discussion_mcp_impl");
    assert_eq!(plan.handler_fn_name, "create_discussion_mcp_handler");
    assert_eq!(plan.struct_name, "CreateDiscussionMcpRequest");
    assert_eq!(plan.module_name, "__mcp_req_create_discussion_mcp_request");
    assert_eq!(plan.meta_const_name, "MCP_TOOL_META_CREATE_DISCUSSION");
    let fields: Vec<(usize, String, FieldKind, bool)> =
        plan.fields.iter().map(|f| (f.arg, f.name.clone(), f.kind, f.optional)).collect();
    assert_eq!(
        fields,
        vec![
            (3, "space_id".to_string(), FieldKind::Path, false),
            (2, "post_id".to_string(), FieldKind::Path, false),
            (1, "after".to_string(), FieldKind::Query, true),
            (0, "req".to_string(), FieldKind::Body, false),
        ]
    );
}
