use biyard_kit::handler::{classify, ArgKind, ArgPattern, ClassifyError, HandlerArg, RouteAttr};
use biyard_kit::rust_type::{imports_of, is_builtin, maybe_paren, ts_type, RustType};

fn ty(id: &str, args: Vec<RustType>) -> RustType {
    RustType::Path { ident: id.to_string(), args }
}

fn typed(pat: ArgPattern, t: RustType) -> HandlerArg {
    HandlerArg::Typed { pat, ty: t }
}

fn ident(n: &str) -> ArgPattern {
    ArgPattern::Ident(n.to_string())
}

#[test]
fn ts_types() {
    assert_eq!(ts_type(&ty("String", vec![])), "string");
    assert_eq!(ts_type(&ty("Vec", vec![ty("Item", vec![])])), "Item[]");
    assert_eq!(ts_type(&ty("Option", vec![ty("i64", vec![])])), "number | null");
    assert_eq!(maybe_paren("a | b"), "(a | b)");
    assert_eq!(maybe_paren("a"), "a");
    assert!(is_builtin("string"));
    assert!(!is_builtin("Item"));
}

#[test]
fn imports_are_sorted_and_unique() {
    let mut out: Vec<String> = Vec::new();
    imports_of(&ty("HashMap", vec![ty("String", vec![]), ty("Vec", vec![ty("Zeta", vec![])])]), &mut out);
    imports_of(&ty("Alpha", vec![]), &mut out);
    imports_of(&ty("Zeta", vec![]), &mut out);
    assert_eq!(out, vec!["Alpha".to_string(), "Zeta".to_string()]);
}

#[test]
fn post_path_query_body_extractor_classification() {
    let route = RouteAttr { path: "/api/rooms/{room_id}/comments".to_string(), raw: false };
    let inputs = vec![
        typed(ident("user"), ty("User", vec![])),
        typed(ArgPattern::TupleStruct(vec![ident("room_id")]), ty("Path", vec![ty("String", vec![])])),
        typed(ArgPattern::TupleStruct(vec![ident("q")]), ty("Query", vec![ty("CommentQuery", vec![])])),
        typed(ArgPattern::TupleStruct(vec![ident("req")]), ty("Json", vec![ty("AddCommentRequest", vec![])])),
    ];
    let out = Some(ty("Result", vec![ty("CommentResponse", vec![]), ty("ApiError", vec![])]));
    let meta = classify("POST", &route, "add_comment", &inputs, &out).ok().unwrap();
    assert_eq!(meta.path_template, "/api/rooms/{}/comments");
    let args: Vec<(String, ArgKind)> = meta.client_args.iter().map(|a| (a.name.clone(), a.kind)).collect();
    assert_eq!(
        args,
        vec![
            ("room_id".to_string(), ArgKind::Path),
            ("q".to_string(), ArgKind::Query),
            ("req".to_string(), ArgKind::Body),
        ]
    );
    assert_eq!(meta.ret_ty, Some(ty("CommentResponse", vec![])));
    assert_eq!(meta.err_ty, Some(ty("ApiError", vec![])));
}

#[test]
fn get_with_body_is_refused() {
    let route = RouteAttr { path: "/api/x".to_string(), raw: false };
    let inputs = vec![typed(ArgPattern::TupleStruct(vec![ident("req")]), ty("Json", vec![ty("R", vec![])]))];
    let e = classify("GET", &route, "x", &inputs, &None).err().unwrap();
    assert_eq!(e, ClassifyError::BodyNotAllowed { on_delete: false });
    assert_eq!(e.message(), "GET handler cannot take a `Json`/`Form` body");
}

#[test]
fn delete_with_body_is_refused() {
    let route = RouteAttr { path: "/api/x/{id}".to_string(), raw: false };
    let inputs = vec![
        typed(ArgPattern::TupleStruct(vec![ident("id")]), ty("Path", vec![ty("String", vec![])])),
        typed(ArgPattern::TupleStruct(vec![ident("b")]), ty("Json", vec![ty("B", vec![])])),
    ];
    let out = Some(ty("B", vec![]));
    let e = classify("DELETE", &route, "f", &inputs, &out).err().unwrap();
    assert_eq!(e, ClassifyError::BodyNotAllowed { on_delete: true });
    assert_eq!(e.message(), "DELETE handler cannot take a `Json`/`Form` body");
}

#[test]
fn delete_without_body_is_accepted() {
    let route = RouteAttr { path: "/api/x/{id}".to_string(), raw: false };
    let inputs = vec![typed(ArgPattern::TupleStruct(vec![ident("id")]), ty("Path", vec![ty("String", vec![])]))];
    let meta = classify("DELETE", &route, "f", &inputs, &None).ok().unwrap();
    assert_eq!(meta.path_template, "/api/x/{}");
}

#[test]
fn multi_path_params_bind_a_tuple() {
    let route = RouteAttr { path: "/api/rooms/:room_id/files/:file_id".to_string(), raw: false };
    let inputs = vec![
        typed(ident("user"), ty("User", vec![])),
        typed(
            ArgPattern::TupleStruct(vec![ArgPattern::Tuple(vec![ident("room_id"), ident("file_id")])]),
            ty("Path", vec![RustType::Tuple(vec![ty("String", vec![]), ty("String", vec![])])]),
        ),
    ];
    let out = Some(ty("Result", vec![RustType::Tuple(vec![]), ty("E", vec![])]));
    let meta = classify("DELETE", &route, "del", &inputs, &out).ok().unwrap();
    assert_eq!(meta.path_names, vec!["room_id".to_string(), "file_id".to_string()]);
    assert_eq!(meta.ret_ty, None);
}

#[test]
fn path_count_mismatch_is_reported() {
    let route = RouteAttr { path: "/api/{a}/{b}".to_string(), raw: false };
    let inputs = vec![typed(ArgPattern::TupleStruct(vec![ident("a")]), ty("Path", vec![ty("String", vec![])]))];
    let e = classify("GET", &route, "f", &inputs, &None).err().unwrap();
    assert_eq!(e, ClassifyError::PathCountMismatch { placeholders: 2, bound: 1 });
    assert_eq!(
        e.message(),
        "route has 2 path placeholder(s) but the handler binds 1 `Path` arg(s) — they must match (use `Path((a, b))` for multiple)"
    );
}

#[test]
fn get_path_only_no_body() {
    let route = RouteAttr { path: "/api/test".to_string(), raw: false };
    let inputs = vec![typed(ident("user"), ty("User", vec![]))];
    let out = Some(ty("Result", vec![ty("GetMeResponse", vec![]), ty("ApiError", vec![])]));
    let meta = classify("GET", &route, "test_handler", &inputs, &out).ok().unwrap();
    assert!(meta.client_args.is_empty());
    assert_eq!(meta.path_template, "/api/test");
    assert_eq!(ts_type(meta.ret_ty.as_ref().unwrap()), "GetMeResponse");
}

#[test]
fn vec_return_type() {
    let route = RouteAttr { path: "/api/bulk".to_string(), raw: false };
    let inputs = vec![typed(ArgPattern::TupleStruct(vec![ident("req")]), ty("Json", vec![ty("BulkReq", vec![])]))];
    let out = Some(ty("Result", vec![ty("Vec", vec![ty("Item", vec![])]), ty("ApiError", vec![])]));
    let meta = classify("POST", &route, "bulk", &inputs, &out).ok().unwrap();
    assert_eq!(ts_type(meta.ret_ty.as_ref().unwrap()), "Item[]");
    let args: Vec<(String, ArgKind)> = meta.client_args.iter().map(|a| (a.name.clone(), a.kind)).collect();
    assert_eq!(args, vec![("req".to_string(), ArgKind::Body)]);
}
