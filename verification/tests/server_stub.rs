use biyard_kit::rust_type::RustType;
use biyard_kit::server_stub::{plan_server_stub, unwrap_form_type, StubArg, StubInput};

fn ty(id: &str, args: Vec<RustType>) -> RustType {
    RustType::Path { ident: id.to_string(), args }
}

fn arg(name: &str, t: RustType) -> StubArg {
    StubArg { name: Some(name.to_string()), ty: t }
}

#[test]
fn stub_keeps_client_args_and_splits_path_query_body() {
    let input = StubInput {
        method: "POST".to_string(),
        path: "/api/posts/{post_id}/comments?after".to_string(),
        extractors: vec!["user".to_string()],
        args: vec![
            arg("post_id", ty("FeedPartition", vec![])),
            arg("after", ty("Option", vec![ty("String", vec![])])),
            arg("user", ty("User", vec![])),
            arg("req", ty("Form", vec![ty("AddCommentRequest", vec![])])),
        ],
    };
    let plan = plan_server_stub(&input);
    assert_eq!(plan.path_template, "/api/posts/{}/comments");
    let names: Vec<String> = plan.params.iter().map(|p| p.name.clone()).collect();
    assert_eq!(names, vec!["post_id".to_string(), "after".to_string(), "req".to_string()]);
    assert_eq!(plan.params[2].ty, ty("AddCommentRequest", vec![]));
    assert_eq!(plan.path_args, vec![0]);
    assert_eq!(plan.query.len(), 1);
    assert_eq!((plan.query[0].arg, plan.query[0].optional), (1, true));
    assert_eq!(plan.body_args, vec![3]);
    assert_eq!(plan.send_fn, "post");
    assert_eq!(plan.body_arg, Some(3));
}

#[test]
fn get_sends_no_body() {
    let input = StubInput {
        method: "GET".to_string(),
        path: "/api/me".to_string(),
        extractors: vec![],
        args: vec![arg("q", ty("String", vec![]))],
    };
    let plan = plan_server_stub(&input);
    assert_eq!(plan.send_fn, "get");
    assert_eq!(plan.body_args, vec![0]);
    assert_eq!(plan.body_arg, None);
}

#[test]
fn form_is_unwrapped() {
    assert_eq!(unwrap_form_type(&ty("Form", vec![ty("T", vec![])])), Some(ty("T", vec![])));
    assert_eq!(unwrap_form_type(&ty("Json", vec![ty("T", vec![])])), None);
}
