use biyard_kit::codegen_files::{artifact_dir, artifact_file, handler_file, handlers_dir, package_dir_from, plan_axum_adapter};

#[test]
fn package_dir_is_on_only_when_set() {
    assert_eq!(package_dir_from(Some("../ts")), Some("../ts".to_string()));
    assert_eq!(package_dir_from(Some("   ")), None);
    assert_eq!(package_dir_from(None), None);
}

#[test]
fn handler_paths() {
    assert_eq!(handlers_dir("pkg", ""), "pkg/src/handlers");
    assert_eq!(handlers_dir("pkg", "posts"), "pkg/src/handlers/posts");
    assert_eq!(handler_file("pkg/src/handlers", "addComment"), "pkg/src/handlers/addComment.ts");
}

#[test]
fn artifact_paths() {
    assert_eq!(artifact_dir(Some("/out"), "/cwd", "dynamo_entities"), "/out/dynamo_entities");
    assert_eq!(artifact_dir(None, "/cwd", "rest_error"), "/cwd/.build/rest_error");
    assert_eq!(artifact_file("/out/x", "UserProfile"), "/out/x/user_profile.rs");
}

#[test]
fn adapter_forwards_typed_params() {
    let plan = plan_axum_adapter("PATCH", "update_post", &vec![false, true, true], true);
    assert_eq!(plan.impl_name, "__update_post_impl");
    assert_eq!(plan.params, vec![(1, "__a1".to_string()), (2, "__a2".to_string())]);
    assert!(plan.awaits);
    assert_eq!(plan.route_fn, "patch");
}
