use biyard_kit::route::{build_format_path, extract_route_params, parse_path};

fn strings(v: &[&str]) -> Vec<String> {
    v.iter().map(|s| s.to_string()).collect()
}

#[test]
fn parse_path_splits_template_names_and_query() {
    let (template, names, query) = parse_path("/api/posts/{id}/comments?after&before");
    assert_eq!(template, "/api/posts/{}/comments");
    assert_eq!(names, strings(&["id"]));
    assert_eq!(query, strings(&["after", "before"]));
}

#[test]
fn parse_path_accepts_colon_placeholders() {
    let (template, names, query) = parse_path("/api/rooms/:room_id/files/:file_id");
    assert_eq!(template, "/api/rooms/{}/files/{}");
    assert_eq!(names, strings(&["room_id", "file_id"]));
    assert!(query.is_empty());
}

#[test]
fn parse_path_keeps_colon_inside_a_segment() {
    let (template, names, _) = parse_path("/a:b/{c}");
    assert_eq!(template, "/a:b/{}");
    assert_eq!(names, strings(&["c"]));
}

#[test]
fn parse_path_drops_empty_query_keys() {
    let (_, _, query) = parse_path("/x?&a&&b&");
    assert_eq!(query, strings(&["a", "b"]));
}

#[test]
fn plain_route_is_its_own_template() {
    let (template, names, query) = parse_path("/api/test");
    assert_eq!(template, "/api/test");
    assert!(names.is_empty());
    assert!(query.is_empty());
}

#[test]
fn unbalanced_brace_is_kept() {
    let (template, names, _) = parse_path("/a}/b");
    assert_eq!(template, "/a}/b");
    assert!(names.is_empty());
}

#[test]
fn extract_route_params_trims_query_keys() {
    let (path, query) = extract_route_params("/api/{space_id}/posts/:post_id?limit & bookmark");
    assert_eq!(path, strings(&["space_id", "post_id"]));
    assert_eq!(query, strings(&["limit", "bookmark"]));
}

#[test]
fn extract_route_params_without_query() {
    let (path, query) = extract_route_params("/api/mcp/search");
    assert!(path.is_empty());
    assert!(query.is_empty());
}

#[test]
fn build_format_path_replaces_placeholders() {
    assert_eq!(build_format_path("/api/{space_id}/posts/:post_id?limit"), "/api/{}/posts/{}");
}

#[test]
fn build_format_path_drops_empty_segments() {
    assert_eq!(build_format_path("//api//x/"), "/api/x");
    assert_eq!(build_format_path(""), "");
}
