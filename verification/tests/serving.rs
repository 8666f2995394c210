use etcd_mirror::cache::{Cache, NodeData};
use etcd_mirror::etcd::EtcdNode;
use etcd_mirror::handler::{handle_request, ContentType, Response};
use etcd_mirror::render::{render_resource_body, render_resources_body, render_value_body};
use etcd_mirror::routes::{route, RouteMatch};
use etcd_mirror::sync::{apply_initial, apply_watch};

fn widget_cache() -> Cache {
    let mut cache = Cache::empty();
    cache.insert_record(NodeData::new(
        "/resource/widget/data".to_string(),
        "wv".to_string(),
        1,
        1,
    ));
    cache
}

fn get(cache: &Cache, token: &Option<String>, path: &str, auth: Option<&str>) -> Response {
    handle_request(cache, token, "GET", path, auth)
}

#[test]
fn route_table_matches_in_order() {
    assert!(matches!(route("/raw/resources"), RouteMatch::RawResources));
    match route("/raw/key/resource/widget/data") {
        RouteMatch::RawKey(k) => assert_eq!(k, "/resource/widget/data"),
        _ => panic!("expected a raw key match"),
    }
    match route("/raw/resource/widget") {
        RouteMatch::RawResource(n) => assert_eq!(n, "widget"),
        _ => panic!("expected a raw resource match"),
    }
    assert!(matches!(route("/raw/key"), RouteMatch::NoMatch));
    assert!(matches!(route("/raw/key/"), RouteMatch::NoMatch));
    assert!(matches!(route("/raw/resource/"), RouteMatch::NoMatch));
    assert!(matches!(route("/raw/resourcesx"), RouteMatch::NoMatch));
    assert!(matches!(route("/other"), RouteMatch::NoMatch));
    assert!(matches!(route(""), RouteMatch::NoMatch));
}

#[test]
fn route_precedence_no_cross_match() {
    // The literal listing path takes the listing route, never the
    // single-resource route, and vice versa.
    assert!(matches!(route("/raw/resources"), RouteMatch::RawResources));
    match route("/raw/resource/s") {
        RouteMatch::RawResource(n) => assert_eq!(n, "s"),
        _ => panic!("expected a raw resource match"),
    }
    match route("/raw/resource/resources") {
        RouteMatch::RawResource(n) => assert_eq!(n, "resources"),
        _ => panic!("expected a raw resource match"),
    }
}

#[test]
fn raw_key_hit_and_miss() {
    let cache = widget_cache();
    let hit = get(&cache, &None, "/raw/key/resource/widget/data", None);
    assert_eq!(hit.status, 200);
    assert_eq!(hit.content_type, ContentType::Json);
    assert_eq!(hit.body, "{\n  \"value\":\"wv\"\n}\n");
    let miss = get(&cache, &None, "/raw/key/missing", None);
    assert_eq!(miss.status, 404);
    assert_eq!(miss.content_type, ContentType::PlainText);
    assert_eq!(miss.body, "NOT FOUND\n");
}

#[test]
fn raw_resource_hit_and_miss() {
    let cache = widget_cache();
    let hit = get(&cache, &None, "/raw/resource/widget", None);
    assert_eq!(hit.status, 200);
    assert_eq!(hit.body, "{\n  \"resource\":\"wv\"\n}\n");
    let miss = get(&cache, &None, "/raw/resource/other", None);
    assert_eq!(miss.status, 404);
}

#[test]
fn raw_resources_listing() {
    let mut cache = widget_cache();
    cache.insert_record(NodeData::new(
        "/resource/gadget/data".to_string(),
        "gv".to_string(),
        2,
        2,
    ));
    cache.insert_record(NodeData::new("/plain".to_string(), "p".to_string(), 3, 3));
    let r = get(&cache, &None, "/raw/resources", None);
    assert_eq!(r.status, 200);
    assert_eq!(r.content_type, ContentType::Json);
    assert_eq!(r.body, "{\n  \"resources\": [\n    \"wv\",\n    \"gv\"\n  ]\n}\n");
}

#[test]
fn raw_resources_empty_is_valid_json() {
    let cache = Cache::empty();
    let r = get(&cache, &None, "/raw/resources", None);
    assert_eq!(r.status, 200);
    assert_eq!(r.body, "{\n  \"resources\": [\n  ]\n}\n");
}

#[test]
fn non_get_is_no_match() {
    let cache = widget_cache();
    for method in ["POST", "PUT", "DELETE", "HEAD", "get"] {
        let r = handle_request(&cache, &None, method, "/raw/resources", None);
        assert_eq!(r.status, 404);
        assert_eq!(r.body, "NOT FOUND\n");
    }
}

#[test]
fn unmatched_route_is_not_found() {
    let cache = widget_cache();
    let r = get(&cache, &None, "/favicon.ico", None);
    assert_eq!(r.status, 404);
    assert_eq!(r.content_type, ContentType::PlainText);
    assert_eq!(r.body, "NOT FOUND\n");
}

#[test]
fn auth_gate() {
    let cache = widget_cache();
    let token = Some("secret".to_string());
    let ok = get(&cache, &token, "/raw/resources", Some("Bearer secret"));
    assert_eq!(ok.status, 200);
    for bad in [
        None,
        Some("Bearer wrong"),
        Some("Bearer "),
        Some("secret"),
        Some("bearer secret"),
        Some("Bearer secrets"),
    ] {
        let r = get(&cache, &token, "/raw/resources", bad);
        assert_eq!(r.status, 401);
        assert_eq!(r.content_type, ContentType::PlainText);
        assert_eq!(r.body, "MUST AUTHENTICATE\n");
    }
    // Authentication is checked before any route: an unmatched path still
    // yields 401, not 404.
    let r = get(&cache, &token, "/no/such/route", None);
    assert_eq!(r.status, 401);
}

#[test]
fn no_token_configured_passes() {
    let cache = widget_cache();
    let r = get(&cache, &None, "/raw/resource/widget", None);
    assert_eq!(r.status, 200);
    let r = get(&cache, &None, "/raw/resource/widget", Some("Bearer anything"));
    assert_eq!(r.status, 200);
}

#[test]
fn render_bodies_exact() {
    assert_eq!(render_value_body("bar"), "{\n  \"value\":\"bar\"\n}\n");
    assert_eq!(render_resource_body("{\"a\":1}"), "{\n  \"resource\":\"{\\\"a\\\":1}\"\n}\n");
    assert_eq!(render_resources_body(&vec![]), "{\n  \"resources\": [\n  ]\n}\n");
    assert_eq!(
        render_resources_body(&vec!["a".to_string(), "b".to_string()]),
        "{\n  \"resources\": [\n    \"a\",\n    \"b\"\n  ]\n}\n"
    );
}

#[test]
fn end_to_end_load_watch_serve() {
    // Initial load: a directory holding one resource leaf.
    let tree = EtcdNode::directory(
        "/".to_string(),
        vec![EtcdNode::leaf(
            "/resource/widget/data".to_string(),
            "{\"a\":1}".to_string(),
            5,
            5,
        )],
    );
    let mut cache = apply_initial(&tree, 5, "").unwrap();
    assert_eq!(cache.watch_revision(), 5);
    let r = get(&cache, &None, "/raw/resource/widget", None);
    assert_eq!(r.status, 200);
    assert_eq!(r.body, "{\n  \"resource\":\"{\\\"a\\\":1}\"\n}\n");
    let r = get(&cache, &None, "/raw/resources", None);
    assert_eq!(r.body, "{\n  \"resources\": [\n    \"{\\\"a\\\":1}\"\n  ]\n}\n");

    // A watch response reports the same key with no value: a deletion.
    let deletion = EtcdNode::tombstone("/resource/widget/data".to_string(), 5, 6);
    apply_watch(&mut cache, &deletion, 6, "").unwrap();
    assert_eq!(cache.watch_revision(), 6);
    let r = get(&cache, &None, "/raw/resource/widget", None);
    assert_eq!(r.status, 404);
    let r = get(&cache, &None, "/raw/resources", None);
    assert_eq!(r.status, 200);
    assert_eq!(r.body, "{\n  \"resources\": [\n  ]\n}\n");
}
