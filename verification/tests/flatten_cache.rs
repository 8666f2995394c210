use etcd_mirror::cache::{Cache, NodeData};
use etcd_mirror::errors::MirrorError;
use etcd_mirror::etcd::EtcdNode;
use etcd_mirror::flatten::store_node_recursive;

fn leaf(key: &str, value: &str, created: u64, modified: u64) -> EtcdNode {
    EtcdNode::leaf(key.to_string(), value.to_string(), created, modified)
}

fn tombstone(key: &str) -> EtcdNode {
    EtcdNode::tombstone(key.to_string(), 0, 0)
}

fn dir(children: Vec<EtcdNode>) -> EtcdNode {
    EtcdNode::directory("/".to_string(), children)
}

#[test]
fn cache_insert_lookup_remove() {
    let mut cache = Cache::empty();
    assert_eq!(cache.len(), 0);
    assert!(cache.lookup("/a").is_none());
    cache.insert_record(NodeData::new("/a".to_string(), "1".to_string(), 3, 4));
    assert_eq!(cache.len(), 1);
    let rec = cache.lookup("/a").unwrap();
    assert_eq!(rec.key(), "/a");
    assert_eq!(rec.value(), "1");
    cache.insert_record(NodeData::new("/a".to_string(), "2".to_string(), 3, 5));
    assert_eq!(cache.len(), 1);
    assert_eq!(cache.lookup("/a").unwrap().value(), "2");
    cache.remove_record("/a");
    assert_eq!(cache.len(), 0);
    assert!(cache.lookup("/a").is_none());
}

#[test]
fn prefix_stripping() {
    let mut cache = Cache::empty();
    let node = leaf("/myapp/resource/foo/data", "bar", 7, 9);
    store_node_recursive(&mut cache, &node, "/myapp").unwrap();
    assert_eq!(cache.len(), 1);
    let rec = cache.lookup("/resource/foo/data").unwrap();
    assert_eq!(rec.key(), "/resource/foo/data");
    assert_eq!(rec.value(), "bar");
    assert!(cache.lookup("/myapp/resource/foo/data").is_none());
}

#[test]
fn prefix_violation_rejected_without_change() {
    let mut cache = Cache::empty();
    cache.insert_record(NodeData::new("/keep".to_string(), "v".to_string(), 1, 1));
    let node = dir(vec![
        leaf("/myapp/resource/a/data", "a", 1, 1),
        leaf("/other/resource/b/data", "b", 1, 1),
    ]);
    let r = store_node_recursive(&mut cache, &node, "/myapp");
    assert_eq!(r, Err(MirrorError::Consistency));
    assert_eq!(cache.len(), 1);
    assert_eq!(cache.lookup("/keep").unwrap().value(), "v");
}

#[test]
fn deletion_removes_present_key() {
    let mut cache = Cache::empty();
    store_node_recursive(&mut cache, &leaf("/myapp/k", "v", 1, 1), "/myapp").unwrap();
    assert_eq!(cache.len(), 1);
    store_node_recursive(&mut cache, &tombstone("/myapp/k"), "/myapp").unwrap();
    assert_eq!(cache.len(), 0);
    assert!(cache.lookup("/k").is_none());
}

#[test]
fn deletion_of_absent_key_is_noop() {
    let mut cache = Cache::empty();
    cache.insert_record(NodeData::new("/other".to_string(), "v".to_string(), 1, 1));
    store_node_recursive(&mut cache, &tombstone("/myapp/gone"), "/myapp").unwrap();
    assert_eq!(cache.len(), 1);
    assert_eq!(cache.lookup("/other").unwrap().value(), "v");
}

#[test]
fn flattening_idempotence() {
    let mut once = Cache::empty();
    let mut twice = Cache::empty();
    let node = dir(vec![
        leaf("/myapp/resource/a/data", "a", 1, 2),
        tombstone("/myapp/resource/b/data"),
        leaf("/myapp/plain", "p", 3, 4),
    ]);
    store_node_recursive(&mut once, &node, "/myapp").unwrap();
    store_node_recursive(&mut twice, &node, "/myapp").unwrap();
    store_node_recursive(&mut twice, &node, "/myapp").unwrap();
    assert_eq!(once.len(), twice.len());
    for key in ["/resource/a/data", "/plain"] {
        let a = once.lookup(key).unwrap();
        let b = twice.lookup(key).unwrap();
        assert_eq!(a.key(), b.key());
        assert_eq!(a.value(), b.value());
    }
    assert!(once.lookup("/resource/b/data").is_none());
    assert!(twice.lookup("/resource/b/data").is_none());
}

#[test]
fn directory_recursion_two_leaves_either_order() {
    let forward = dir(vec![leaf("/k1", "a", 1, 1), leaf("/k2", "b", 2, 2)]);
    let backward = dir(vec![leaf("/k2", "b", 2, 2), leaf("/k1", "a", 1, 1)]);
    let mut c1 = Cache::empty();
    let mut c2 = Cache::empty();
    store_node_recursive(&mut c1, &forward, "").unwrap();
    store_node_recursive(&mut c2, &backward, "").unwrap();
    assert_eq!(c1.len(), 2);
    assert_eq!(c2.len(), 2);
    for c in [&c1, &c2] {
        assert_eq!(c.lookup("/k1").unwrap().value(), "a");
        assert_eq!(c.lookup("/k2").unwrap().value(), "b");
    }
}

#[test]
fn nested_directories_flatten() {
    let inner = EtcdNode::directory(
        "/myapp/resource".to_string(),
        vec![
            leaf("/myapp/resource/x/data", "xv", 1, 1),
            leaf("/myapp/resource/y/data", "yv", 2, 2),
        ],
    );
    let outer = EtcdNode::directory("/myapp".to_string(), vec![inner, leaf("/myapp/top", "t", 3, 3)]);
    let mut cache = Cache::empty();
    store_node_recursive(&mut cache, &outer, "/myapp").unwrap();
    assert_eq!(cache.len(), 3);
    assert_eq!(cache.lookup("/resource/x/data").unwrap().value(), "xv");
    assert_eq!(cache.lookup("/resource/y/data").unwrap().value(), "yv");
    assert_eq!(cache.lookup("/top").unwrap().value(), "t");
}

#[test]
fn later_sibling_overrides_earlier() {
    let node = dir(vec![leaf("/k", "first", 1, 1), leaf("/k", "second", 2, 2)]);
    let mut cache = Cache::empty();
    store_node_recursive(&mut cache, &node, "").unwrap();
    assert_eq!(cache.len(), 1);
    assert_eq!(cache.lookup("/k").unwrap().value(), "second");
}

#[test]
fn resource_values_filters_and_keeps_order() {
    let mut cache = Cache::empty();
    cache.insert_record(NodeData::new("/resource/a/data".to_string(), "av".to_string(), 1, 1));
    cache.insert_record(NodeData::new("/resource/a/meta".to_string(), "m".to_string(), 1, 1));
    cache.insert_record(NodeData::new("/plain".to_string(), "p".to_string(), 1, 1));
    cache.insert_record(NodeData::new("/resource/b/data".to_string(), "bv".to_string(), 1, 1));
    let values = cache.resource_values();
    assert_eq!(values, vec!["av".to_string(), "bv".to_string()]);
}
