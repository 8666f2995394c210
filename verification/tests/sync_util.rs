use etcd_mirror::cache::Cache;
use etcd_mirror::errors::MirrorError;
use etcd_mirror::etcd::EtcdNode;
use etcd_mirror::inventory::capitalise;
use etcd_mirror::json::json_encode_str;
use etcd_mirror::settings::UpstreamSettings;
use etcd_mirror::strutil::{parse_dec_u64, u64_to_dec};
use etcd_mirror::sync::{apply_initial, apply_watch, initial_load_url, parse_etcd_index, watch_url};

fn upstream() -> UpstreamSettings {
    UpstreamSettings {
        ca_certificate: "/etc/tls/ca.pem".to_string(),
        certificate: "/etc/tls/client.pem".to_string(),
        private_key: "/etc/tls/client.key".to_string(),
        server_names: vec!["etcd.example".to_string(), "etcd-b.example".to_string()],
        server_port: 2379,
        key_prefix: "/myapp".to_string(),
    }
}

#[test]
fn initial_url_exact() {
    assert_eq!(
        initial_load_url(&upstream()),
        "https://etcd.example:2379/v2/keys/myapp/resource?recursive=true"
    );
}

#[test]
fn watch_url_exact() {
    assert_eq!(
        watch_url(&upstream(), 41),
        "https://etcd.example:2379/v2/keys/myapp/resource?wait=true&waitIndex=42&recursive=true"
    );
    assert_eq!(
        watch_url(&upstream(), 0),
        "https://etcd.example:2379/v2/keys/myapp/resource?wait=true&waitIndex=1&recursive=true"
    );
}

#[test]
fn decimal_rendering() {
    assert_eq!(u64_to_dec(0), "0");
    assert_eq!(u64_to_dec(7), "7");
    assert_eq!(u64_to_dec(10), "10");
    assert_eq!(u64_to_dec(3040), "3040");
    assert_eq!(u64_to_dec(u64::MAX), "18446744073709551615");
}

#[test]
fn decimal_parsing() {
    assert_eq!(parse_dec_u64("0"), Some(0));
    assert_eq!(parse_dec_u64("12345"), Some(12345));
    assert_eq!(parse_dec_u64("007"), Some(7));
    assert_eq!(parse_dec_u64("18446744073709551615"), Some(u64::MAX));
    assert_eq!(parse_dec_u64("18446744073709551616"), None);
    assert_eq!(parse_dec_u64("99999999999999999999999"), None);
    assert_eq!(parse_dec_u64(""), None);
    assert_eq!(parse_dec_u64("12x"), None);
    assert_eq!(parse_dec_u64("-3"), None);
    assert_eq!(parse_dec_u64(" 3"), None);
}

#[test]
fn etcd_index_header() {
    assert_eq!(parse_etcd_index("825"), Ok(825));
    assert_eq!(parse_etcd_index("junk"), Err(MirrorError::Upstream));
    assert_eq!(parse_etcd_index(""), Err(MirrorError::Upstream));
}

#[test]
fn revision_monotonic_over_iterations() {
    let seed = EtcdNode::leaf("/resource/a/data".to_string(), "v0".to_string(), 1, 1);
    let mut cache = apply_initial(&seed, 10, "").unwrap();
    assert_eq!(cache.watch_revision(), 10);
    let mut last = 10;
    for (i, rev) in [(1u64, 11u64), (2, 12), (3, 40)] {
        let node = EtcdNode::leaf(
            "/resource/a/data".to_string(),
            format!("v{}", i),
            1,
            rev,
        );
        apply_watch(&mut cache, &node, rev, "").unwrap();
        assert_eq!(cache.watch_revision(), rev);
        assert!(cache.watch_revision() >= last);
        last = rev;
    }
    assert_eq!(cache.watch_revision(), 40);
    assert_eq!(cache.lookup("/resource/a/data").unwrap().value(), "v3");
}

#[test]
fn revision_regression_rejected() {
    let seed = EtcdNode::leaf("/resource/a/data".to_string(), "v".to_string(), 1, 1);
    let mut cache = apply_initial(&seed, 10, "").unwrap();
    let node = EtcdNode::leaf("/resource/a/data".to_string(), "stale".to_string(), 1, 9);
    let r = apply_watch(&mut cache, &node, 9, "");
    assert_eq!(r, Err(MirrorError::Consistency));
    assert_eq!(cache.watch_revision(), 10);
    assert_eq!(cache.lookup("/resource/a/data").unwrap().value(), "v");
}

#[test]
fn same_revision_accepted() {
    let seed = EtcdNode::leaf("/resource/a/data".to_string(), "v".to_string(), 1, 1);
    let mut cache = apply_initial(&seed, 10, "").unwrap();
    let node = EtcdNode::leaf("/resource/a/data".to_string(), "w".to_string(), 1, 10);
    apply_watch(&mut cache, &node, 10, "").unwrap();
    assert_eq!(cache.watch_revision(), 10);
    assert_eq!(cache.lookup("/resource/a/data").unwrap().value(), "w");
}

#[test]
fn initial_load_prefix_violation_is_fatal() {
    let node = EtcdNode::leaf("/elsewhere/x".to_string(), "v".to_string(), 1, 1);
    let r = apply_initial(&node, 3, "/myapp");
    assert!(r.is_err());
    assert_eq!(r.err().unwrap(), MirrorError::Consistency);
}

#[test]
fn json_encoding_exact() {
    assert_eq!(json_encode_str(""), "\"\"");
    assert_eq!(json_encode_str("abc"), "\"abc\"");
    assert_eq!(json_encode_str("{\"a\":1}"), "\"{\\\"a\\\":1}\"");
    assert_eq!(json_encode_str("back\\slash"), "\"back\\\\slash\"");
    assert_eq!(json_encode_str("tab\there"), "\"tab\\there\"");
    assert_eq!(json_encode_str("line\nfeed"), "\"line\\nfeed\"");
    assert_eq!(json_encode_str("\r\u{8}\u{c}"), "\"\\r\\b\\f\"");
    assert_eq!(json_encode_str("\u{1}\u{1f}"), "\"\\u0001\\u001f\"");
    assert_eq!(json_encode_str("héllo → 世界"), "\"héllo → 世界\"");
    assert_eq!(json_encode_str("\u{7f}"), "\"\u{7f}\"");
}

#[test]
fn json_encoding_matches_reference_encoder() {
    let samples = [
        "",
        "plain",
        "{\"a\":1}",
        "with \"quotes\" and \\ backslashes",
        "controls: \u{0}\u{1}\u{8}\u{9}\u{a}\u{c}\u{d}\u{1f}",
        "unicode: héllo → 世界 🚀",
        "slash / is kept",
        "\u{7f}",
    ];
    for s in samples {
        let reference = serde_json::to_string(s).unwrap();
        assert_eq!(json_encode_str(s), reference);
    }
}

#[test]
fn capitalise_first_character() {
    assert_eq!(capitalise(""), "");
    assert_eq!(capitalise("abc"), "Abc");
    assert_eq!(capitalise("hello world"), "Hello world");
    assert_eq!(capitalise("Already"), "Already");
    assert_eq!(capitalise("über"), "Über");
    assert_eq!(capitalise("ß"), "SS");
}

#[test]
fn error_messages() {
    assert_eq!(MirrorError::Configuration.message(), "configuration error");
    assert_eq!(MirrorError::Upstream.message(), "upstream error");
    assert_eq!(MirrorError::Consistency.message(), "consistency error");
    assert_eq!(MirrorError::Bind.message(), "bind error");
    assert_eq!(MirrorError::Authentication.message(), "authentication required");
    assert_eq!(MirrorError::NotFound.message(), "not found");
}

#[test]
fn empty_cache_starts_at_revision_zero() {
    let cache = Cache::empty();
    assert_eq!(cache.watch_revision(), 0);
    assert_eq!(cache.len(), 0);
}
