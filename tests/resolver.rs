use fileio::descriptor::{encode_descriptor, NodeDescriptor};
use fileio::directory::{location_key, MemoryStore};
use fileio::resolver::{after_directory_reply, after_local_probe, redirect_url, Endpoint, ReadStep};

fn node(id: &str, host: &str, port: u16) -> NodeDescriptor {
    NodeDescriptor { id: id.to_string(), host: host.to_string(), port }
}

#[test]
fn local_hit_is_served_locally() {
    assert!(matches!(after_local_probe("b", "o1", true), ReadStep::ServeLocal));
}

#[test]
fn local_miss_asks_the_directory() {
    match after_local_probe("b", "o1", false) {
        ReadStep::QueryDirectory(k) => assert_eq!(k, "b:o1"),
        other => panic!("unexpected {:?}", other),
    }
}

#[test]
fn peer_node_redirects_to_owner() {
    // Both nodes share one directory.
    let mut shared = MemoryStore::new();
    let a = node("server-100", "node-a", 3001);
    // Node A registers itself and records that it holds o1 in bucket b.
    shared.register(&a);
    shared.record("b", "o1", &a);
    // Node B has no copy of o1.
    let key = match after_local_probe("b", "o1", false) {
        ReadStep::QueryDirectory(k) => k,
        other => panic!("unexpected {:?}", other),
    };
    assert_eq!(key, location_key("b", "o1"));
    let reply = shared.lookup("b", "o1");
    match after_directory_reply("b", "o1", Endpoint::Download, reply) {
        ReadStep::Redirect(url) => assert_eq!(url, "http://node-a:3001/api/buckets/b/files/o1"),
        other => panic!("unexpected {:?}", other),
    }
}

#[test]
fn unreachable_directory_means_not_found() {
    assert!(matches!(after_directory_reply("b", "o1", Endpoint::Download, None), ReadStep::NotFound));
    assert!(matches!(after_directory_reply("b", "o1", Endpoint::Info, None), ReadStep::NotFound));
}

#[test]
fn directory_miss_means_not_found() {
    let shared = MemoryStore::new();
    let reply = shared.lookup("b", "never");
    assert!(matches!(after_directory_reply("b", "never", Endpoint::Download, reply), ReadStep::NotFound));
}

#[test]
fn unusable_owner_record_means_not_found() {
    for doc in ["garbage", r#"{"host":"h"}"#, r#"{"port":80}"#, r#"{"host":1,"port":80}"#, r#"{"host":"h","port":-1}"#] {
        assert!(matches!(after_directory_reply("b", "o", Endpoint::Download, Some(doc.to_string())), ReadStep::NotFound), "{}", doc);
    }
}

#[test]
fn owner_record_needs_only_host_and_port() {
    let doc = r#"{"host":"10.1.2.3","port":70000}"#.to_string();
    match after_directory_reply("b", "o", Endpoint::Download, Some(doc)) {
        ReadStep::Redirect(url) => assert_eq!(url, "http://10.1.2.3:70000/api/buckets/b/files/o"),
        other => panic!("unexpected {:?}", other),
    }
}

#[test]
fn stat_redirects_to_the_info_endpoint() {
    let a = encode_descriptor(&node("server-1", "node-a", 8080));
    match after_directory_reply("b", "o1", Endpoint::Info, Some(a)) {
        ReadStep::Redirect(url) => assert_eq!(url, "http://node-a:8080/api/buckets/b/files/o1/info"),
        other => panic!("unexpected {:?}", other),
    }
}

#[test]
fn stale_self_pointer_still_redirects() {
    let me = node("server-1", "localhost", 3001);
    match after_directory_reply("b", "gone", Endpoint::Download, Some(encode_descriptor(&me))) {
        ReadStep::Redirect(url) => assert_eq!(url, "http://localhost:3001/api/buckets/b/files/gone"),
        other => panic!("unexpected {:?}", other),
    }
}

#[test]
fn redirect_urls() {
    assert_eq!(redirect_url("h", 0, "b", "k", Endpoint::Download), "http://h:0/api/buckets/b/files/k");
    assert_eq!(redirect_url("h", u64::MAX, "b", "k", Endpoint::Info), "http://h:18446744073709551615/api/buckets/b/files/k/info");
}
