use fileio::api::NodeRegisterReq;
use fileio::descriptor::{decode_descriptor, decode_nodes, encode_descriptor, node_id, registration_descriptor, NodeDescriptor};
use fileio::directory::{location_key, MemoryStore};

fn node(id: &str, host: &str, port: u16) -> NodeDescriptor {
    NodeDescriptor { id: id.to_string(), host: host.to_string(), port }
}

#[test]
fn location_keys() {
    assert_eq!(location_key("b", "o1"), "b:o1");
    assert_eq!(location_key("photos", "1-2-cat.png"), "photos:1-2-cat.png");
}

#[test]
fn descriptor_text() {
    assert_eq!(encode_descriptor(&node("server-1", "node-a", 3001)), r#"{"host":"node-a","id":"server-1","port":3001}"#);
    assert_eq!(encode_descriptor(&node("x\"y", "a\\b", 0)), r#"{"host":"a\\b","id":"x\"y","port":0}"#);
    assert_eq!(encode_descriptor(&node("", "h\n", 65535)), r#"{"host":"h\n","id":"","port":65535}"#);
    assert_eq!(
        encode_descriptor(&node("\u{1}\u{1f}\u{8}\u{c}\r\t", "é/\u{7f}", 1)),
        "{\"host\":\"é/\u{7f}\",\"id\":\"\\u0001\\u001f\\b\\f\\r\\t\",\"port\":1}"
    );
}

#[test]
fn descriptor_round_trip() {
    for n in [node("server-1", "node-a", 3001), node("q\"uote", "ünï", 1), node("", "", 65535)] {
        let back = decode_descriptor(&encode_descriptor(&n)).unwrap();
        assert_eq!((back.id, back.host, back.port), (n.id.clone(), n.host.clone(), n.port));
    }
}

#[test]
fn descriptors_that_do_not_parse() {
    assert!(decode_descriptor("not json").is_none());
    assert!(decode_descriptor("[1,2]").is_none());
    assert!(decode_descriptor(r#"{"host":"h","port":1}"#).is_none());
    assert!(decode_descriptor(r#"{"id":"i","host":"h","port":70000}"#).is_none());
    assert!(decode_descriptor(r#"{"id":"i","host":"h","port":"80"}"#).is_none());
    assert!(decode_descriptor(r#"{"id":"i","host":7,"port":80}"#).is_none());
    let n = decode_descriptor(r#"{"port":80, "id":"i", "host":"h", "extra":true}"#).unwrap();
    assert_eq!((n.id.as_str(), n.host.as_str(), n.port), ("i", "h", 80));
}

#[test]
fn node_listing_skips_bad_members() {
    let members = vec![
        encode_descriptor(&node("a", "ha", 1)),
        "garbage".to_string(),
        encode_descriptor(&node("b", "hb", 2)),
    ];
    let nodes = decode_nodes(&members);
    assert_eq!(nodes.len(), 2);
    assert_eq!(nodes[0].id, "a");
    assert_eq!(nodes[1].host, "hb");
    assert!(decode_nodes(&vec![]).is_empty());
}

#[test]
fn node_identity_and_registration_defaults() {
    assert_eq!(node_id(1234), "server-1234");
    assert_eq!(node_id(0), "server-0");
    let own = || node("server-9", "localhost", 3001);
    let r = registration_descriptor(None, own());
    assert_eq!((r.id.as_str(), r.host.as_str(), r.port), ("server-9", "localhost", 3001));
    let req = NodeRegisterReq { id: None, host: Some("10.0.0.2".to_string()), port: Some(8080) };
    let r = registration_descriptor(Some(req), own());
    assert_eq!((r.id.as_str(), r.host.as_str(), r.port), ("server-9", "10.0.0.2", 8080));
    let req = NodeRegisterReq { id: Some("n1".to_string()), host: None, port: None };
    let r = registration_descriptor(Some(req), own());
    assert_eq!((r.id.as_str(), r.host.as_str(), r.port), ("n1", "localhost", 3001));
    let d = r.duplicate();
    assert_eq!((d.id, d.host, d.port), (r.id, r.host, r.port));
}

#[test]
fn store_last_writer_wins() {
    let mut s = MemoryStore::new();
    assert_eq!(s.get_key("b:o1"), None);
    s.set_key("b:o1", "first");
    s.set_key("b:o2", "other");
    assert_eq!(s.get_key("b:o1"), Some("first".to_string()));
    s.set_key("b:o1", "second");
    assert_eq!(s.get_key("b:o1"), Some("second".to_string()));
    assert_eq!(s.get_key("b:o2"), Some("other".to_string()));
    s.del_key("b:o1");
    assert_eq!(s.get_key("b:o1"), None);
    assert_eq!(s.get_key("b:o2"), Some("other".to_string()));
}

#[test]
fn forgetting_an_absent_key_changes_nothing() {
    let mut s = MemoryStore::new();
    s.set_key("b:o2", "v");
    s.register_node("m");
    s.del_key("b:missing");
    assert_eq!(s.get_key("b:o2"), Some("v".to_string()));
    assert_eq!(s.get_key("b:missing"), None);
    assert_eq!(s.list_nodes(), vec!["m".to_string()]);
}

#[test]
fn registering_twice_keeps_the_listing() {
    let mut s = MemoryStore::new();
    let a = encode_descriptor(&node("server-1", "node-a", 3001));
    s.register_node(&a);
    let once = s.list_nodes();
    s.register_node(&a);
    assert_eq!(s.list_nodes(), once);
    assert_eq!(decode_nodes(&s.list_nodes()).len(), 1);
    let b = encode_descriptor(&node("server-2", "node-b", 3002));
    s.register_node(&b);
    assert_eq!(s.list_nodes(), vec![a, b]);
    // Same id, other address: a distinct descriptor, so a distinct member.
    s.register_node(&encode_descriptor(&node("server-1", "node-a", 4000)));
    assert_eq!(s.list_nodes().len(), 3);
}

#[test]
fn directory_record_lookup_forget() {
    let mut s = MemoryStore::new();
    let a = node("server-1", "node-a", 3001);
    let b = node("server-2", "node-b", 3002);
    assert_eq!(s.lookup("b", "o1"), None);
    s.record("b", "o1", &a);
    assert_eq!(s.lookup("b", "o1"), Some(encode_descriptor(&a)));
    assert_eq!(s.get_key("b:o1"), Some(encode_descriptor(&a)));
    s.record("b", "o1", &b);
    assert_eq!(s.lookup("b", "o1"), Some(encode_descriptor(&b)));
    s.record("b", "o2", &a);
    s.forget("b", "o1");
    assert_eq!(s.lookup("b", "o1"), None);
    assert_eq!(s.lookup("b", "o2"), Some(encode_descriptor(&a)));
    s.forget("b", "missing");
    assert_eq!(s.lookup("b", "o2"), Some(encode_descriptor(&a)));
}

#[test]
fn registry_register_and_list() {
    let mut s = MemoryStore::new();
    assert!(s.nodes().is_empty());
    let a = node("server-1", "node-a", 3001);
    s.register(&a);
    s.register(&a);
    let listed = s.nodes();
    assert_eq!(listed.len(), 1);
    assert_eq!((listed[0].id.as_str(), listed[0].host.as_str(), listed[0].port), ("server-1", "node-a", 3001));
    s.register_node("not a descriptor");
    s.register(&node("server-2", "node-b", 3002));
    let listed = s.nodes();
    assert_eq!(listed.len(), 2);
    assert_eq!(listed[1].id, "server-2");
}
