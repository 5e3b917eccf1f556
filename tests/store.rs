use dtypes::Server;

#[test]
fn leases_lapse_with_the_clock() {
    let mut srv = Server::new();
    let k = "lease".to_string();
    srv.set_num(&k, 5, Some(100));
    srv.advance(99);
    assert_eq!(srv.get_num(&k), Some(5));
    assert!(srv.expire(&k, 50));
    srv.advance(49);
    assert!(srv.contains(&k));
    srv.advance(1);
    assert!(!srv.contains(&k));
    assert!(!srv.expire(&k, 50));
    assert_eq!(srv.now(), 149);
}

#[test]
fn counters_count_and_refuse_text() {
    let mut srv = Server::new();
    let c = "c".to_string();
    assert_eq!(srv.incr(&c), Some(1));
    assert_eq!(srv.incr(&c), Some(2));
    srv.set_num(&c, u64::MAX, None);
    assert_eq!(srv.incr(&c), None);
    assert_eq!(srv.get_num(&c), Some(u64::MAX));
    let t = "t".to_string();
    srv.set_text(&t, "x".to_string(), None);
    assert_eq!(srv.incr(&t), None);
    assert_eq!(srv.get_num(&t), None);
}

#[test]
fn prefix_count_sees_live_keys_only() {
    let mut srv = Server::new();
    srv.set_num(&"k:w:1".to_string(), 1, Some(10));
    srv.set_num(&"k:w:2".to_string(), 1, None);
    srv.set_num(&"k:x".to_string(), 1, None);
    assert_eq!(srv.count_prefixed(&"k:w:".to_string()), 2);
    srv.advance(10);
    assert_eq!(srv.count_prefixed(&"k:w:".to_string()), 1);
    assert!(srv.del(&"k:w:2".to_string()));
    assert!(!srv.del(&"k:w:2".to_string()));
    assert_eq!(srv.count_prefixed(&"k:w:".to_string()), 0);
}

#[test]
fn lists_on_the_server() {
    let mut srv = Server::new();
    let k = "l".to_string();
    assert_eq!(srv.push_item(&k, "b".to_string(), false), Some(1));
    assert_eq!(srv.push_item(&k, "a".to_string(), true), Some(2));
    assert_eq!(srv.list_all(&k), Some(vec!["a".to_string(), "b".to_string()]));
    assert_eq!(srv.list_get(&k, 1), Some("b".to_string()));
    assert_eq!(srv.list_get(&k, 2), None);
    assert_eq!(srv.pop_item(&k, false), Some("b".to_string()));
    assert_eq!(srv.pop_item(&k, true), Some("a".to_string()));
    assert_eq!(srv.pop_item(&k, true), None);
    assert_eq!(srv.list_len(&k), Some(0));
    assert!(!srv.contains(&k));
    srv.set_text(&k, "x".to_string(), None);
    assert_eq!(srv.list_len(&k), None);
    assert_eq!(srv.push_item(&k, "c".to_string(), false), None);
}
