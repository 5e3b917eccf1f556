use dtypes::{CellError, List, ListCache, Server};

#[test]
fn list_fifo_and_lifo() {
    let mut srv = Server::new();
    let mut list: List<i32> = List::new("test_list");
    list.push_back(&1, &mut srv);
    list.push_back(&2, &mut srv);
    assert_eq!(list.len(&srv), 2);
    assert_eq!(list.pop_front(&mut srv), Some(1));
    list.push_front(&0, &mut srv);
    assert_eq!(list.pop_back(&mut srv), Some(2));
    assert_eq!(list.pop_back(&mut srv), Some(0));
    assert_eq!(list.pop_back(&mut srv), None);
    assert!(list.is_empty(&srv));
    assert!(!srv.contains(&"test_list".to_string()));
}

#[test]
fn list_contains_and_clear() {
    let mut srv = Server::new();
    let mut list: List<String> = List::new("names");
    list.push_back(&"ann".to_string(), &mut srv);
    list.push_back(&"bob".to_string(), &mut srv);
    assert!(list.contains(&"bob".to_string(), &srv));
    assert!(!list.contains(&"cy".to_string(), &srv));
    list.clear(&mut srv);
    assert_eq!(list.len(&srv), 0);
}

#[test]
fn list_iter_by_position() {
    let mut srv = Server::new();
    let mut list: List<i32> = List::new("it");
    for v in [3, 1, 4] {
        list.push_back(&v, &mut srv);
    }
    let mut it = list.iter(&srv);
    let mut seen = Vec::new();
    while let Some(v) = it.next(&srv) {
        seen.push(v);
    }
    assert_eq!(seen, vec![3, 1, 4]);
}

#[test]
fn list_iter_tolerates_shrinking() {
    let mut srv = Server::new();
    let mut list: List<i32> = List::new("shrink");
    list.push_back(&1, &mut srv);
    list.push_back(&2, &mut srv);
    let mut other: List<i32> = List::new("shrink");
    let mut it = list.iter(&srv);
    assert_eq!(it.next(&srv), Some(1));
    other.pop_back(&mut srv);
    assert_eq!(it.next(&srv), None);
    assert_eq!(it.next(&srv), None);
}

#[test]
fn list_refuses_a_text_key() {
    let mut srv = Server::new();
    srv.set_text(&"t".to_string(), "1".to_string(), None);
    let mut list: List<i32> = List::new("t");
    list.push_back(&5, &mut srv);
    assert_eq!(srv.get_text(&"t".to_string()), Some("1".to_string()));
    assert_eq!(list.len(&srv), 0);
    assert_eq!(list.pop_front(&mut srv), None);
}

#[test]
fn list_cache_mirrors_server() {
    let mut srv = Server::new();
    let mut list = ListCache::new("test_list2", &srv);
    list.push_back(1, &mut srv);
    list.push_back(2, &mut srv);
    assert_eq!(list.len(), 2);
    assert_eq!(list.pop_front(&mut srv), Some(1));
    list.push_front(7, &mut srv);
    list.insert(1, 9, &mut srv);
    assert_eq!(list.front(), Some(&7));
    assert_eq!(list.back(), Some(&2));
    assert_eq!(list.get(1), Some(&9));
    assert_eq!(list.get(3), None);
    let fresh: ListCache<i32> = ListCache::new("test_list2", &srv);
    assert_eq!(fresh.len(), 3);
    assert_eq!(fresh.get(0), Some(&7));
    assert_eq!(fresh.get(1), Some(&9));
    assert_eq!(fresh.get(2), Some(&2));
    list.clear(&mut srv);
    assert!(list.is_empty());
    assert_eq!(List::<i32>::new("test_list2").len(&srv), 0);
}

#[test]
fn list_cache_pull_and_errors() {
    let mut srv = Server::new();
    let mut writer: List<i32> = List::new("shared");
    writer.push_back(&10, &mut srv);
    let mut cache: ListCache<i32> = ListCache::without_load("shared");
    assert_eq!(cache.len(), 0);
    assert_eq!(cache.pull(&srv), Ok(()));
    assert_eq!(cache.get(0), Some(&10));
    let mut strings: List<String> = List::new("shared");
    strings.push_back(&"x".to_string(), &mut srv);
    assert_eq!(cache.pull(&srv), Err(CellError::Serialization));
    assert!(cache.is_empty());
    assert_eq!(cache.pop_back(&mut srv), None);
}
