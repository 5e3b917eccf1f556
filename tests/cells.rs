use dtypes::{CellError, DString, Dbool, Di32, Du64, Generic, Server};

#[test]
fn test_bool() {
    let mut srv = Server::new();
    let mut b1 = Dbool::with_value(true, "b1", &mut srv);
    let mut b2 = Dbool::with_value(false, "b2", &mut srv);
    let b3 = Dbool::with_value(true, "b3", &mut srv);
    let b4 = Dbool::with_value(false, "b4", &mut srv);
    assert!(*b1.cached().unwrap());
    assert_eq!(*b2.cached().unwrap(), false);
    b1.store(false, &mut srv);
    assert!(!(*b1.cached().unwrap()));
    b1 = b1.bitand(b3, &mut srv).unwrap();
    assert!(!(*b1.cached().unwrap()));
    b2 = b2.bitor(b4, &mut srv).unwrap();
    assert_eq!(*b2.cached().unwrap(), false);
    b1 = b1.bitxor(b2, &mut srv).unwrap();
    assert!(!(*b1.cached().unwrap()));
}

#[test]
fn test_equalsign() {
    let mut srv = Server::new();
    let mut b1 = Dbool::with_value(true, "b1", &mut srv);
    let b2 = Dbool::with_value(false, "b2", &mut srv);
    b1.store(false, &mut srv);
    assert!(!*b1.cached().unwrap());
    assert!(!b2.cached().unwrap());
}

#[test]
fn bool_type_test_partialeq() {
    let mut srv = Server::new();
    let b1 = Dbool::with_value(true, "b5", &mut srv);
    assert_eq!(b1.cached(), Some(&true));
    assert_ne!(b1.cached(), Some(&false));
}

#[test]
fn generic_test_partialeq() {
    let mut srv = Server::new();
    let s1 = Generic::with_value(2, "test_partialeq", &mut srv);
    assert_eq!(s1.cached(), Some(&2));
}

#[test]
fn integer_test_add() {
    let mut srv = Server::new();
    let mut i32 = Di32::with_value(1, "test_add", &mut srv);
    i32 = i32.add(Di32::with_value(2, "test_add2", &mut srv), &mut srv).unwrap();
    assert_eq!(i32.cached(), Some(&3));
}

#[test]
fn integer_test_sub() {
    let mut srv = Server::new();
    let mut i32 = Di32::with_value(1, "test_sub", &mut srv);
    i32 = i32.sub(Di32::with_value(2, "test_sub2", &mut srv), &mut srv).unwrap();
    assert_eq!(i32.cached(), Some(&-1));
}

#[test]
fn integer_test_mul() {
    let mut srv = Server::new();
    let mut i32 = Di32::with_value(1, "test_mul", &mut srv);
    i32 = i32.mul(Di32::with_value(2, "test_mul2", &mut srv), &mut srv).unwrap();
    assert_eq!(i32.cached(), Some(&2));
}

#[test]
fn integer_test_div() {
    let mut srv = Server::new();
    let mut i32 = Di32::with_value(1, "test_div", &mut srv);
    i32 = i32.div(Di32::with_value(2, "test_div2", &mut srv), &mut srv).unwrap();
    assert_eq!(i32.cached(), Some(&0));
}

#[test]
fn integer_test_multiple_calculations() {
    let mut srv = Server::new();
    let mut i32 = Di32::with_value(1, "test_multiple_calculations", &mut srv);
    i32 = i32.add(Di32::with_value(2, "test_multiple_calculations2", &mut srv), &mut srv).unwrap();
    i32 = i32.sub(Di32::with_value(3, "test_multiple_calculations3", &mut srv), &mut srv).unwrap();
    i32 = i32.mul(Di32::with_value(4, "test_multiple_calculations4", &mut srv), &mut srv).unwrap();
    i32 = i32.div(Di32::with_value(5, "test_multiple_calculations5", &mut srv), &mut srv).unwrap();
    assert_eq!(i32.cached(), Some(&0));
}

#[test]
fn integer_test_add_assign() {
    let mut srv = Server::new();
    let mut i32 = Di32::with_value(1, "test_add_assign", &mut srv);
    i32.add_assign(Di32::with_value(2, "test_add_assign2", &mut srv), &mut srv).unwrap();
    assert_eq!(i32.cached(), Some(&3));
}

#[test]
fn test_into() {
    let mut srv = Server::new();
    let i32 = Di32::with_value(1, "test_into", &mut srv);
    let i: i32 = i32.into_inner(&mut srv).unwrap();
    assert_eq!(i, 1);
}

#[test]
fn test_from() {
    let mut srv = Server::new();
    let i32 = Di32::with_value(1, "test_from", &mut srv);
    let i: i32 = i32.into_inner(&mut srv).unwrap();
    assert_eq!(i, 1);
}

#[test]
fn string_test_string() {
    let mut srv = Server::new();
    let mut s1 = DString::with_value("Hello".to_string(), "s1", &mut srv);
    let mut s2 = DString::with_value("World".to_string(), "s2", &mut srv);
    let mut s3 = DString::with_value("Together".to_string(), "s3", &mut srv);
    assert_eq!(s1.cached().map(|s| s.as_str()), Some("Hello"));
    assert_eq!(s2.cached().map(|s| s.as_str()), Some("World"));
    s1 = s1.concat(&s2, &mut srv);
    assert_eq!(s1.cached().map(|s| s.as_str()), Some("HelloWorld"));
    s2 = s1.concat(&s3, &mut srv);
    assert_eq!(s2.cached().map(|s| s.as_str()), Some("HelloWorldTogether"));
    s3.push_str("test", &mut srv);
    assert_eq!(s3.cached().map(|s| s.as_str()), Some("Togethertest"));
}

#[test]
fn string_test_partialeq() {
    let mut srv = Server::new();
    let s1 = DString::with_value("Hello".to_string(), "s1", &mut srv);
    assert_eq!(s1.cached().map(|s| s.as_str()), Some("Hello"));
    assert_ne!(s1.cached().map(|s| s.as_str()), Some("World"));
}

#[test]
fn handoff_between_two_handles() {
    let mut srv = Server::new();
    let mut a = DString::with_value("Hello".to_string(), "test", &mut srv);
    assert_eq!(a.cached().map(|s| s.as_str()), Some("Hello"));
    let mut b = DString::with_load("test", &srv);
    assert_eq!(b.cached().map(|s| s.as_str()), Some("Hello"));
    a.store("World".to_string(), &mut srv);
    assert_eq!(b.acquire(&srv).map(|s| s.as_str()), Ok("World"));
    assert_eq!(b.cached().map(|s| s.as_str()), Some("World"));
}

#[test]
fn sum_consumes_right_cell() {
    let mut srv = Server::new();
    let mut x = Di32::with_value(1, "a", &mut srv);
    x = x.add(Di32::with_value(2, "b", &mut srv), &mut srv).unwrap();
    assert_eq!(x.cached(), Some(&3));
    let b = Di32::with_load("b", &srv);
    assert_eq!(b.cached(), None);
    let a = Di32::with_load("a", &srv);
    assert_eq!(a.cached(), Some(&3));
}

#[test]
fn round_trip_through_the_server() {
    let mut srv = Server::new();
    let _w = Du64::with_value(18_446_744_073_709_551_615, "big", &mut srv);
    let r = Du64::with_load("big", &srv);
    assert_eq!(r.cached(), Some(&18_446_744_073_709_551_615));
    let _s = DString::with_value("quote \" and \\ slash".to_string(), "q", &mut srv);
    let t = DString::with_load("q", &srv);
    assert_eq!(t.cached().map(|s| s.as_str()), Some("quote \" and \\ slash"));
    let _n = Di32::with_value(-42, "neg", &mut srv);
    assert_eq!(Di32::with_load("neg", &srv).cached(), Some(&-42));
}

#[test]
fn stored_text_is_json() {
    let mut srv = Server::new();
    let _a = Di32::with_value(-17, "n", &mut srv);
    let _b = DString::with_value("Hi".to_string(), "s", &mut srv);
    let _c = Dbool::with_value(true, "t", &mut srv);
    assert_eq!(srv.get_text(&"n".to_string()), Some("-17".to_string()));
    assert_eq!(srv.get_text(&"s".to_string()), Some("\"Hi\"".to_string()));
    assert_eq!(srv.get_text(&"t".to_string()), Some("true".to_string()));
}

#[test]
fn store_twice_is_store_once() {
    let mut srv = Server::new();
    let mut a = Di32::new("same");
    a.store(7, &mut srv);
    let once = srv.get_text(&"same".to_string());
    a.store(7, &mut srv);
    assert_eq!(srv.get_text(&"same".to_string()), once);
    assert_eq!(a.cached(), Some(&7));
}

#[test]
fn value_default_only_fills_absent_keys() {
    let mut srv = Server::new();
    let a = Di32::with_value_default(5, "d", &mut srv);
    assert_eq!(a.cached(), Some(&5));
    let b = Di32::with_value_default(9, "d", &mut srv);
    assert_eq!(b.cached(), Some(&5));
    assert_eq!(Di32::with_load("d", &srv).cached(), Some(&5));
}

#[test]
fn cell_errors() {
    let mut srv = Server::new();
    let mut a = Di32::new("missing");
    assert_eq!(a.acquire(&srv).err(), Some(CellError::NotFound));
    assert_eq!(a.into_inner(&mut srv).err(), Some(CellError::NotFound));
    srv.set_text(&"bad".to_string(), "not json".to_string(), None);
    let mut b = Di32::new("bad");
    assert_eq!(b.acquire(&srv).err(), Some(CellError::Serialization));
    assert_eq!(b.cached(), None);
    let x = Di32::with_value(1, "x", &mut srv);
    assert_eq!(x.add(Di32::new("empty"), &mut srv).err(), Some(CellError::NotFound));
}

#[test]
fn empty_left_cache_takes_right_value() {
    let mut srv = Server::new();
    let x = Di32::new("l");
    let y = Di32::with_value(4, "r", &mut srv);
    let z = x.mul(y, &mut srv).unwrap();
    assert_eq!(z.cached(), Some(&4));
    let mut s = DString::new("e");
    s.push_str("abc", &mut srv);
    assert_eq!(s.cached().map(|v| v.as_str()), Some("abc"));
}

#[test]
fn division_rounds_toward_zero() {
    let mut srv = Server::new();
    let x = Di32::with_value(-7, "q1", &mut srv);
    let x = x.div(Di32::with_value(2, "q2", &mut srv), &mut srv).unwrap();
    assert_eq!(x.cached(), Some(&-3));
    let mut y = Di32::with_value(10, "q3", &mut srv);
    y.sub_assign(Di32::with_value(4, "q4", &mut srv), &mut srv).unwrap();
    assert_eq!(y.cached(), Some(&6));
}

#[test]
fn acquire_mut_changes_in_place() {
    let mut srv = Server::new();
    let mut a = Di32::with_value(3, "m", &mut srv);
    *a.acquire_mut(&srv).unwrap() += 4;
    assert_eq!(a.cached(), Some(&7));
    assert_eq!(Di32::with_load("m", &srv).cached(), Some(&3));
    let v = *a.cached().unwrap();
    a.store(v, &mut srv);
    assert_eq!(Di32::with_load("m", &srv).cached(), Some(&7));
    let mut b = Di32::new("nothing");
    assert_eq!(b.acquire_mut(&srv).err(), Some(CellError::NotFound));
}
