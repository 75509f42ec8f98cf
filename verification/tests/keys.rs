use mate::key::{str_eq, KeyImpl, Token};
use mate::keyed::KeyedVec;
use mate::stream::{ByteRead, ByteWrite, MemoryStream};

#[test]
fn keys_compare_by_text() {
    let owned: KeyImpl = String::from("robot.status").into();
    let fixed: KeyImpl = "robot.status".into();
    assert_eq!(owned, fixed);
    assert_eq!(fixed.as_str(), "robot.status");
    assert_eq!(fixed.to_string(), "robot.status".to_owned());
    assert_eq!(String::from(fixed.copy_key()), "robot.status".to_owned());
    assert!(matches!(fixed.owned(), KeyImpl::Owned(s) if s == "robot.status"));
    assert!(str_eq("abc", "abc"));
    assert!(!str_eq("abc", "abd"));
    assert!(!str_eq("ab", "abc"));
}

#[test]
fn tokens_carry_their_key() {
    let t: Token<u8> = Token::new("a.b");
    assert_eq!(t.0, KeyImpl::from("a.b"));
    let c: Token<u8> = Token::new_const("a.b");
    assert_eq!(c.clone().0, t.0);
}

#[test]
fn keyed_vec_maps_keys_to_values() {
    let mut v: KeyedVec<u32> = KeyedVec::new();
    v.insert("x".into(), 1);
    v.insert("y".into(), 2);
    v.insert("x".into(), 3);
    assert_eq!(v.len(), 2);
    assert_eq!(v.get(&"x".into()), Some(&3));
    assert!(v.contains(&"y".into()));
    v.remove(&"y".into());
    assert!(!v.contains(&"y".into()));
    assert_eq!(v.find(&"x".into()), Some(0));
    v.clear();
    assert_eq!(v.len(), 0);
}

#[test]
fn stream_reads_back_what_was_written() {
    let mut s = MemoryStream::new(vec![9, 9, 9]);
    s.set_position(5);
    assert_eq!(s.write_bytes(&[1, 2]), Ok(2));
    assert_eq!(s.get_ref(), &vec![9, 9, 9, 0, 0, 1, 2]);
    s.set_position(5);
    assert_eq!(s.read_bytes(10), Ok(vec![1, 2]));
    assert_eq!(s.position(), 7);
    assert_eq!(s.read_bytes(10), Ok(Vec::new()));
}
