use kittypaws::dict::Dict;

#[test]
fn dict_keeps_insertion_order_and_replaces_in_place() {
    let mut d: Dict<u32> = Dict::new();
    assert_eq!(d.len(), 0);
    d.insert("b".to_string(), 1);
    d.insert("a".to_string(), 2);
    d.insert("b".to_string(), 3);
    assert_eq!(d.len(), 2);
    assert_eq!(d.key_at(0), "b");
    assert_eq!(*d.value_at(0), 3);
    assert_eq!(d.key_at(1), "a");
    assert_eq!(*d.value_at(1), 2);
}

#[test]
fn dict_finds_values_by_key() {
    let mut d: Dict<u32> = Dict::new();
    d.insert("x".to_string(), 7);
    assert_eq!(d.get(&"x".to_string()), Some(&7));
    assert_eq!(d.get(&"y".to_string()), None);
    assert_eq!(d.position(&"x".to_string()), Some(0));
    assert_eq!(d.position(&"".to_string()), None);
    assert!(d.contains_key(&"x".to_string()));
    assert!(!d.contains_key(&"X".to_string()));
}

#[test]
fn dict_extend_lets_the_other_side_win() {
    let mut d: Dict<String> = Dict::new();
    d.insert("a".to_string(), "1".to_string());
    d.insert("b".to_string(), "2".to_string());
    let mut e: Dict<String> = Dict::new();
    e.insert("b".to_string(), "two".to_string());
    e.insert("c".to_string(), "three".to_string());
    d.extend(&e);
    assert_eq!(d.len(), 3);
    assert_eq!(d.get(&"a".to_string()), Some(&"1".to_string()));
    assert_eq!(d.get(&"b".to_string()), Some(&"two".to_string()));
    assert_eq!(d.get(&"c".to_string()), Some(&"three".to_string()));
    assert_eq!(e.len(), 2);
}

#[test]
fn dict_clone_is_a_copy() {
    let mut d: Dict<String> = Dict::new();
    d.insert("a".to_string(), "1".to_string());
    let mut c = d.clone();
    c.insert("a".to_string(), "changed".to_string());
    assert_eq!(d.get(&"a".to_string()), Some(&"1".to_string()));
    assert_eq!(c.get(&"a".to_string()), Some(&"changed".to_string()));
}

#[test]
fn dict_clone_keeps_every_key_and_value_in_order() {
    let mut d: Dict<String> = Dict::new();
    d.insert("b".to_string(), "2".to_string());
    d.insert("a".to_string(), "1".to_string());
    let c = d.clone();
    assert_eq!(c.len(), 2);
    assert_eq!(c.key_at(0), "b");
    assert_eq!(c.value_at(0), "2");
    assert_eq!(c.key_at(1), "a");
    assert_eq!(c.value_at(1), "1");
}
