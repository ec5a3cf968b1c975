use noise::names::ObjectNames;

#[test]
fn object_names_group_ids_in_order() {
    let mut o = ObjectNames::new();
    o.add(String::from("coin"), 3);
    o.add(String::from("door"), 9);
    o.add(String::from("coin"), 4);
    assert_eq!(o.ids_of("coin"), Some(vec![3, 4]));
    assert_eq!(o.ids_of("door"), Some(vec![9]));
    assert_eq!(o.ids_of("lamp"), None);
}

#[test]
fn object_names_empty() {
    let o = ObjectNames::new();
    assert_eq!(o.ids_of(""), None);
}
