use drt::vars::Vars;

#[test]
fn get_after_insert() {
    let mut vars = Vars::new();
    assert_eq!(vars.len(), 0);
    assert_eq!(vars.get("value"), None);
    vars.insert("value", "unit_test");
    assert_eq!(vars.get("value"), Some(String::from("unit_test")));
    assert_eq!(vars.len(), 1);
}

#[test]
fn insert_again_replaces_the_value() {
    let mut vars = Vars::new();
    vars.insert("k", "one");
    vars.insert("other", "x");
    vars.insert("k", "two");
    assert_eq!(vars.get("k"), Some(String::from("two")));
    assert_eq!(vars.get("other"), Some(String::from("x")));
    assert_eq!(vars.len(), 2);
}
