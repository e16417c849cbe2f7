use nsh::variable::Variable;

#[test]
fn a_new_store_holds_nothing() {
    let store = Variable::new();
    assert_eq!(store.get("PATH".to_owned()), None);
}

#[test]
fn insert_overwrites() {
    let mut store = Variable::new();
    store.insert("KEY".to_owned(), "one".to_owned());
    assert_eq!(store.get("KEY".to_owned()), Some("one"));
    store.insert("KEY".to_owned(), "two".to_owned());
    assert_eq!(store.get("KEY".to_owned()), Some("two"));
    assert_eq!(store.get("key".to_owned()), None);
}

#[test]
fn remove_forgets_one_name() {
    let mut store = Variable::new();
    store.insert("A".to_owned(), "1".to_owned());
    store.insert("B".to_owned(), "2".to_owned());
    store.remove("A".to_owned());
    assert_eq!(store.get("A".to_owned()), None);
    assert_eq!(store.get("B".to_owned()), Some("2"));
    store.remove("missing".to_owned());
    assert_eq!(store.get("B".to_owned()), Some("2"));
}

#[test]
fn append_joins_with_a_colon() {
    let mut store = Variable::new();
    store.append("PATH".to_owned(), "/bin".to_owned());
    assert_eq!(store.get("PATH".to_owned()), Some("/bin"));
    store.append("PATH".to_owned(), "/usr/bin".to_owned());
    assert_eq!(store.get("PATH".to_owned()), Some("/bin:/usr/bin"));
}
