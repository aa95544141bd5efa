use capnpc_core::cpp::ast::{FullyQualifiedName, Name, Namespace};

#[test]
fn test_name() {
    let n = Name::from("HelloWorld");

    assert_eq!(String::from("HelloWorld"), n.to_fixed_case());
    assert_eq!(String::from("HelloWorld"), n.to_upper_camel_case(&[]));
    assert_eq!(String::from("helloWorld"), n.to_lower_camel_case(&[]));
    assert_eq!(String::from("hello_world"), n.to_snake_case(&[]));
    assert_eq!(String::from("HELLO_WORLD"), n.to_screaming_snake_case(&[]));
}

#[test]
fn test_namespace() {
    let mut n = Namespace::empty();
    n.get_or_create_namespace_mut(&FullyQualifiedName::from(
        "Test::A".split("::").collect::<Vec<&str>>(),
    ));
    n.get_or_create_namespace_mut(&FullyQualifiedName::from(
        "Test::B".split("::").collect::<Vec<&str>>(),
    ));

    assert_eq!(n.list_namespaces().len(), 3);
}

#[test]
fn test_fqn_prefix() {
    let root = FullyQualifiedName::empty();
    let a = &FullyQualifiedName::from("Test::A".split("::").collect::<Vec<&str>>());
    let b = &FullyQualifiedName::from("Test::A::B".split("::").collect::<Vec<&str>>());

    assert_eq!(a.is_prefixed_by(&root), true);
    assert_eq!(b.is_prefixed_by(&root), true);
    assert_eq!(b.is_prefixed_by(&a), true);

    assert_eq!(a.is_prefixed_by(&b), false);
}

#[test]
fn casing_reserved_words() {
    let n = Name::from("Box");
    assert_eq!(String::from("Box_"), n.to_upper_camel_case(&["Box", "box", "move"]));
    assert_eq!(String::from("box_"), n.to_snake_case(&["Box", "box", "move"]));
    assert_eq!(String::from("Box"), n.to_upper_camel_case(&[]));
}

#[test]
fn casing_sanitizes_paths_and_plus() {
    let n = Name::from("a/b+c");
    assert_eq!(String::from("a_b_plusc"), n.to_fixed_case());
}

#[test]
fn casing_idempotent_in_practice() {
    let n = Name::from("SomeLongName");
    let first = n.to_lower_camel_case(&[]);
    let second = n.to_lower_camel_case(&[]);
    assert_eq!(first, second);
    assert_eq!(first, String::from("someLongName"));
}

#[test]
fn with_prepended_keeps_tokens() {
    let n = Name::from("World").with_prepended("hello");
    assert_eq!(String::from("helloWorld"), n.to_fixed_case());
    assert_eq!(String::from("hello_world"), n.to_snake_case(&[]));
}

#[test]
fn namespace_get_and_contains() {
    let mut n = Namespace::empty();
    let path = FullyQualifiedName::from("Outer::Inner".split("::").collect::<Vec<&str>>());
    assert!(!n.contains_namespace(&path));
    n.get_or_create_namespace_mut(&path);
    assert!(n.contains_namespace(&path));
    assert!(n.get_namespace(&path).is_some());
    let missing = FullyQualifiedName::from(vec!["Other"]);
    assert!(n.get_namespace(&missing).is_none());
}

#[test]
fn fqn_head_tail_parent_last() {
    let f = FullyQualifiedName::from("A::B::C".split("::").collect::<Vec<&str>>());
    assert_eq!(f.head().unwrap().to_fixed_case(), "A");
    assert_eq!(f.tail().head().unwrap().to_fixed_case(), "B");
    assert_eq!(f.last().unwrap().to_fixed_case(), "C");
    assert_eq!(f.parent().last().unwrap().to_fixed_case(), "B");
    assert!(FullyQualifiedName::empty().head().is_none());
    assert!(FullyQualifiedName::empty().last().is_none());
}
