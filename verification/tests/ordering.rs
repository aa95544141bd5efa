use capnpc_core::cpp::ast::Name;
use capnpc_core::cpp::order::{order_names, DepMap};

fn name(s: &str) -> Name {
    Name::from(s)
}

#[test]
fn dependency_precedes_dependent() {
    // Sibling structs `A { b: B }` and `B { value: Int32 }`: the orderer
    // must place B before A.
    let names = vec![name("A"), name("B")];
    let deps: DepMap = vec![(name("A"), vec![name("B")]), (name("B"), Vec::new())];
    let sorted = order_names(&names, &deps);
    let rendered: Vec<String> = sorted.iter().map(|n| n.to_fixed_case()).collect();
    assert_eq!(rendered, vec!["B".to_string(), "A".to_string()]);
}

#[test]
fn mutual_dependency_terminates() {
    // Mutually referencing siblings: the orderer terminates and yields a
    // total order over both.
    let names = vec![name("A"), name("B")];
    let deps: DepMap = vec![
        (name("A"), vec![name("B")]),
        (name("B"), vec![name("A")]),
    ];
    let sorted = order_names(&names, &deps);
    assert_eq!(sorted.len(), 2);
    let rendered: Vec<String> = sorted.iter().map(|n| n.to_fixed_case()).collect();
    assert!(rendered.contains(&"A".to_string()));
    assert!(rendered.contains(&"B".to_string()));
}

#[test]
fn ordering_is_stable_across_runs() {
    let names = vec![name("C"), name("A"), name("B")];
    let deps: DepMap = vec![
        (name("C"), vec![name("A"), name("B")]),
        (name("A"), Vec::new()),
        (name("B"), vec![name("A")]),
    ];
    let first = order_names(&names, &deps);
    let second = order_names(&names, &deps);
    assert_eq!(first, second);
    let rendered: Vec<String> = first.iter().map(|n| n.to_fixed_case()).collect();
    assert_eq!(rendered, vec!["A".to_string(), "B".to_string(), "C".to_string()]);
}

#[test]
fn diamond_dependencies_once_each() {
    let names = vec![name("D"), name("B"), name("C"), name("A")];
    let deps: DepMap = vec![
        (name("D"), vec![name("B"), name("C")]),
        (name("B"), vec![name("A")]),
        (name("C"), vec![name("A")]),
        (name("A"), Vec::new()),
    ];
    let sorted = order_names(&names, &deps);
    assert_eq!(sorted.len(), 4);
    let rendered: Vec<String> = sorted.iter().map(|n| n.to_fixed_case()).collect();
    assert_eq!(rendered, vec![
        "A".to_string(),
        "B".to_string(),
        "C".to_string(),
        "D".to_string(),
    ]);
}
