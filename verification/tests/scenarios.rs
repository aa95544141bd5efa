use capnpc_core::rust_gen::ast::{ModuleElement, Type as RType, TypeDef};
use capnpc_core::rust_gen::translate::translate;
use capnpc_core::schema::field::{Which as FieldWhich, NO_DISCRIMINANT};
use capnpc_core::schema::node::{NestedNode, Which};
use capnpc_core::schema::{CodeGeneratorRequest, Field, Node, Type};

fn slot_field(name: &str, t: Type, disc: u16) -> Field {
    Field { name: name.to_string(), discriminant_value: disc, which: FieldWhich::Slot(t) }
}

fn file_node(id: u64, path: &str, prefix_len: usize, nested: Vec<NestedNode>) -> Node {
    Node {
        id,
        display_name: path.to_string(),
        display_name_prefix_length: prefix_len,
        scope_id: 0,
        nested_nodes: nested,
        annotations: Vec::new(),
        which: Which::File,
    }
}

fn struct_node(id: u64, scope: u64, dc: u16, fields: Vec<Field>) -> Node {
    Node {
        id,
        display_name: String::new(),
        display_name_prefix_length: 0,
        scope_id: scope,
        nested_nodes: Vec::new(),
        annotations: Vec::new(),
        which: Which::Struct {
            is_group: false,
            discriminant_count: dc,
            discriminant_offset: 0,
            fields,
        },
    }
}

#[test]
fn plain_struct_stays_a_struct() {
    // A file declares `Struct Point { x: Int32, y: Int32 }`, no union.
    let cgr = CodeGeneratorRequest {
        nodes: vec![
            file_node(1, "scenario/point.capnp", 9, vec![NestedNode {
                id: 2,
                name: "Point".to_string(),
            }]),
            struct_node(2, 1, 0, vec![
                slot_field("x", Type::Int32, NO_DISCRIMINANT),
                slot_field("y", Type::Int32, NO_DISCRIMINANT),
            ]),
        ],
    };
    let ast = translate(&cgr).unwrap();
    assert_eq!(ast.defs.len(), 1);
    match &ast.defs[0].elements[1] {
        ModuleElement::TypeDef(TypeDef::Struct(s)) => {
            assert_eq!(s.name.tokens, vec!["Point".to_string()]);
            assert_eq!(s.fields.len(), 2);
            assert_eq!(s.fields[0].name.tokens, vec!["x".to_string()]);
            assert_eq!(s.fields[1].name.tokens, vec!["y".to_string()]);
            assert!(matches!(s.fields[0].rust_type, RType::Int32));
            assert!(matches!(s.fields[1].rust_type, RType::Int32));
            for f in &s.fields {
                assert_ne!(f.name.tokens, vec!["which".to_string()]);
            }
        },
        other => panic!("expected a struct definition, got {:?}", other),
    }
}

#[test]
fn full_union_becomes_an_enum() {
    // A file declares `Struct Shape { which union { circle: Circle, square: Square } }`
    // with every field discriminated: the struct becomes a tagged enum.
    let cgr = CodeGeneratorRequest {
        nodes: vec![
            file_node(1, "scenario/shape.capnp", 9, vec![
                NestedNode { id: 2, name: "Shape".to_string() },
                NestedNode { id: 3, name: "Circle".to_string() },
                NestedNode { id: 4, name: "Square".to_string() },
            ]),
            struct_node(2, 1, 2, vec![
                slot_field("circle", Type::Struct { type_id: 3 }, 0),
                slot_field("square", Type::Struct { type_id: 4 }, 1),
            ]),
            struct_node(3, 1, 0, vec![slot_field("radius", Type::Int32, NO_DISCRIMINANT)]),
            struct_node(4, 1, 0, vec![slot_field("side", Type::Int32, NO_DISCRIMINANT)]),
        ],
    };
    let ast = translate(&cgr).unwrap();
    match &ast.defs[0].elements[1] {
        ModuleElement::TypeDef(TypeDef::Enum(e)) => {
            assert_eq!(e.name.tokens, vec!["Shape".to_string()]);
            assert_eq!(e.enumerants.len(), 2);
            assert_eq!(e.enumerants[0].name.tokens, vec!["circle".to_string()]);
            assert_eq!(e.enumerants[1].name.tokens, vec!["square".to_string()]);
            match &e.enumerants[0].rust_type {
                RType::RefName(f) => {
                    assert_eq!(f.names.last().unwrap().tokens, vec!["Circle".to_string()]);
                },
                other => panic!("expected a resolved reference, got {:?}", other),
            }
        },
        other => panic!("expected an enum definition, got {:?}", other),
    }
}

#[test]
fn partial_union_gets_a_which_field_and_companion_enum() {
    // `Struct Event { id: UInt64, which union { started: Void, stopped: Void } }`:
    // two of three fields are discriminated.
    let cgr = CodeGeneratorRequest {
        nodes: vec![
            file_node(1, "scenario/event.capnp", 9, vec![NestedNode {
                id: 2,
                name: "Event".to_string(),
            }]),
            struct_node(2, 1, 2, vec![
                slot_field("id", Type::Uint64, NO_DISCRIMINANT),
                slot_field("started", Type::Void, 0),
                slot_field("stopped", Type::Void, 1),
            ]),
        ],
    };
    let ast = translate(&cgr).unwrap();
    match &ast.defs[0].elements[1] {
        ModuleElement::TypeDef(TypeDef::Struct(s)) => {
            assert_eq!(s.name.tokens, vec!["Event".to_string()]);
            assert_eq!(s.fields.len(), 2);
            assert_eq!(s.fields[0].name.tokens, vec!["id".to_string()]);
            assert!(matches!(s.fields[0].rust_type, RType::Uint64));
            assert_eq!(s.fields[1].name.tokens, vec!["which".to_string()]);
            match &s.fields[1].rust_type {
                RType::RefName(f) => {
                    assert_eq!(f.names.last().unwrap().tokens, vec!["Which".to_string()]);
                },
                other => panic!("expected a resolved which reference, got {:?}", other),
            }
        },
        other => panic!("expected a struct definition, got {:?}", other),
    }
    // The module of the struct holds the companion enum with one variant
    // per discriminated field.
    match &ast.defs[0].elements[2] {
        ModuleElement::Module(m) => {
            assert_eq!(m.name.tokens, vec!["Event".to_string()]);
            let last = m.elements.last().unwrap();
            match last {
                ModuleElement::TypeDef(TypeDef::Enum(e)) => {
                    assert_eq!(e.name.tokens, vec!["Which".to_string()]);
                    assert_eq!(e.enumerants.len(), 2);
                    assert_eq!(e.enumerants[0].name.tokens, vec!["started".to_string()]);
                    assert_eq!(e.enumerants[1].name.tokens, vec!["stopped".to_string()]);
                },
                other => panic!("expected the companion enum, got {:?}", other),
            }
        },
        other => panic!("expected the struct's module, got {:?}", other),
    }
}

#[test]
fn unsupported_type_is_fatal() {
    let cgr = CodeGeneratorRequest {
        nodes: vec![
            file_node(1, "scenario/bad.capnp", 9, vec![NestedNode {
                id: 2,
                name: "Bad".to_string(),
            }]),
            struct_node(2, 1, 0, vec![slot_field("blob", Type::Data, NO_DISCRIMINANT)]),
        ],
    };
    assert!(translate(&cgr).is_err());
}

#[test]
fn dangling_reference_is_fatal() {
    let cgr = CodeGeneratorRequest {
        nodes: vec![
            file_node(1, "scenario/dangling.capnp", 9, vec![NestedNode {
                id: 2,
                name: "Holder".to_string(),
            }]),
            struct_node(2, 1, 0, vec![slot_field(
                "other",
                Type::Struct { type_id: 999 },
                NO_DISCRIMINANT,
            )]),
        ],
    };
    assert!(translate(&cgr).is_err());
}

#[test]
fn duplicate_node_id_is_fatal() {
    let cgr = CodeGeneratorRequest {
        nodes: vec![
            file_node(1, "scenario/dup.capnp", 9, Vec::new()),
            struct_node(1, 0, 0, Vec::new()),
        ],
    };
    assert!(translate(&cgr).is_err());
}

#[test]
fn group_field_is_fatal() {
    let cgr = CodeGeneratorRequest {
        nodes: vec![
            file_node(1, "scenario/group.capnp", 9, vec![NestedNode {
                id: 2,
                name: "HasGroup".to_string(),
            }]),
            struct_node(2, 1, 0, vec![Field {
                name: "grouped".to_string(),
                discriminant_value: NO_DISCRIMINANT,
                which: FieldWhich::Group(77),
            }]),
        ],
    };
    assert!(translate(&cgr).is_err());
}

#[test]
fn list_types_translate_recursively() {
    let cgr = CodeGeneratorRequest {
        nodes: vec![
            file_node(1, "scenario/lists.capnp", 9, vec![NestedNode {
                id: 2,
                name: "Lists".to_string(),
            }]),
            struct_node(2, 1, 0, vec![slot_field(
                "names",
                Type::List(Box::new(Type::Text)),
                NO_DISCRIMINANT,
            )]),
        ],
    };
    let ast = translate(&cgr).unwrap();
    match &ast.defs[0].elements[1] {
        ModuleElement::TypeDef(TypeDef::Struct(s)) => match &s.fields[0].rust_type {
            RType::List(inner) => assert!(matches!(**inner, RType::String)),
            other => panic!("expected a list type, got {:?}", other),
        },
        other => panic!("expected a struct definition, got {:?}", other),
    }
}
