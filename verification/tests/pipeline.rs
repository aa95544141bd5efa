use capnpc_core::cpp::ast::{ComplexTypeDef, CppType, FullyQualifiedName, Namespace};
use capnpc_core::cpp::order;
use capnpc_core::cpp::translate as cpp_translate;
use capnpc_core::multi_map::mm_get_vec;
use capnpc_core::rust_gen::ast::{ModuleElement, TypeDef};
use capnpc_core::rust_gen::code::is_trivial_module;
use capnpc_core::rust_gen::serde_gen::SerdeGenerationContext;
use capnpc_core::rust_gen::translate::{build_translation_context_from_cgr, TranslationContext};
use capnpc_core::schema::field::{Which as FieldWhich, NO_DISCRIMINANT};
use capnpc_core::schema::node::{NestedNode, Which};
use capnpc_core::schema::{Annotation, CodeGeneratorRequest, Field, Node, Type, Value};

fn slot_field(name: &str, t: Type, disc: u16) -> Field {
    Field { name: name.to_string(), discriminant_value: disc, which: FieldWhich::Slot(t) }
}

fn file_node(id: u64, path: &str, prefix_len: usize, nested: Vec<NestedNode>) -> Node {
    Node {
        id,
        display_name: path.to_string(),
        display_name_prefix_length: prefix_len,
        scope_id: 0,
        nested_nodes: nested,
        annotations: Vec::new(),
        which: Which::File,
    }
}

fn struct_node(id: u64, scope: u64, dc: u16, fields: Vec<Field>) -> Node {
    Node {
        id,
        display_name: String::new(),
        display_name_prefix_length: 0,
        scope_id: scope,
        nested_nodes: Vec::new(),
        annotations: Vec::new(),
        which: Which::Struct {
            is_group: false,
            discriminant_count: dc,
            discriminant_offset: 0,
            fields,
        },
    }
}

fn annotation_node(id: u64, scope: u64) -> Node {
    Node {
        id,
        display_name: String::new(),
        display_name_prefix_length: 0,
        scope_id: scope,
        nested_nodes: Vec::new(),
        annotations: Vec::new(),
        which: Which::Annotation,
    }
}

fn geometry_request() -> CodeGeneratorRequest {
    let mut declarations = file_node(10, "tool/lang.capnp", 5, vec![
        NestedNode { id: 11, name: "namespace".to_string() },
        NestedNode { id: 12, name: "name".to_string() },
        NestedNode { id: 13, name: "idiomaticCppNamespace".to_string() },
    ]);
    declarations.annotations = Vec::new();
    let mut geo = file_node(1, "scenario/geo.capnp", 9, vec![NestedNode {
        id: 2,
        name: "Point".to_string(),
    }]);
    geo.annotations = vec![Annotation { id: 13, value: Value::Text("Geo::Shapes".to_string()) }];
    CodeGeneratorRequest {
        nodes: vec![
            declarations,
            annotation_node(11, 10),
            annotation_node(12, 10),
            annotation_node(13, 10),
            geo,
            struct_node(2, 1, 0, vec![
                slot_field("x", Type::Int32, NO_DISCRIMINANT),
                slot_field("y", Type::Int32, NO_DISCRIMINANT),
            ]),
        ],
    }
}

#[test]
fn cpp_pipeline_places_types_under_annotated_namespace() {
    let cgr = geometry_request();
    let mut ctx = cpp_translate::Context::new();
    cpp_translate::build_translation_context(&mut ctx, &cgr).unwrap();
    let ast = cpp_translate::translate(&ctx, &cgr).unwrap();
    assert_eq!(ast.files.len(), 2);
    assert!(!ast.files[0].is_serde_file);
    assert!(ast.files[1].is_serde_file);
    let path = FullyQualifiedName::from("Geo::Shapes".split("::").collect::<Vec<&str>>());
    let ns = ast.files[0].get_namespace(&path).expect("annotated namespace must exist");
    assert_eq!(ns.defs.len(), 1);
    match &ns.defs[0] {
        ComplexTypeDef::Class(c) => {
            assert_eq!(c.name.tokens, vec!["Point".to_string()]);
            assert_eq!(c.fields.len(), 2);
            assert!(c.union.is_none());
            assert!(matches!(c.fields[0].cpp_type, CppType::Int));
        },
        other => panic!("expected a class, got {:?}", other),
    }
    // The serialization unit carries the wire headers on top of the plain
    // imports.
    assert!(ast.files[1].imports.len() == ast.files[0].imports.len() + 3);
}

#[test]
fn cpp_union_gets_companion_enum_and_union_member() {
    let mut shapes = file_node(1, "scenario/shapes.capnp", 9, vec![NestedNode {
        id: 2,
        name: "Shape".to_string(),
    }]);
    shapes.annotations = vec![Annotation { id: 13, value: Value::Text("Geo".to_string()) }];
    let mut declarations = file_node(10, "tool/lang.capnp", 5, vec![
        NestedNode { id: 11, name: "namespace".to_string() },
        NestedNode { id: 12, name: "name".to_string() },
        NestedNode { id: 13, name: "idiomaticCppNamespace".to_string() },
    ]);
    declarations.annotations = Vec::new();
    let cgr = CodeGeneratorRequest {
        nodes: vec![
            declarations,
            annotation_node(11, 10),
            annotation_node(12, 10),
            annotation_node(13, 10),
            shapes,
            struct_node(2, 1, 2, vec![
                slot_field("tag", Type::Uint32, NO_DISCRIMINANT),
                slot_field("circle", Type::Int32, 0),
                slot_field("square", Type::Int32, 1),
            ]),
        ],
    };
    let mut ctx = cpp_translate::Context::new();
    cpp_translate::build_translation_context(&mut ctx, &cgr).unwrap();
    let ast = cpp_translate::translate(&ctx, &cgr).unwrap();
    let path = FullyQualifiedName::from(vec!["Geo"]);
    let ns = ast.files[0].get_namespace(&path).unwrap();
    match &ns.defs[0] {
        ComplexTypeDef::Class(c) => {
            let u = c.union.as_ref().expect("a discriminated struct keeps a union");
            assert_eq!(u.fields.len(), 2);
            // plain field + synthetic which member
            assert_eq!(c.fields.len(), 2);
            assert_eq!(c.fields[1].name.tokens, vec!["which".to_string()]);
            // the companion enum lists exactly the discriminated fields
            match c.inner_types.last().unwrap() {
                ComplexTypeDef::EnumClass(e) => {
                    assert_eq!(e.name.tokens, vec!["Which".to_string()]);
                    assert_eq!(e.enumerants.len(), 2);
                    assert_eq!(e.enumerants[0].to_fixed_case(), "circle");
                    assert_eq!(e.enumerants[1].to_fixed_case(), "square");
                },
                other => panic!("expected the companion enum, got {:?}", other),
            }
        },
        other => panic!("expected a class, got {:?}", other),
    }
}

#[test]
fn context_groups_children_by_scope() {
    let cgr = geometry_request();
    let mut ctx = TranslationContext::new();
    build_translation_context_from_cgr(&mut ctx, &cgr).unwrap();
    let under_file = mm_get_vec(&ctx.children, &1).expect("scope of the geo file");
    assert_eq!(under_file.as_slice(), &[2]);
    let top_level = mm_get_vec(&ctx.children, &0).expect("top-level scope");
    assert_eq!(top_level.as_slice(), &[10, 1]);
    assert!(mm_get_vec(&ctx.children, &99).is_none());
}

#[test]
fn capnp_names_follow_the_namespace_annotation() {
    let mut cgr = geometry_request();
    // The geo file also carries the wire namespace annotation.
    cgr.nodes[4]
        .annotations
        .push(Annotation { id: 11, value: Value::Text("geo::wire".to_string()) });
    let mut ctx = cpp_translate::Context::new();
    cpp_translate::build_translation_context(&mut ctx, &cgr).unwrap();
    ctx.set_capnp_names_from(&cgr).unwrap();
    let file_fqn = ctx.capnp_names.get(&1).expect("the annotated file is named");
    assert_eq!(file_fqn.names.len(), 2);
    assert_eq!(file_fqn.names[0].to_fixed_case(), "geo");
    assert_eq!(file_fqn.names[1].to_fixed_case(), "wire");
    let point_fqn = ctx.capnp_names.get(&2).expect("the nested struct is named");
    assert_eq!(point_fqn.names.len(), 3);
    assert_eq!(point_fqn.names[2].to_fixed_case(), "Point");
    // A file without the wire annotation stays unnamed.
    assert!(ctx.capnp_names.get(&10).is_none());
}

#[test]
fn serde_module_holds_one_impl_pair_per_typedef() {
    let cgr = CodeGeneratorRequest {
        nodes: vec![
            file_node(1, "scenario/point.capnp", 9, vec![NestedNode {
                id: 2,
                name: "Point".to_string(),
            }]),
            struct_node(2, 1, 0, vec![slot_field("x", Type::Int32, NO_DISCRIMINANT)]),
        ],
    };
    let ast = capnpc_core::rust_gen::translate::translate(&cgr).unwrap();
    let with_serde = capnpc_core::rust_gen::ast::RustAst::generate_serde(
        &SerdeGenerationContext::new(),
        &ast,
    );
    assert_eq!(with_serde.defs.len(), ast.defs.len() + 1);
    let serde_module = with_serde.defs.last().unwrap();
    // the seed elements plus a read and a write impl for the one typedef
    assert_eq!(serde_module.elements.len(), 5);
    let mut impls = 0;
    for e in &serde_module.elements {
        if let ModuleElement::Impl(i) = e {
            impls += 1;
            match &i.for_type {
                TypeDef::Struct(s) => assert_eq!(s.name.tokens, vec!["Point".to_string()]),
                other => panic!("unexpected impl subject {:?}", other),
            }
        }
    }
    assert_eq!(impls, 2);
}

#[test]
fn node_kinds_have_labels() {
    assert_eq!(capnpc_core::schema::node::node_which_string(&Which::File), "File");
    assert_eq!(capnpc_core::schema::node::node_which_string(&Which::Const), "Const");
    assert_eq!(capnpc_core::schema::node::node_which_string(&Which::Enum(Vec::new())), "Enum");
}

#[test]
fn trivial_modules_are_detected() {
    let cgr = CodeGeneratorRequest {
        nodes: vec![
            file_node(1, "scenario/point.capnp", 9, vec![NestedNode {
                id: 2,
                name: "Point".to_string(),
            }]),
            struct_node(2, 1, 0, vec![slot_field("x", Type::Int32, NO_DISCRIMINANT)]),
        ],
    };
    let ast = capnpc_core::rust_gen::translate::translate(&cgr).unwrap();
    // The file module holds the Point definition: not trivial.
    assert!(!is_trivial_module(&ast.defs[0]));
    // The nested module of the Point node holds only a use declaration.
    for e in &ast.defs[0].elements {
        if let ModuleElement::Module(m) = e {
            assert!(is_trivial_module(m));
        }
    }
}

#[test]
fn sibling_dependencies_feed_the_orderer() {
    // Sibling classes A { b: B } and B { value: Int } inside one
    // namespace: the dependency list of A is [B], and ordering both
    // places B first.
    let class_b = ComplexTypeDef::Class(capnpc_core::cpp::ast::Class {
        id: 20,
        name: capnpc_core::cpp::ast::Name::from("B"),
        inner_types: Vec::new(),
        union: None,
        fields: vec![capnpc_core::cpp::ast::Field {
            name: capnpc_core::cpp::ast::Name::from("value"),
            cpp_type: CppType::Int,
        }],
    });
    let class_a = ComplexTypeDef::Class(capnpc_core::cpp::ast::Class {
        id: 21,
        name: capnpc_core::cpp::ast::Name::from("A"),
        inner_types: Vec::new(),
        union: None,
        fields: vec![capnpc_core::cpp::ast::Field {
            name: capnpc_core::cpp::ast::Name::from("b"),
            cpp_type: CppType::RefId(20),
        }],
    });
    let mut ns = Namespace::empty();
    let path = FullyQualifiedName::from(vec!["Geo"]);
    ns.get_or_create_namespace_mut(&path);
    ns.push_def_at(&path, class_a);
    ns.push_def_at(&path, class_b);

    let mut ctx = order::Context::new();
    ctx.set_type_info_from_namespace(&FullyQualifiedName::empty(), &ns);

    let geo = ns.get_namespace(&path).unwrap();
    let mut names: Vec<capnpc_core::cpp::ast::Name> = Vec::new();
    let mut deps: order::DepMap = Vec::new();
    for def in &geo.defs {
        names.push(def.name().clone());
        deps.push((def.name().clone(), order::generate_dependency_list_for_type(&ctx, def)));
    }
    // A's sibling dependencies: B (and itself, which the orderer skips
    // once placed).
    let sorted = order::order_names(&names, &deps);
    let rendered: Vec<String> = sorted.iter().map(|n| n.to_fixed_case()).collect();
    let pos_a = rendered.iter().position(|s| s == "A").unwrap();
    let pos_b = rendered.iter().position(|s| s == "B").unwrap();
    assert!(pos_b < pos_a);
}
