use capnpc_core::cpp::translate as cpp_translate;
use capnpc_core::err::{ErrorKind, TranslateError};
use capnpc_core::rust_gen::ast::{FullyQualifiedName, TypeDef};
use capnpc_core::rust_gen::translate::{
    build_translation_context_from_cgr, get_filename_from_cgr, translate, TranslationContext,
};
use capnpc_core::schema::field::{Which as FieldWhich, NO_DISCRIMINANT};
use capnpc_core::schema::node::{NestedNode, Which};
use capnpc_core::schema::{Annotation, CodeGeneratorRequest, Field, Node, Type, Value};

fn slot_field(name: &str, t: Type, disc: u16) -> Field {
    Field { name: name.to_string(), discriminant_value: disc, which: FieldWhich::Slot(t) }
}

fn plain_node(id: u64, scope: u64, which: Which) -> Node {
    Node {
        id,
        display_name: String::new(),
        display_name_prefix_length: 0,
        scope_id: scope,
        nested_nodes: Vec::new(),
        annotations: Vec::new(),
        which,
    }
}

fn file_node(id: u64, path: &str, prefix_len: usize, nested: Vec<NestedNode>) -> Node {
    Node {
        id,
        display_name: path.to_string(),
        display_name_prefix_length: prefix_len,
        scope_id: 0,
        nested_nodes: nested,
        annotations: Vec::new(),
        which: Which::File,
    }
}

fn built_context(cgr: &CodeGeneratorRequest) -> TranslationContext {
    let mut ctx = TranslationContext::new();
    build_translation_context_from_cgr(&mut ctx, cgr).unwrap();
    ctx
}

#[test]
fn interface_and_const_nodes_are_unsupported_definitions() {
    let cgr = CodeGeneratorRequest {
        nodes: vec![file_node(1, "scenario/x.capnp", 9, vec![
            NestedNode { id: 2, name: "Iface".to_string() },
            NestedNode { id: 3, name: "Konst".to_string() },
        ]), plain_node(2, 1, Which::Interface), plain_node(3, 1, Which::Const)],
    };
    let ctx = built_context(&cgr);
    let filename = "x".to_string();
    let path = FullyQualifiedName { names: Vec::new() };
    let iface = &cgr.nodes[1];
    let konst = &cgr.nodes[2];
    assert_eq!(
        TypeDef::translate(&ctx, &filename, &path, iface),
        Err(TranslateError { node_id: 2, kind: ErrorKind::InterfaceNode }),
    );
    assert_eq!(
        TypeDef::translate(&ctx, &filename, &path, konst),
        Err(TranslateError { node_id: 3, kind: ErrorKind::ConstNode }),
    );
    assert_eq!(
        TypeDef::translate(&ctx, &filename, &path, &cgr.nodes[0]),
        Err(TranslateError { node_id: 1, kind: ErrorKind::FileNode }),
    );
}

#[test]
fn missing_name_is_reported() {
    let orphan = plain_node(7, 0, Which::Enum(Vec::new()));
    let ctx = TranslationContext::new();
    let filename = "x".to_string();
    let path = FullyQualifiedName { names: Vec::new() };
    assert_eq!(
        TypeDef::translate(&ctx, &filename, &path, &orphan),
        Err(TranslateError { node_id: 7, kind: ErrorKind::MissingName }),
    );
}

#[test]
fn any_pointer_and_interface_types_are_fatal() {
    for (bad, kind) in [
        (Type::AnyPointer, ErrorKind::AnyPointerType),
        (Type::Interface { type_id: 9 }, ErrorKind::InterfaceType),
    ] {
        let cgr = CodeGeneratorRequest {
            nodes: vec![
                file_node(1, "scenario/y.capnp", 9, vec![NestedNode {
                    id: 2,
                    name: "Holder".to_string(),
                }]),
                Node {
                    id: 2,
                    display_name: String::new(),
                    display_name_prefix_length: 0,
                    scope_id: 1,
                    nested_nodes: Vec::new(),
                    annotations: Vec::new(),
                    which: Which::Struct {
                        is_group: false,
                        discriminant_count: 0,
                        discriminant_offset: 0,
                        fields: vec![slot_field("bad", bad, NO_DISCRIMINANT)],
                    },
                },
            ],
        };
        let e = translate(&cgr).unwrap_err();
        assert_eq!(format!("{:?}", e).contains(&format!("{:?}", kind)), true);
    }
}

#[test]
fn bad_prefix_length_is_fatal() {
    let cgr = CodeGeneratorRequest {
        nodes: vec![file_node(1, "a.capnp", 0, Vec::new())],
    };
    let mut ctx = TranslationContext::new();
    assert_eq!(
        build_translation_context_from_cgr(&mut ctx, &cgr),
        Err(TranslateError { node_id: 1, kind: ErrorKind::BadPrefixLength }),
    );
}

#[test]
fn cyclic_nesting_exhausts_the_fuel() {
    // A node that lists itself as its own nested child: translation must
    // stop rather than descend forever.
    let cgr = CodeGeneratorRequest {
        nodes: vec![
            file_node(1, "scenario/z.capnp", 9, vec![NestedNode {
                id: 2,
                name: "Knot".to_string(),
            }]),
            Node {
                id: 2,
                display_name: String::new(),
                display_name_prefix_length: 0,
                scope_id: 1,
                nested_nodes: vec![NestedNode { id: 2, name: "Knot".to_string() }],
                annotations: Vec::new(),
                which: Which::Struct {
                    is_group: false,
                    discriminant_count: 0,
                    discriminant_offset: 0,
                    fields: Vec::new(),
                },
            },
        ],
    };
    let e = translate(&cgr).unwrap_err();
    assert!(format!("{:?}", e).contains("NestingTooDeep"));
}

#[test]
fn missing_file_name_is_reported() {
    let cgr = CodeGeneratorRequest { nodes: vec![plain_node(2, 0, Which::Const)] };
    assert_eq!(
        get_filename_from_cgr(&cgr, 5),
        Err(TranslateError { node_id: 5, kind: ErrorKind::MissingFileName }),
    );
}

#[test]
fn id_space_exhaustion_is_reported() {
    let cgr = CodeGeneratorRequest {
        nodes: vec![plain_node(u64::MAX, 0, Which::Const)],
    };
    let mut ctx = TranslationContext::new();
    assert_eq!(
        build_translation_context_from_cgr(&mut ctx, &cgr),
        Err(TranslateError { node_id: u64::MAX, kind: ErrorKind::IdSpaceExhausted }),
    );
}

#[test]
fn cpp_missing_annotation_declarations_are_fatal() {
    let cgr = CodeGeneratorRequest {
        nodes: vec![file_node(1, "scenario/w.capnp", 9, Vec::new())],
    };
    let mut ctx = cpp_translate::Context::new();
    assert_eq!(
        cpp_translate::build_translation_context(&mut ctx, &cgr),
        Err(TranslateError { node_id: 0, kind: ErrorKind::AnnotationIdMissing }),
    );
}

#[test]
fn cpp_missing_node_is_reported() {
    let ctx = cpp_translate::Context::new();
    assert_eq!(
        cpp_translate::generate_base_ast_type_for_node(&ctx, 42, 5),
        Err(TranslateError { node_id: 42, kind: ErrorKind::MissingNode }),
    );
}

#[test]
fn cpp_non_text_namespace_annotation_is_fatal() {
    let mut declarations = file_node(10, "tool/lang.capnp", 5, vec![
        NestedNode { id: 11, name: "namespace".to_string() },
        NestedNode { id: 12, name: "name".to_string() },
        NestedNode { id: 13, name: "idiomaticCppNamespace".to_string() },
    ]);
    declarations.annotations = Vec::new();
    let mut bad = file_node(1, "scenario/v.capnp", 9, Vec::new());
    bad.annotations = vec![Annotation { id: 13, value: Value::Void }];
    let cgr = CodeGeneratorRequest {
        nodes: vec![
            declarations,
            plain_node(11, 10, Which::Annotation),
            plain_node(12, 10, Which::Annotation),
            plain_node(13, 10, Which::Annotation),
            bad,
        ],
    };
    let mut ctx = cpp_translate::Context::new();
    cpp_translate::build_translation_context(&mut ctx, &cgr).unwrap();
    let e = cpp_translate::translate(&ctx, &cgr).unwrap_err();
    assert_eq!(e, TranslateError { node_id: 1, kind: ErrorKind::NamespaceValueNotText });
}
