use usd_rs::basic_types::{
    basic_types, check_identifier, entry, generate, generate_basic_types, header_list, render_header_lines,
    wrapper_names, GenerationError, Piece, TypeDescriptor,
};

fn conversion_template() -> Vec<Piece> {
    vec![
        Piece::Text("impl From<&".to_string()),
        Piece::LogicalName,
        Piece::Text("> for Value {} // ".to_string()),
        Piece::NativeType,
        Piece::Text(" as ".to_string()),
        Piece::StorageType,
        Piece::Text("\n".to_string()),
    ]
}

fn vec3f_table() -> Vec<TypeDescriptor> {
    vec![entry("Vec3f", "[f32;3]", "pxr::GfVec3f", None)]
}

#[test]
fn basic_table_generates() {
    let table = basic_types();
    assert_eq!(table.len(), 28);
    let g = generate(&table, &conversion_template()).ok().unwrap();
    assert_eq!(g.names.len(), 28);
    assert_eq!(g.names[0], "Bool");
    assert_eq!(g.names[10], "Matrix2d");
    assert_eq!(g.names[27], "Vec4i");
    assert_eq!(g.headers.len(), 20);
    assert_eq!(g.headers[0], "pxr/base/gf/half.h");
    assert_eq!(g.headers[1], "pxr/base/tf/token.h");
    assert!(g.declarations.starts_with("pub struct Bool(pub bool);\npub struct UChar(pub u8);\n"));
    assert!(g.declarations.ends_with("pub struct Vec4i(pub [i32;4]);\n"));
    assert!(g.conversions.starts_with("impl From<&Bool> for Value {} // bool as bool\n"));
}

#[test]
fn built_in_table_source() {
    let g = generate_basic_types(&conversion_template());
    assert_eq!(g.names.len(), 28);
    assert_eq!(g.names[6], "Half");
    assert_eq!(g.headers.len(), 20);
    assert!(g.declarations.contains("pub struct Matrix2d(pub [f64;2*2]);\n"));
    assert!(g.conversions.contains("impl From<&Quath> for Value {} // pxr::GfQuath as [f16;4]\n"));
}

#[test]
fn names_are_table_names_in_order() {
    let table = vec![
        entry("Quatf", "[f32;4]", "pxr::GfQuatf", Some("pxr/base/gf/quatf.h")),
        entry("Vec4f", "[f32;4]", "pxr::GfVec4f", Some("pxr/base/gf/vec4f.h")),
        entry("Int", "i32", "int32_t", None),
    ];
    assert_eq!(wrapper_names(&table), vec!["Quatf".to_string(), "Vec4f".to_string(), "Int".to_string()]);
}

#[test]
fn headers_are_deduplicated_in_first_use_order() {
    let table = vec![
        entry("A", "u8", "uint8_t", Some("b.h")),
        entry("B", "u8", "uint8_t", None),
        entry("C", "u8", "uint8_t", Some("a.h")),
        entry("D", "u8", "uint8_t", Some("b.h")),
    ];
    assert_eq!(header_list(&table), vec!["b.h".to_string(), "a.h".to_string()]);
}

#[test]
fn entries_without_header_add_none() {
    let table = vec![entry("Int", "i32", "int32_t", None), entry("Bool", "bool", "bool", None)];
    assert!(header_list(&table).is_empty());
}

#[test]
fn vec3f_scenario() {
    let g = generate(&vec3f_table(), &conversion_template()).ok().unwrap();
    assert_eq!(g.names, vec!["Vec3f".to_string()]);
    assert!(g.headers.is_empty());
    assert_eq!(g.declarations, "pub struct Vec3f(pub [f32;3]);\n");
    assert_eq!(g.conversions, "impl From<&Vec3f> for Value {} // pxr::GfVec3f as [f32;3]\n");
    let lines = render_header_lines(&g.headers, "#", "\n");
    assert_eq!(lines, "");
}

#[test]
fn generation_is_deterministic() {
    let a = generate(&basic_types(), &conversion_template()).ok().unwrap();
    let b = generate(&basic_types(), &conversion_template()).ok().unwrap();
    assert_eq!(a.names, b.names);
    assert_eq!(a.headers, b.headers);
    assert_eq!(a.declarations, b.declarations);
    assert_eq!(a.conversions, b.conversions);
}

#[test]
fn duplicate_name_is_refused() {
    let table = vec![
        entry("Int", "i32", "int32_t", None),
        entry("Float", "f32", "float", None),
        entry("Int", "i64", "int64_t", None),
    ];
    assert_eq!(generate(&table, &conversion_template()).err(), Some(GenerationError::DuplicateName { index: 2 }));
}

#[test]
fn malformed_name_is_refused() {
    let table = vec![
        entry("Int", "i32", "int32_t", None),
        entry("3Vec", "[f32;3]", "pxr::GfVec3f", None),
        entry("Int", "i64", "int64_t", None),
    ];
    assert_eq!(generate(&table, &conversion_template()).err(), Some(GenerationError::MalformedName { index: 1 }));
    let empty = vec![entry("", "u8", "uint8_t", None)];
    assert_eq!(generate(&empty, &conversion_template()).err(), Some(GenerationError::MalformedName { index: 0 }));
}

#[test]
fn identifiers() {
    assert!(check_identifier("Vec3f"));
    assert!(check_identifier("_x9"));
    assert!(!check_identifier(""));
    assert!(!check_identifier("9x"));
    assert!(!check_identifier("a-b"));
    assert!(!check_identifier("pxr::GfVec3f"));
}

#[test]
fn header_lines_wrap_each_header() {
    let hs = vec!["a.h".to_string(), "b/c.h".to_string()];
    assert_eq!(render_header_lines(&hs, "<", ">\n"), "<a.h>\n<b/c.h>\n");
}

#[test]
fn empty_table_generates_nothing() {
    let g = generate(&Vec::new(), &conversion_template()).ok().unwrap();
    assert!(g.names.is_empty());
    assert!(g.headers.is_empty());
    assert_eq!(g.declarations, "");
    assert_eq!(g.conversions, "");
}
