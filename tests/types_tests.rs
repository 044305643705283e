use aurorac::codegen::{get_param_type, param_types_of, return_type_of, CodeGen, MachineType};
use aurorac::types::{type_text_valid, Type};

fn parse(s: &str) -> Type {
    Type::parse_type(s.to_string())
}

#[test]
fn builtin_spellings_resolve() {
    assert_eq!(parse("i8"), Type::Int8);
    assert_eq!(parse("i16"), Type::Int16);
    assert_eq!(parse("i32"), Type::Int32);
    assert_eq!(parse("i64"), Type::Int64);
    assert_eq!(parse("i128"), Type::Int128);
    assert_eq!(parse("f16"), Type::Float16);
    assert_eq!(parse("f32"), Type::Float32);
    assert_eq!(parse("f64"), Type::Float64);
    assert_eq!(parse("f128"), Type::Float128);
    assert_eq!(parse("str"), Type::String);
    assert_eq!(parse("bool"), Type::Boolean);
    assert_eq!(parse("void"), Type::Void);
}

#[test]
fn array_annotations_resolve() {
    assert_eq!(parse("array[i32]"), Type::Array(Box::new(Type::Int32)));
    assert_eq!(
        parse("array[array[i32]]"),
        Type::Array(Box::new(Type::Array(Box::new(Type::Int32))))
    );
    assert_eq!(
        parse("array[point]"),
        Type::Array(Box::new(Type::UserDefinedType { name: "point".to_string() }))
    );
}

#[test]
fn malformed_arrays_are_user_defined() {
    for text in [
        "array[]",
        "array[i32",
        "xarray[i32]",
        "array[i32]x",
        "array[a b]",
        "",
        "array[]]",
        "array[a]b]",
        "array[i32]]",
        "array[[i32]]",
        "array[array[]]",
    ] {
        assert_eq!(parse(text), Type::UserDefinedType { name: text.to_string() });
    }
}

#[test]
fn canonical_text_round_trips() {
    let cases = vec![
        ("i32", Type::Int32),
        ("array[i32]", Type::Array(Box::new(Type::Int32))),
        ("array[array[i32]]", Type::Array(Box::new(Type::Array(Box::new(Type::Int32))))),
        ("array[array[bool]]", Type::Array(Box::new(Type::Array(Box::new(Type::Boolean))))),
        ("point", Type::UserDefinedType { name: "point".to_string() }),
    ];
    for (text, ty) in cases {
        assert_eq!(parse(text), ty);
    }
}

#[test]
fn param_kinds() {
    assert_eq!(get_param_type(Type::Int32), "into_int_value");
    assert_eq!(get_param_type(Type::Boolean), "into_int_value");
    assert_eq!(get_param_type(Type::Float64), "into_float_value");
    assert_eq!(get_param_type(Type::Array(Box::new(Type::Int8))), "into_array_value");
    assert_eq!(CodeGen::new(), CodeGen);
}

#[test]
fn machine_types() {
    assert_eq!(return_type_of(&Type::Int32), Some(MachineType::I32));
    assert_eq!(return_type_of(&Type::Float32), Some(MachineType::F32));
    assert_eq!(return_type_of(&Type::Float64), Some(MachineType::F64));
    assert_eq!(return_type_of(&Type::Void), Some(MachineType::Void));
    assert_eq!(return_type_of(&Type::String), None);
    assert_eq!(
        param_types_of(&vec![Type::Int32, Type::Float64, Type::Boolean]),
        Some(vec![MachineType::I32, MachineType::F64, MachineType::Bool])
    );
    assert_eq!(param_types_of(&vec![Type::Int32, Type::Void]), None);
}

#[test]
fn annotation_text_validity() {
    assert!(type_text_valid("i32"));
    assert!(type_text_valid("my_type2"));
    assert!(type_text_valid("array[array[x]]"));
    assert!(!type_text_valid(""));
    assert!(!type_text_valid("a]b"));
    assert!(!type_text_valid("array[]"));
}
