use java2rust::convert::{convert_data_type, convert_method};
use java2rust::method::{MethodArgument, NodeMethod};
use java2rust::nodes::{MethodArgumentType, MethodReturnType};
use java2rust::text::decimal_text;
use java2rust::token::{DataType, Visibility};

#[test]
fn data_type_names() {
    assert_eq!(convert_data_type(DataType::BYTE), "i8");
    assert_eq!(convert_data_type(DataType::SHORT), "i16");
    assert_eq!(convert_data_type(DataType::INT), "i32");
    assert_eq!(convert_data_type(DataType::LONG), "i64");
    assert_eq!(convert_data_type(DataType::FLOAT), "f32");
    assert_eq!(convert_data_type(DataType::DOUBLE), "f64");
    assert_eq!(convert_data_type(DataType::CHAR), "char");
    assert_eq!(convert_data_type(DataType::BOOLEAN), "bool");
}

#[test]
fn signature_with_parameters_and_return_type() {
    let m = NodeMethod {
        visibility: Visibility::PUBLIC,
        return_type: MethodReturnType::DATATYPE(DataType::INT),
        is_static: true,
        name: "add".to_string(),
        args: vec![
            MethodArgument { arg: MethodArgumentType::DATATYPE(DataType::INT), array: false, name: "a".to_string() },
            MethodArgument { arg: MethodArgumentType::STRING, array: true, name: "b".to_string() },
        ],
        code: vec!["let c = 1;".to_string(), "println!(\"{}\", c);".to_string()],
    };
    assert_eq!(convert_method(&m), "pub fn add(a: i32, b: Vec<String>) -> i32");
    assert_eq!(
        m.get_full_code(),
        "pub fn add(a: i32, b: Vec<String>) -> i32 {\nlet c = 1;\nprintln!(\"{}\", c);\n}"
    );
}

#[test]
fn private_and_default_methods_have_no_modifier() {
    let m = NodeMethod {
        visibility: Visibility::PRIVATE,
        return_type: MethodReturnType::VOID,
        is_static: false,
        name: "run".to_string(),
        args: vec![],
        code: vec![],
    };
    assert_eq!(convert_method(&m), "fn run()");
    assert_eq!(m.get_full_code(), "fn run() {\n}");
}

#[test]
fn decimal_rendering() {
    assert_eq!(decimal_text(0), "0");
    assert_eq!(decimal_text(7), "7");
    assert_eq!(decimal_text(10), "10");
    assert_eq!(decimal_text(40213), "40213");
    assert_eq!(decimal_text(usize::MAX), usize::MAX.to_string());
}
