use java2rust::error::{ParseError, ParseErrorKind};
use java2rust::expr::IntExpression;
use java2rust::lexer::tokenize;
use java2rust::method::NodeMethod;
use java2rust::nodes::{MethodArgumentType, MethodReturnType, NodeClass};
use java2rust::parser::{parse_tokens, ClassContext, ClassVariable, Node};
use java2rust::stdlib::Class;
use java2rust::token::{DataType, Token, Visibility};
use java2rust::variable::{get_variable_in_method, NodeVariable, VariableType, VariableValue};

fn lex(text: &str) -> Vec<Token> {
    let mut unexpected = Vec::new();
    tokenize(text, "Main.java", &mut unexpected)
}

fn parse(text: &str) -> Result<Vec<Node>, ParseError> {
    parse_tokens(&lex(text))
}

fn methods(nodes: Vec<Node>) -> Vec<NodeMethod> {
    nodes
        .into_iter()
        .filter_map(|n| match n {
            Node::Method(m) => Some(m),
            Node::Class(_) => None,
        })
        .collect()
}

fn only_method(text: &str) -> NodeMethod {
    let mut ms = methods(parse(text).unwrap());
    assert_eq!(ms.len(), 1);
    ms.remove(0)
}

fn error_of(text: &str) -> ParseError {
    match parse(text) {
        Ok(_) => panic!("expected an error"),
        Err(e) => e,
    }
}

#[test]
fn hello_world_prints_literal_text() {
    let m = only_method("void main() {\n    System.out.println(\"Hello\");\n}");
    assert_eq!(m.code, vec!["println!(\"Hello\");".to_string()]);
}

#[test]
fn full_program_with_class() {
    let nodes = parse(
        "public class Main {\n    public static void main(String[] args) {\n        System.out.println(\"Hello\");\n    }\n}\n",
    )
    .unwrap();
    assert_eq!(nodes.len(), 2);
    match &nodes[0] {
        Node::Class(c) => assert_eq!(c.name, "Main"),
        Node::Method(_) => panic!("expected the class first"),
    }
    match &nodes[1] {
        Node::Method(m) => {
            assert_eq!(m.name, "main");
            assert_eq!(m.visibility, Visibility::PUBLIC);
            assert!(m.is_static);
            assert_eq!(m.return_type, MethodReturnType::VOID);
            assert_eq!(m.args.len(), 1);
            assert_eq!(m.args[0].name, "args");
            assert!(m.args[0].array);
            assert_eq!(m.args[0].arg, MethodArgumentType::CLASS(java2rust::stdlib::get_prelude_class("String").unwrap()));
            assert_eq!(m.code, vec!["println!(\"Hello\");".to_string()]);
        }
        Node::Class(_) => panic!("expected a method"),
    }
}

#[test]
fn declaration_then_print_interpolates_value() {
    let m = only_method("void main() { int x = 10; System.out.println(x); }");
    assert_eq!(m.code, vec!["let x = 10;".to_string(), "println!(\"{}\", x);".to_string()]);
}

#[test]
fn duplicate_local_declaration_is_rejected() {
    let text = "void main() { int a; int a; }";
    let tokens = lex(text);
    let e = parse_tokens(&tokens).err().unwrap();
    assert_eq!(e.kind, ParseErrorKind::DuplicateDeclaration);
    assert_eq!(e.at, Some(9));
    assert_eq!(tokens[9].value.as_deref(), Some("a"));
    assert_eq!(tokens[9].char_info.line_col, 26);
    assert!(e.message.starts_with("UNKNOWN:a in Main.java:1:26, "));
}

#[test]
fn public_void_method_with_empty_body() {
    let m = only_method("public void run() { }");
    assert_eq!(m.visibility, Visibility::PUBLIC);
    assert_eq!(m.return_type, MethodReturnType::VOID);
    assert_eq!(m.name, "run");
    assert!(m.code.is_empty());
    assert_eq!(m.get_full_code(), "pub fn run() {\n}");
}

#[test]
fn unterminated_string_is_an_error() {
    let text = "void main() { System.out.println(\"Hello); }";
    let tokens = lex(text);
    let e = parse_tokens(&tokens).err().unwrap();
    assert_eq!(e.kind, ParseErrorKind::UnterminatedString);
    assert_eq!(e.at, Some(9));
    assert_eq!(tokens[9].token_type, java2rust::token::TokenType::QUOTE);
}

#[test]
fn field_name_can_be_reused_in_a_method() {
    let nodes = parse("class A { int a = 1; void f() { int a = 2; System.out.println(a); } }").unwrap();
    let ms = methods(nodes);
    assert_eq!(ms[0].code, vec!["let a = 2;".to_string(), "println!(\"{}\", a);".to_string()]);
}

#[test]
fn duplicate_field_is_rejected() {
    let e = error_of("class A { int a; boolean a; }");
    assert_eq!(e.kind, ParseErrorKind::DuplicateDeclaration);
    assert_eq!(e.at, Some(7));
}

#[test]
fn same_name_in_two_methods_is_fine() {
    let ms = methods(parse("void f() { int a; } void g() { int a = 3; }").unwrap());
    assert_eq!(ms.len(), 2);
    assert_eq!(ms[0].code, vec!["let a;".to_string()]);
    assert_eq!(ms[1].code, vec!["let a = 3;".to_string()]);
}

#[test]
fn uninitialized_argument_is_rejected() {
    let e = error_of("void f() { int x; System.out.println(x); }");
    assert_eq!(e.kind, ParseErrorKind::UninitializedVariable);
    assert_eq!(e.at, Some(12));
}

#[test]
fn initialized_argument_is_accepted() {
    let m = only_method("void f() { boolean flag = true; System.out.println(flag); }");
    assert_eq!(m.code, vec!["let flag = true;".to_string(), "println!(\"{}\", flag);".to_string()]);
}

#[test]
fn initial_value_from_another_variable() {
    let m = only_method("void f() { int x = 4; int y = x; System.out.println(y); }");
    assert_eq!(
        m.code,
        vec!["let x = 4;".to_string(), "let y = x;".to_string(), "println!(\"{}\", y);".to_string()]
    );
}

#[test]
fn nested_blocks_do_not_end_the_method() {
    let ms = methods(parse(
        "void f() {\n if (true) {\n System.out.println(\"a\");\n } else {\n System.out.println(\"b\");\n }\n System.out.println(\"c\");\n}\nint g() { }",
    ).unwrap());
    assert_eq!(ms.len(), 2);
    assert_eq!(ms[1].name, "g");
    let m = &ms[0];
    assert_eq!(
        m.code,
        vec!["println!(\"a\");".to_string(), "println!(\"b\");".to_string(), "println!(\"c\");".to_string()]
    );
}

#[test]
fn modifiers_are_consumed_by_the_next_declaration() {
    let ms = methods(parse("public static void a() { } void b() { } private int c() { }").unwrap());
    assert_eq!(ms[0].visibility, Visibility::PUBLIC);
    assert!(ms[0].is_static);
    assert_eq!(ms[1].visibility, Visibility::NONE);
    assert!(!ms[1].is_static);
    assert_eq!(ms[2].visibility, Visibility::PRIVATE);
    assert_eq!(ms[2].return_type, MethodReturnType::DATATYPE(DataType::INT));
}

#[test]
fn print_forms() {
    let m = only_method("void f() { System.out.println(); System.out.println(42); System.out.println(\"a{b}\"); }");
    assert_eq!(
        m.code,
        vec!["println!();".to_string(), "println!(\"{}\", 42);".to_string(), "println!(\"a{{b}}\");".to_string()]
    );
}

#[test]
fn unknown_type_in_statement() {
    let e = error_of("void f() { Foo.bar(); }");
    assert_eq!(e.kind, ParseErrorKind::UnknownType);
    assert_eq!(e.at, Some(5));
}

#[test]
fn unknown_field_in_chain() {
    let e = error_of("void f() { System.err.println(\"x\"); }");
    assert_eq!(e.kind, ParseErrorKind::UnknownField);
    assert_eq!(e.at, Some(6));
}

#[test]
fn unsupported_method_in_chain() {
    let e = error_of("void f() { System.out.print(\"x\"); }");
    assert_eq!(e.kind, ParseErrorKind::UnsupportedMethod);
    let e = error_of("void f() { System.out.println(\"x\", \"y\"); }");
    assert_eq!(e.kind, ParseErrorKind::UnsupportedMethod);
}

#[test]
fn unknown_variable_in_call() {
    let e = error_of("void f() { System.out.println(nothing); }");
    assert_eq!(e.kind, ParseErrorKind::UnknownVariable);
    assert_eq!(e.at, Some(9));
    let e = error_of("void f() { int y = nothing; }");
    assert_eq!(e.kind, ParseErrorKind::UnknownVariable);
}

#[test]
fn unexpected_tokens_and_end() {
    let e = error_of("return 5;");
    assert_eq!(e.kind, ParseErrorKind::UnexpectedToken);
    assert_eq!(e.at, Some(0));
    let e = error_of("void f() { int x; ");
    assert_eq!(e.kind, ParseErrorKind::UnexpectedEnd);
    assert_eq!(e.at, None);
    let e = error_of("void 5() { }");
    assert_eq!(e.kind, ParseErrorKind::UnexpectedToken);
    assert_eq!(e.at, Some(1));
    let e = error_of("void f() { int x = ; }");
    assert_eq!(e.kind, ParseErrorKind::UnexpectedToken);
    assert_eq!(e.at, Some(8));
    let e = error_of("class 5");
    assert_eq!(e.kind, ParseErrorKind::UnexpectedToken);
}

#[test]
fn class_parse_reads_the_name() {
    let tokens = lex("Main {");
    let mut pos = 0;
    let c = NodeClass::parse(&tokens, &mut pos).unwrap();
    assert_eq!(c.name, "Main");
    assert_eq!(pos, 1);
}

#[test]
fn method_parts_parse_separately() {
    let tokens = lex("add(int a, String[] b, Foo c)");
    let mut pos = 0;
    assert_eq!(NodeMethod::parse_name(&tokens, &mut pos).unwrap(), "add");
    let e = NodeMethod::parse_arguments(&tokens, &mut pos).err().unwrap();
    assert_eq!(e.kind, ParseErrorKind::UnknownType);
    let tokens = lex("(int a, String[] b) {");
    let mut pos = 0;
    let args = NodeMethod::parse_arguments(&tokens, &mut pos).unwrap();
    assert_eq!(pos, 8);
    assert_eq!(args.len(), 2);
    assert_eq!(args[0].arg, MethodArgumentType::DATATYPE(DataType::INT));
    assert!(!args[0].array);
    assert!(args[1].array);
    let tokens = lex("[] 5");
    let mut pos = 0;
    let e = NodeMethod::parse_argument(&tokens, &mut pos, MethodArgumentType::STRING).err().unwrap();
    assert_eq!(e.at, Some(1));
}

#[test]
fn variable_parse_and_code() {
    let ctx = ClassContext::new();
    let tokens = lex("int count = 5; rest");
    let mut pos = 0;
    let v = NodeVariable::parse(&tokens, &mut pos, &ctx, &[]).unwrap();
    assert_eq!(pos, 5);
    assert_eq!(v.name, "count");
    assert_eq!(v.var_type, VariableType::DataType(DataType::INT));
    assert_eq!(v.to_code(), "let count = 5;");
    let w = NodeVariable { name: "w".to_string(), var_type: VariableType::Class, value: None };
    assert_eq!(w.to_code(), "let w;");
    assert_eq!(VariableValue::ByVar("src".to_string()).get_value(), "src");
    assert_eq!(VariableValue::Direct("7".to_string()).get_value(), "7");
}

fn context_with_field(name: &str) -> ClassContext {
    let mut ctx = ClassContext::new();
    ctx.variables.push(ClassVariable {
        visibility: Visibility::PRIVATE,
        is_static: true,
        variable: NodeVariable {
            name: name.to_string(),
            var_type: VariableType::DataType(DataType::INT),
            value: Some(VariableValue::Direct("1".to_string())),
        },
    });
    ctx
}

#[test]
fn variable_lookup_prefers_class_fields() {
    let ctx = context_with_field("x");
    let locals = vec![NodeVariable { name: "x".to_string(), var_type: VariableType::Class, value: None }];
    let (v, in_class) = get_variable_in_method("x".to_string(), &ctx, &locals).unwrap();
    assert!(in_class);
    assert_eq!(v.var_type, VariableType::DataType(DataType::INT));
    let locals = vec![NodeVariable { name: "y".to_string(), var_type: VariableType::Class, value: None }];
    let (v, in_class) = get_variable_in_method("y".to_string(), &ctx, &locals).unwrap();
    assert!(!in_class);
    assert_eq!(v.name, "y");
    assert!(get_variable_in_method("z".to_string(), &ctx, &locals).is_none());
}

#[test]
fn integer_expression_renders_fields_and_locals() {
    let ctx = context_with_field("x");
    let locals = vec![NodeVariable {
        name: "y".to_string(),
        var_type: VariableType::DataType(DataType::INT),
        value: Some(VariableValue::Direct("2".to_string())),
    }];
    let tokens = lex("x + 2 * (y - 1) / 3;");
    let mut pos = 0;
    let e = IntExpression::parse(&tokens, &mut pos, &ctx, &locals).unwrap();
    assert_eq!(e.final_code, "Self::x + 2 * (y - 1) / 3");
    assert!(e.end_with_semi);
    assert_eq!(pos, 11);
    let tokens = lex("y + 1 }");
    let mut pos = 0;
    let e = IntExpression::parse(&tokens, &mut pos, &ctx, &locals).unwrap();
    assert_eq!(e.final_code, "y + 1");
    assert!(!e.end_with_semi);
}

#[test]
fn integer_expression_errors() {
    let ctx = context_with_field("x");
    let tokens = lex("x x;");
    let mut pos = 0;
    let e = IntExpression::parse(&tokens, &mut pos, &ctx, &[]).err().unwrap();
    assert_eq!(e.kind, ParseErrorKind::MalformedExpression);
    assert_eq!(e.at, Some(1));
    let tokens = lex(";");
    let mut pos = 0;
    let e = IntExpression::parse(&tokens, &mut pos, &ctx, &[]).err().unwrap();
    assert_eq!(e.kind, ParseErrorKind::UnexpectedToken);
    let tokens = lex("q;");
    let mut pos = 0;
    let e = IntExpression::parse(&tokens, &mut pos, &ctx, &[]).err().unwrap();
    assert_eq!(e.kind, ParseErrorKind::UnknownVariable);
    let tokens = lex("1 +");
    let mut pos = 0;
    let e = IntExpression::parse(&tokens, &mut pos, &ctx, &[]).err().unwrap();
    assert_eq!(e.kind, ParseErrorKind::UnexpectedEnd);
}

#[test]
fn library_type_model() {
    let system = java2rust::stdlib::get_prelude_class("System").unwrap();
    let out = system.get_field("out").unwrap();
    assert!(matches!(out, Class::PrintStream(_)));
    assert!(system.get_field("err").is_none());
    assert!(java2rust::stdlib::get_prelude_class("Scanner").is_none());
    let code = out.code_from_method("println", vec![java2rust::nodes::FunctionArgument::STRING("x}".to_string())]);
    assert_eq!(code.unwrap(), "println!(\"x}}\");");
    assert!(system.code_from_method("println", vec![]).is_none());
    assert_eq!(java2rust::stdlib::System::new(), java2rust::stdlib::System { out: java2rust::stdlib::PrintStream });
}
