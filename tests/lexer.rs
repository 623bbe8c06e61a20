use java2rust::lexer::{parse_data_types, parse_expr, parse_token, parse_visibility, tokennize_line, tokenize};
use java2rust::token::{CharLocationInfo, DataType, Token, TokenType, Visibility};

fn lex(text: &str) -> Vec<Token> {
    let mut unexpected = Vec::new();
    tokenize(text, "Main.java", &mut unexpected)
}

fn kinds(tokens: &[Token]) -> Vec<TokenType> {
    tokens.iter().map(|t| t.token_type).collect()
}

fn loc(col: usize) -> CharLocationInfo {
    CharLocationInfo { file_path: "Main.java".to_string(), line_number: 1, line_col: col }
}

#[test]
fn declaration_tokens_and_columns() {
    let tokens = lex("int x = 10;");
    assert_eq!(
        kinds(&tokens),
        vec![
            TokenType::DATATYPE(DataType::INT),
            TokenType::UNKNOWN,
            TokenType::EQUAL,
            TokenType::INTLIT,
            TokenType::SEMICOLON
        ]
    );
    let cols: Vec<usize> = tokens.iter().map(|t| t.char_info.line_col).collect();
    assert_eq!(cols, vec![1, 5, 7, 9, 11]);
    assert_eq!(tokens[1].value.as_deref(), Some("x"));
    assert_eq!(tokens[3].value.as_deref(), Some("10"));
    assert_eq!(tokens[0].value, None);
}

#[test]
fn locations_follow_lines_and_columns() {
    let text = "class Main {\n  public void run() {\r\n\n    counter123 = 7;\n  }\n}\n";
    let tokens = lex(text);
    let lines: Vec<&str> = text.lines().collect();
    for t in &tokens {
        assert_eq!(t.char_info.file_path, "Main.java");
        assert!(t.char_info.line_number >= 1 && t.char_info.line_number <= lines.len());
        let line: Vec<char> = lines[t.char_info.line_number - 1].chars().collect();
        assert!(t.char_info.line_col >= 1 && t.char_info.line_col <= line.len());
        if let Some(v) = &t.value {
            let start = t.char_info.line_col - 1;
            let found: String = line[start..start + v.chars().count()].iter().collect();
            assert_eq!(&found, v);
        }
    }
    let ident = tokens.iter().find(|t| t.value.as_deref() == Some("counter123")).unwrap();
    assert_eq!(ident.char_info.line_number, 4);
    assert_eq!(ident.char_info.line_col, 5);
    let last = tokens.last().unwrap();
    assert_eq!(last.token_type, TokenType::CLOSE_BRACKET);
    assert_eq!((last.char_info.line_number, last.char_info.line_col), (6, 1));
}

#[test]
fn relexing_gives_the_same_tokens() {
    let text = "public class A {\n int x = 3;\n void f() { System.out.println(\"hi there\"); }\n}";
    let first = lex(text);
    let second = lex(text);
    assert_eq!(first.len(), second.len());
    for (a, b) in first.iter().zip(second.iter()) {
        assert_eq!(a.token_type, b.token_type);
        assert_eq!(a.value, b.value);
        assert_eq!(a.char_info.file_path, b.char_info.file_path);
        assert_eq!(a.char_info.line_number, b.char_info.line_number);
        assert_eq!(a.char_info.line_col, b.char_info.line_col);
    }
}

#[test]
fn string_literal_fragments_and_reported_dots() {
    let mut unexpected = Vec::new();
    let tokens = tokenize("System.out.println(\"Hello World\");", "Main.java", &mut unexpected);
    assert_eq!(
        kinds(&tokens),
        vec![
            TokenType::UNKNOWN,
            TokenType::UNKNOWN,
            TokenType::UNKNOWN,
            TokenType::OPEN_BRACE,
            TokenType::QUOTE,
            TokenType::QUOTE_STRING,
            TokenType::QUOTE_STRING,
            TokenType::QUOTE,
            TokenType::CLOSE_BRACE,
            TokenType::SEMICOLON
        ]
    );
    assert_eq!(tokens[5].value.as_deref(), Some("Hello"));
    assert_eq!(tokens[6].value.as_deref(), Some(" World"));
    let dots: Vec<usize> = unexpected.iter().map(|l| l.line_col).collect();
    assert_eq!(dots, vec![7, 11]);
}

#[test]
fn array_brackets_and_operators() {
    let mut unexpected = Vec::new();
    let tokens = tokenize("String[] args = a + b - c * d / e;", "M.java", &mut unexpected);
    assert_eq!(
        kinds(&tokens),
        vec![
            TokenType::UNKNOWN,
            TokenType::ARRAY,
            TokenType::UNKNOWN,
            TokenType::EQUAL,
            TokenType::UNKNOWN,
            TokenType::ADD,
            TokenType::UNKNOWN,
            TokenType::REMOVE,
            TokenType::UNKNOWN,
            TokenType::MUL,
            TokenType::UNKNOWN,
            TokenType::SUB,
            TokenType::UNKNOWN,
            TokenType::SEMICOLON
        ]
    );
    assert_eq!(tokens[1].char_info.line_col, 7);
    assert!(unexpected.is_empty());
}

#[test]
fn unexpected_characters_are_skipped() {
    let mut unexpected = Vec::new();
    let tokens = tokennize_line("a # b", 2, "F.java", &mut unexpected);
    assert_eq!(kinds(&tokens), vec![TokenType::UNKNOWN, TokenType::UNKNOWN]);
    assert_eq!(tokens[1].char_info.line_col, 5);
    assert_eq!(tokens[1].char_info.line_number, 3);
    assert_eq!(unexpected.len(), 1);
    assert_eq!((unexpected[0].line_number, unexpected[0].line_col), (3, 3));
    let lone = tokennize_line("[ ]", 0, "F.java", &mut unexpected);
    assert!(lone.is_empty());
    assert_eq!(unexpected.len(), 3);
}

#[test]
fn unicode_letters_digits_and_spaces() {
    let mut unexpected = Vec::new();
    let tokens = tokenize("größe\t٣٤ x", "U.java", &mut unexpected);
    assert_eq!(kinds(&tokens), vec![TokenType::UNKNOWN, TokenType::INTLIT, TokenType::UNKNOWN]);
    assert_eq!(tokens[0].value.as_deref(), Some("größe"));
    assert_eq!(tokens[1].value.as_deref(), Some("٣٤"));
    assert_eq!(tokens[1].char_info.line_col, 7);
    assert_eq!(tokens[2].char_info.line_col, 10);
    assert!(unexpected.is_empty());
}

#[test]
fn keywords_are_classified() {
    let tokens = lex("return if else class void true false static public private boolean byte short long float double char");
    assert_eq!(
        kinds(&tokens),
        vec![
            TokenType::RETURN,
            TokenType::IF,
            TokenType::ELSE,
            TokenType::CLASS,
            TokenType::VOID,
            TokenType::TRUE,
            TokenType::FALSE,
            TokenType::STATIC,
            TokenType::VISIBILITY(Visibility::PUBLIC),
            TokenType::VISIBILITY(Visibility::PRIVATE),
            TokenType::DATATYPE(DataType::BOOLEAN),
            TokenType::DATATYPE(DataType::BYTE),
            TokenType::DATATYPE(DataType::SHORT),
            TokenType::DATATYPE(DataType::LONG),
            TokenType::DATATYPE(DataType::FLOAT),
            TokenType::DATATYPE(DataType::DOUBLE),
            TokenType::DATATYPE(DataType::CHAR)
        ]
    );
}

#[test]
fn word_classification_functions() {
    let t = parse_token("int", loc(3));
    assert_eq!(t.token_type, TokenType::DATATYPE(DataType::INT));
    assert_eq!(t.char_info.line_col, 3);
    let t = parse_token("||", loc(1));
    assert_eq!(t.token_type, TokenType::OR);
    let t = parse_token("&&", loc(1));
    assert_eq!(t.token_type, TokenType::AND);
    let t = parse_token("Main", loc(1));
    assert_eq!(t.token_type, TokenType::UNKNOWN);
    assert_eq!(t.value.as_deref(), Some("Main"));
    assert_eq!(parse_visibility("static", loc(1)).unwrap().token_type, TokenType::STATIC);
    assert!(parse_visibility("int", loc(1)).is_none());
    assert_eq!(parse_data_types("boolean", loc(1)).unwrap().token_type, TokenType::DATATYPE(DataType::BOOLEAN));
    assert!(parse_data_types("public", loc(1)).is_none());
    assert_eq!(parse_expr('=', loc(1)).unwrap().token_type, TokenType::EQUAL);
    assert_eq!(parse_expr('-', loc(1)).unwrap().token_type, TokenType::REMOVE);
    assert_eq!(parse_expr('+', loc(1)).unwrap().token_type, TokenType::ADD);
    assert!(parse_expr('#', loc(1)).is_none());
}

#[test]
fn token_description() {
    let tokens = lex("\n  int x;");
    assert_eq!(tokens[0].describe(), "DATATYPE(INT):None in Main.java:2:3");
    assert_eq!(tokens[1].describe(), "UNKNOWN:x in Main.java:2:7");
    assert_eq!(tokens[1].text(), "x");
    assert_eq!(tokens[0].text(), "");
}

#[test]
fn empty_text_has_no_tokens() {
    assert!(lex("").is_empty());
    assert!(lex("\n\n").is_empty());
}

#[test]
fn quote_state_resets_per_line() {
    let tokens = lex("\"ab\ncd");
    assert_eq!(kinds(&tokens), vec![TokenType::QUOTE, TokenType::QUOTE_STRING, TokenType::UNKNOWN]);
    assert_eq!(tokens[2].char_info.line_number, 2);
}
