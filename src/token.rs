//! Tokens: their kinds, where they come from, and how they are described in
//! diagnostics.
use vstd::prelude::*;
use crate::text::{decimal, decimal_text};

verus! {

#[allow(non_camel_case_types)]
#[derive(Debug, PartialEq, Eq, Structural, Clone, Copy)]
pub enum TokenType {
    RETURN,
    VOID,
    CLASS,
    IF,
    OR,
    AND,
    ELSE,
    INTLIT,
    ARRAY,
    STATIC,
    QUOTE,
    QUOTE_STRING,
    /// (
    OPEN_BRACE,
    /// )
    CLOSE_BRACE,
    /// {
    OPEN_BRACKET,
    /// }
    CLOSE_BRACKET,
    COMMA,
    TRUE,
    FALSE,
    VISIBILITY(Visibility),
    DATATYPE(DataType),
    EQUAL,
    ADD,
    MUL,
    SUB,
    REMOVE,
    SEMICOLON,
    UNKNOWN,
}

#[derive(Debug, PartialEq, Eq, Structural, Default, Clone, Copy)]
pub enum Visibility {
    PUBLIC,
    #[default]
    NONE,
    PRIVATE,
}

#[derive(Debug, PartialEq, Eq, Structural, Clone, Copy)]
pub enum DataType {
    BYTE,
    SHORT,
    INT,
    LONG,
    FLOAT,
    DOUBLE,
    CHAR,
    BOOLEAN,
}

/// Where a token starts: the file, the 1-based line and the 1-based column.
#[derive(Debug, Clone)]
pub struct CharLocationInfo {
    pub file_path: String,
    pub line_number: usize,
    pub line_col: usize,
}

/// The mathematical value of a source location.
pub struct LocationView {
    pub file: Seq<char>,
    pub line: nat,
    pub col: nat,
}

impl View for CharLocationInfo {
    type V = LocationView;

    open spec fn view(&self) -> LocationView {
        LocationView { file: self.file_path@, line: self.line_number as nat, col: self.line_col as nat }
    }
}

impl CharLocationInfo {
    /// A copy of this location.
    pub fn copy(&self) -> (r: CharLocationInfo)
        ensures
            r@ == self@,
    {
        CharLocationInfo {
            file_path: self.file_path.clone(),
            line_number: self.line_number,
            line_col: self.line_col,
        }
    }
}

#[derive(Debug)]
pub struct Token {
    pub token_type: TokenType,
    pub value: Option<String>,
    pub char_info: CharLocationInfo,
}

/// The mathematical value of a token.
pub struct TokenView {
    pub kind: TokenType,
    pub text: Option<Seq<char>>,
    pub loc: LocationView,
}

pub open spec fn opt_text(o: Option<String>) -> Option<Seq<char>> {
    match o {
        Some(s) => Some(s@),
        None => None,
    }
}

impl View for Token {
    type V = TokenView;

    open spec fn view(&self) -> TokenView {
        TokenView { kind: self.token_type, text: opt_text(self.value), loc: self.char_info@ }
    }
}

/// The text a token carries; a token without one reads as empty.
pub open spec fn token_text(t: Token) -> Seq<char> {
    match t.value {
        Some(s) => s@,
        None => Seq::empty(),
    }
}

pub open spec fn tokens_view(s: Seq<Token>) -> Seq<TokenView> {
    s.map_values(|t: Token| t@)
}

pub open spec fn visibility_name(v: Visibility) -> Seq<char> {
    match v {
        Visibility::PUBLIC => "PUBLIC"@,
        Visibility::NONE => "NONE"@,
        Visibility::PRIVATE => "PRIVATE"@,
    }
}

pub open spec fn data_type_name(d: DataType) -> Seq<char> {
    match d {
        DataType::BYTE => "BYTE"@,
        DataType::SHORT => "SHORT"@,
        DataType::INT => "INT"@,
        DataType::LONG => "LONG"@,
        DataType::FLOAT => "FLOAT"@,
        DataType::DOUBLE => "DOUBLE"@,
        DataType::CHAR => "CHAR"@,
        DataType::BOOLEAN => "BOOLEAN"@,
    }
}

/// The name of a token kind as diagnostics print it.
pub open spec fn kind_name(k: TokenType) -> Seq<char> {
    match k {
        TokenType::RETURN => "RETURN"@,
        TokenType::VOID => "VOID"@,
        TokenType::CLASS => "CLASS"@,
        TokenType::IF => "IF"@,
        TokenType::OR => "OR"@,
        TokenType::AND => "AND"@,
        TokenType::ELSE => "ELSE"@,
        TokenType::INTLIT => "INTLIT"@,
        TokenType::ARRAY => "ARRAY"@,
        TokenType::STATIC => "STATIC"@,
        TokenType::QUOTE => "QUOTE"@,
        TokenType::QUOTE_STRING => "QUOTE_STRING"@,
        TokenType::OPEN_BRACE => "OPEN_BRACE"@,
        TokenType::CLOSE_BRACE => "CLOSE_BRACE"@,
        TokenType::OPEN_BRACKET => "OPEN_BRACKET"@,
        TokenType::CLOSE_BRACKET => "CLOSE_BRACKET"@,
        TokenType::COMMA => "COMMA"@,
        TokenType::TRUE => "TRUE"@,
        TokenType::FALSE => "FALSE"@,
        TokenType::VISIBILITY(v) => "VISIBILITY("@ + visibility_name(v) + ")"@,
        TokenType::DATATYPE(d) => "DATATYPE("@ + data_type_name(d) + ")"@,
        TokenType::EQUAL => "EQUAL"@,
        TokenType::ADD => "ADD"@,
        TokenType::MUL => "MUL"@,
        TokenType::SUB => "SUB"@,
        TokenType::REMOVE => "REMOVE"@,
        TokenType::SEMICOLON => "SEMICOLON"@,
        TokenType::UNKNOWN => "UNKNOWN"@,
    }
}

/// `KIND:value in file:line:col`, with `None` for a token without a value.
pub open spec fn describe_spec(t: TokenView) -> Seq<char> {
    kind_name(t.kind) + ":"@ + (match t.text {
        Some(s) => s,
        None => "None"@,
    }) + " in "@ + t.loc.file + ":"@ + decimal(t.loc.line) + ":"@ + decimal(t.loc.col)
}

fn visibility_str(v: Visibility) -> (r: &'static str)
    ensures
        r@ == visibility_name(v),
{
    match v {
        Visibility::PUBLIC => "PUBLIC",
        Visibility::NONE => "NONE",
        Visibility::PRIVATE => "PRIVATE",
    }
}

fn data_type_str(d: DataType) -> (r: &'static str)
    ensures
        r@ == data_type_name(d),
{
    match d {
        DataType::BYTE => "BYTE",
        DataType::SHORT => "SHORT",
        DataType::INT => "INT",
        DataType::LONG => "LONG",
        DataType::FLOAT => "FLOAT",
        DataType::DOUBLE => "DOUBLE",
        DataType::CHAR => "CHAR",
        DataType::BOOLEAN => "BOOLEAN",
    }
}

fn kind_text(k: TokenType) -> (r: String)
    ensures
        r@ == kind_name(k),
{
    match k {
        TokenType::RETURN => String::from_str("RETURN"),
        TokenType::VOID => String::from_str("VOID"),
        TokenType::CLASS => String::from_str("CLASS"),
        TokenType::IF => String::from_str("IF"),
        TokenType::OR => String::from_str("OR"),
        TokenType::AND => String::from_str("AND"),
        TokenType::ELSE => String::from_str("ELSE"),
        TokenType::INTLIT => String::from_str("INTLIT"),
        TokenType::ARRAY => String::from_str("ARRAY"),
        TokenType::STATIC => String::from_str("STATIC"),
        TokenType::QUOTE => String::from_str("QUOTE"),
        TokenType::QUOTE_STRING => String::from_str("QUOTE_STRING"),
        TokenType::OPEN_BRACE => String::from_str("OPEN_BRACE"),
        TokenType::CLOSE_BRACE => String::from_str("CLOSE_BRACE"),
        TokenType::OPEN_BRACKET => String::from_str("OPEN_BRACKET"),
        TokenType::CLOSE_BRACKET => String::from_str("CLOSE_BRACKET"),
        TokenType::COMMA => String::from_str("COMMA"),
        TokenType::TRUE => String::from_str("TRUE"),
        TokenType::FALSE => String::from_str("FALSE"),
        TokenType::VISIBILITY(v) => {
            let mut s = String::from_str("VISIBILITY(");
            s.append(visibility_str(v));
            s.append(")");
            s
        },
        TokenType::DATATYPE(d) => {
            let mut s = String::from_str("DATATYPE(");
            s.append(data_type_str(d));
            s.append(")");
            s
        },
        TokenType::EQUAL => String::from_str("EQUAL"),
        TokenType::ADD => String::from_str("ADD"),
        TokenType::MUL => String::from_str("MUL"),
        TokenType::SUB => String::from_str("SUB"),
        TokenType::REMOVE => String::from_str("REMOVE"),
        TokenType::SEMICOLON => String::from_str("SEMICOLON"),
        TokenType::UNKNOWN => String::from_str("UNKNOWN"),
    }
}

impl Token {
    /// The token as diagnostics print it: `KIND:value in file:line:col`.
    pub fn describe(&self) -> (r: String)
        ensures
            r@ == describe_spec(self@),
    {
        let mut s = kind_text(self.token_type);
        s.append(":");
        match &self.value {
            Some(v) => s.append(v.as_str()),
            None => s.append("None"),
        }
        s.append(" in ");
        s.append(self.char_info.file_path.as_str());
        s.append(":");
        let line = decimal_text(self.char_info.line_number);
        s.append(line.as_str());
        s.append(":");
        let col = decimal_text(self.char_info.line_col);
        s.append(col.as_str());
        s
    }

    /// The text the token carries, or an empty string for a token without one.
    pub fn text(&self) -> (r: String)
        ensures
            r@ == token_text(*self),
    {
        match &self.value {
            Some(v) => v.clone(),
            None => String::new(),
        }
    }
}

} // verus!
