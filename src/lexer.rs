//! The lexer: source text to located tokens, line by line.
//!
//! A line is read character by character. Inside a string literal (an odd
//! number of `"` seen so far on the line) each run of characters becomes a
//! `QUOTE_STRING` fragment; outside, words are classified against the keyword
//! tables, digit runs become `INTLIT`, punctuation maps to one token each,
//! whitespace is skipped and any other character is reported and dropped.
use vstd::prelude::*;
use crate::text::{
    alphabetic, alphanumeric, chars_of, is_alphabetic, is_alphanumeric, is_numeric,
    is_whitespace, numeric, same_text, text_between, white_space,
};
use crate::token::{CharLocationInfo, DataType, LocationView, Token, TokenType, TokenView, Visibility, tokens_view};

verus! {

// ---------------------------------------------------------------------------
// Keyword tables
// ---------------------------------------------------------------------------

pub open spec fn data_type_of(word: Seq<char>) -> Option<DataType> {
    if word == "boolean"@ {
        Some(DataType::BOOLEAN)
    } else if word == "byte"@ {
        Some(DataType::BYTE)
    } else if word == "short"@ {
        Some(DataType::SHORT)
    } else if word == "int"@ {
        Some(DataType::INT)
    } else if word == "long"@ {
        Some(DataType::LONG)
    } else if word == "float"@ {
        Some(DataType::FLOAT)
    } else if word == "double"@ {
        Some(DataType::DOUBLE)
    } else if word == "char"@ {
        Some(DataType::CHAR)
    } else {
        None
    }
}

pub open spec fn modifier_of(word: Seq<char>) -> Option<TokenType> {
    if word == "public"@ {
        Some(TokenType::VISIBILITY(Visibility::PUBLIC))
    } else if word == "static"@ {
        Some(TokenType::STATIC)
    } else if word == "private"@ {
        Some(TokenType::VISIBILITY(Visibility::PRIVATE))
    } else {
        None
    }
}

pub open spec fn keyword_of(word: Seq<char>) -> Option<TokenType> {
    if word == "return"@ {
        Some(TokenType::RETURN)
    } else if word == "if"@ {
        Some(TokenType::IF)
    } else if word == "else"@ {
        Some(TokenType::ELSE)
    } else if word == "||"@ {
        Some(TokenType::OR)
    } else if word == "&&"@ {
        Some(TokenType::AND)
    } else if word == "class"@ {
        Some(TokenType::CLASS)
    } else if word == "void"@ {
        Some(TokenType::VOID)
    } else if word == "true"@ {
        Some(TokenType::TRUE)
    } else if word == "false"@ {
        Some(TokenType::FALSE)
    } else {
        None
    }
}

/// The kind of a word: data types first, then modifiers, then keywords,
/// and `UNKNOWN` for anything else.
pub open spec fn word_kind(word: Seq<char>) -> TokenType {
    match data_type_of(word) {
        Some(d) => TokenType::DATATYPE(d),
        None => match modifier_of(word) {
            Some(k) => k,
            None => match keyword_of(word) {
                Some(k) => k,
                None => TokenType::UNKNOWN,
            },
        },
    }
}

/// Only an `UNKNOWN` word keeps its text.
pub open spec fn word_text(word: Seq<char>) -> Option<Seq<char>> {
    if word_kind(word) == TokenType::UNKNOWN {
        Some(word)
    } else {
        None
    }
}

/// Punctuation that stands for one token.
pub open spec fn punct_kind(c: char) -> Option<TokenType> {
    if c == '(' {
        Some(TokenType::OPEN_BRACE)
    } else if c == ')' {
        Some(TokenType::CLOSE_BRACE)
    } else if c == '{' {
        Some(TokenType::OPEN_BRACKET)
    } else if c == '}' {
        Some(TokenType::CLOSE_BRACKET)
    } else if c == ',' {
        Some(TokenType::COMMA)
    } else if c == ';' {
        Some(TokenType::SEMICOLON)
    } else {
        None
    }
}

/// Operator characters.
pub open spec fn operator_kind(c: char) -> Option<TokenType> {
    if c == '=' {
        Some(TokenType::EQUAL)
    } else if c == '-' {
        Some(TokenType::REMOVE)
    } else if c == '+' {
        Some(TokenType::ADD)
    } else if c == '*' {
        Some(TokenType::MUL)
    } else if c == '/' {
        Some(TokenType::SUB)
    } else {
        None
    }
}

fn token_at(kind: TokenType, char_info: CharLocationInfo) -> (r: Token)
    ensures
        r@ == (TokenView { kind, text: None, loc: char_info@ }),
{
    Token { token_type: kind, value: None, char_info }
}

pub fn parse_visibility(string: &str, char_info: CharLocationInfo) -> (r: Option<Token>)
    ensures
        match modifier_of(string@) {
            Some(k) => r is Some && r->0@ == (TokenView { kind: k, text: None, loc: char_info@ }),
            None => r is None,
        },
{
    if same_text(string, "public") {
        Some(token_at(TokenType::VISIBILITY(Visibility::PUBLIC), char_info))
    } else if same_text(string, "static") {
        Some(token_at(TokenType::STATIC, char_info))
    } else if same_text(string, "private") {
        Some(token_at(TokenType::VISIBILITY(Visibility::PRIVATE), char_info))
    } else {
        None
    }
}

pub fn parse_data_types(string: &str, char_info: CharLocationInfo) -> (r: Option<Token>)
    ensures
        match data_type_of(string@) {
            Some(d) => r is Some && r->0@ == (TokenView {
                kind: TokenType::DATATYPE(d),
                text: None,
                loc: char_info@,
            }),
            None => r is None,
        },
{
    let d = if same_text(string, "boolean") {
        DataType::BOOLEAN
    } else if same_text(string, "byte") {
        DataType::BYTE
    } else if same_text(string, "short") {
        DataType::SHORT
    } else if same_text(string, "int") {
        DataType::INT
    } else if same_text(string, "long") {
        DataType::LONG
    } else if same_text(string, "float") {
        DataType::FLOAT
    } else if same_text(string, "double") {
        DataType::DOUBLE
    } else if same_text(string, "char") {
        DataType::CHAR
    } else {
        return None;
    };
    Some(token_at(TokenType::DATATYPE(d), char_info))
}

fn keyword_token(string: &str) -> (r: Option<TokenType>)
    ensures
        r == keyword_of(string@),
{
    if same_text(string, "return") {
        Some(TokenType::RETURN)
    } else if same_text(string, "if") {
        Some(TokenType::IF)
    } else if same_text(string, "else") {
        Some(TokenType::ELSE)
    } else if same_text(string, "||") {
        Some(TokenType::OR)
    } else if same_text(string, "&&") {
        Some(TokenType::AND)
    } else if same_text(string, "class") {
        Some(TokenType::CLASS)
    } else if same_text(string, "void") {
        Some(TokenType::VOID)
    } else if same_text(string, "true") {
        Some(TokenType::TRUE)
    } else if same_text(string, "false") {
        Some(TokenType::FALSE)
    } else {
        None
    }
}

/// Classifies a word read from the source.
pub fn parse_token(string: &str, char_info: CharLocationInfo) -> (r: Token)
    ensures
        r@ == (TokenView { kind: word_kind(string@), text: word_text(string@), loc: char_info@ }),
{
    let loc = char_info.copy();
    if let Some(t) = parse_data_types(string, char_info) {
        return t;
    }
    let char_info = loc.copy();
    if let Some(t) = parse_visibility(string, char_info) {
        return t;
    }
    let char_info = loc;
    match keyword_token(string) {
        Some(k) => token_at(k, char_info),
        None => Token {
            token_type: TokenType::UNKNOWN,
            value: Some(String::from_str(string)),
            char_info,
        },
    }
}

/// Maps an operator character to its token.
pub fn parse_expr(string: char, char_info: CharLocationInfo) -> (r: Option<Token>)
    ensures
        match operator_kind(string) {
            Some(k) => r is Some && r->0@ == (TokenView { kind: k, text: None, loc: char_info@ }),
            None => r is None,
        },
{
    let k = if string == '=' {
        TokenType::EQUAL
    } else if string == '-' {
        TokenType::REMOVE
    } else if string == '+' {
        TokenType::ADD
    } else if string == '*' {
        TokenType::MUL
    } else if string == '/' {
        TokenType::SUB
    } else {
        return None;
    };
    Some(token_at(k, char_info))
}

// ---------------------------------------------------------------------------
// Scanning one line
// ---------------------------------------------------------------------------

/// A token found on a line, before the file and line number are attached.
pub struct Lexeme {
    pub kind: TokenType,
    pub text: Option<Seq<char>>,
    /// 1-based column of its first character.
    pub col: nat,
}

/// What reading at one position of a line yields: at most one lexeme, the
/// position to go on from, the string-literal state after it, and whether
/// the character was reported as unexpected.
pub struct Step {
    pub lexeme: Option<Lexeme>,
    pub next: int,
    pub quoted: bool,
    pub stray: bool,
}

/// The end of the run that starts at `j`: of alphanumeric characters, or of
/// numeric ones when `digits` holds.
pub open spec fn run_end(line: Seq<char>, j: int, digits: bool) -> int
    decreases line.len() - j,
{
    if 0 <= j < line.len() && (if digits {
        numeric(line[j])
    } else {
        alphanumeric(line[j])
    }) {
        run_end(line, j + 1, digits)
    } else {
        j
    }
}

pub open spec fn lexeme(kind: TokenType, text: Option<Seq<char>>, i: int) -> Option<Lexeme> {
    Some(Lexeme { kind, text, col: (i + 1) as nat })
}

pub open spec fn lex_step(line: Seq<char>, i: int, quoted: bool) -> Step {
    let c = line[i];
    if c == '"' {
        Step { lexeme: lexeme(TokenType::QUOTE, None, i), next: i + 1, quoted: !quoted, stray: false }
    } else if quoted {
        let j = run_end(line, i + 1, false);
        Step {
            lexeme: lexeme(TokenType::QUOTE_STRING, Some(line.subrange(i, j)), i),
            next: j,
            quoted,
            stray: false,
        }
    } else if alphabetic(c) {
        let j = run_end(line, i + 1, false);
        let w = line.subrange(i, j);
        Step { lexeme: lexeme(word_kind(w), word_text(w), i), next: j, quoted, stray: false }
    } else if numeric(c) {
        let j = run_end(line, i + 1, true);
        Step {
            lexeme: lexeme(TokenType::INTLIT, Some(line.subrange(i, j)), i),
            next: j,
            quoted,
            stray: false,
        }
    } else if punct_kind(c) is Some {
        Step { lexeme: lexeme(punct_kind(c)->0, None, i), next: i + 1, quoted, stray: false }
    } else if c == '[' && i + 1 < line.len() && line[i + 1] == ']' {
        Step { lexeme: lexeme(TokenType::ARRAY, None, i), next: i + 2, quoted, stray: false }
    } else if white_space(c) {
        Step { lexeme: None, next: i + 1, quoted, stray: false }
    } else if operator_kind(c) is Some {
        Step { lexeme: lexeme(operator_kind(c)->0, None, i), next: i + 1, quoted, stray: false }
    } else {
        Step { lexeme: None, next: i + 1, quoted, stray: true }
    }
}

/// The lexemes of `line` from position `i` on, in string-literal state `quoted`.
pub open spec fn lex_from(line: Seq<char>, i: int, quoted: bool) -> Seq<Lexeme>
    decreases line.len() - i,
{
    if 0 <= i < line.len() {
        let st = lex_step(line, i, quoted);
        let rest = if i < st.next <= line.len() {
            lex_from(line, st.next, st.quoted)
        } else {
            Seq::empty()
        };
        match st.lexeme {
            Some(x) => seq![x] + rest,
            None => rest,
        }
    } else {
        Seq::empty()
    }
}

/// The 1-based columns of the unexpected characters of `line` from `i` on.
pub open spec fn strays_from(line: Seq<char>, i: int, quoted: bool) -> Seq<nat>
    decreases line.len() - i,
{
    if 0 <= i < line.len() {
        let st = lex_step(line, i, quoted);
        let rest = if i < st.next <= line.len() {
            strays_from(line, st.next, st.quoted)
        } else {
            Seq::empty()
        };
        if st.stray {
            seq![(i + 1) as nat] + rest
        } else {
            rest
        }
    } else {
        Seq::empty()
    }
}

pub open spec fn place(x: Lexeme, file: Seq<char>, line: nat) -> TokenView {
    TokenView { kind: x.kind, text: x.text, loc: LocationView { file, line, col: x.col } }
}

/// The tokens of one line, numbered `number` (1-based), of file `file`.
pub open spec fn line_tokens(line: Seq<char>, file: Seq<char>, number: nat) -> Seq<TokenView> {
    place_all(lex_from(line, 0, false), file, number)
}

pub open spec fn place_all(xs: Seq<Lexeme>, file: Seq<char>, number: nat) -> Seq<TokenView> {
    xs.map_values(|x: Lexeme| place(x, file, number))
}

pub open spec fn locate_all(cols: Seq<nat>, file: Seq<char>, number: nat) -> Seq<LocationView> {
    cols.map_values(|c: nat| LocationView { file, line: number, col: c })
}

/// Where the unexpected characters of one line are.
pub open spec fn line_strays(line: Seq<char>, file: Seq<char>, number: nat) -> Seq<LocationView> {
    locate_all(strays_from(line, 0, false), file, number)
}

pub open spec fn locations_view(s: Seq<CharLocationInfo>) -> Seq<LocationView> {
    s.map_values(|l: CharLocationInfo| l@)
}

proof fn lemma_run_end_bounds(line: Seq<char>, j: int, digits: bool)
    requires
        0 <= j <= line.len(),
    ensures
        j <= run_end(line, j, digits) <= line.len(),
    decreases line.len() - j,
{
    if j < line.len() {
        lemma_run_end_bounds(line, j + 1, digits);
    }
}

proof fn lemma_step_advances(line: Seq<char>, i: int, quoted: bool)
    requires
        0 <= i < line.len(),
    ensures
        i < lex_step(line, i, quoted).next <= line.len(),
{
    lemma_run_end_bounds(line, i + 1, false);
    lemma_run_end_bounds(line, i + 1, true);
}

fn continues_run(c: char, digits: bool) -> (r: bool)
    ensures
        r == if digits {
            numeric(c)
        } else {
            alphanumeric(c)
        },
{
    if digits {
        is_numeric(c)
    } else {
        is_alphanumeric(c)
    }
}

/// Finds where the run starting at `from` ends.
fn scan_run(line: &Vec<char>, from: usize, digits: bool) -> (j: usize)
    requires
        from <= line@.len(),
    ensures
        j as int == run_end(line@, from as int, digits),
        from <= j <= line@.len(),
{
    let mut j: usize = from;
    while j < line.len() && continues_run(line[j], digits)
        invariant
            from <= j <= line@.len(),
            run_end(line@, j as int, digits) == run_end(line@, from as int, digits),
        decreases line@.len() - j,
    {
        j = j + 1;
    }
    j
}

/// Reads at position `i` of a line: the executable counterpart of `lex_step`.
fn lex_one(line: &Vec<char>, i: usize, quoted: bool, info: CharLocationInfo) -> (r: (
    Option<Token>,
    usize,
    bool,
    bool,
))
    requires
        i < line@.len(),
        info@.col == i + 1,
    ensures
        ({
            let st = lex_step(line@, i as int, quoted);
            &&& r.1 as int == st.next
            &&& r.2 == st.quoted
            &&& r.3 == st.stray
            &&& match st.lexeme {
                Some(x) => r.0 is Some && r.0->0@ == place(x, info@.file, info@.line),
                None => r.0 is None,
            }
        }),
{
    proof {
        lemma_step_advances(line@, i as int, quoted);
    }
    let c = line[i];
    if c == '"' {
        (Some(token_at(TokenType::QUOTE, info)), i + 1, !quoted, false)
    } else if quoted {
        let j = scan_run(line, i + 1, false);
        let t = Token { token_type: TokenType::QUOTE_STRING, value: Some(text_between(line, i, j)), char_info: info };
        (Some(t), j, quoted, false)
    } else if is_alphabetic(c) {
        let j = scan_run(line, i + 1, false);
        let word = text_between(line, i, j);
        (Some(parse_token(word.as_str(), info)), j, quoted, false)
    } else if is_numeric(c) {
        let j = scan_run(line, i + 1, true);
        let t = Token { token_type: TokenType::INTLIT, value: Some(text_between(line, i, j)), char_info: info };
        (Some(t), j, quoted, false)
    } else if c == '(' {
        (Some(token_at(TokenType::OPEN_BRACE, info)), i + 1, quoted, false)
    } else if c == ')' {
        (Some(token_at(TokenType::CLOSE_BRACE, info)), i + 1, quoted, false)
    } else if c == '{' {
        (Some(token_at(TokenType::OPEN_BRACKET, info)), i + 1, quoted, false)
    } else if c == '}' {
        (Some(token_at(TokenType::CLOSE_BRACKET, info)), i + 1, quoted, false)
    } else if c == ',' {
        (Some(token_at(TokenType::COMMA, info)), i + 1, quoted, false)
    } else if c == ';' {
        (Some(token_at(TokenType::SEMICOLON, info)), i + 1, quoted, false)
    } else if c == '[' && i + 1 < line.len() && line[i + 1] == ']' {
        (Some(token_at(TokenType::ARRAY, info)), i + 2, quoted, false)
    } else if is_whitespace(c) {
        (None, i + 1, quoted, false)
    } else {
        match parse_expr(c, info) {
            Some(t) => (Some(t), i + 1, quoted, false),
            None => (None, i + 1, quoted, true),
        }
    }
}

/// Tokenizes one line, given as characters, numbered `number` (1-based).
/// Unexpected characters are appended to `unexpected` and skipped.
fn lex_line(
    line: &Vec<char>,
    number: usize,
    file: &str,
    unexpected: &mut Vec<CharLocationInfo>,
) -> (r: Vec<Token>)
    ensures
        tokens_view(r@) == line_tokens(line@, file@, number as nat),
        locations_view(final(unexpected)@) == locations_view(old(unexpected)@) + line_strays(
            line@,
            file@,
            number as nat,
        ),
{
    let n = line.len();
    let mut tokens: Vec<Token> = Vec::new();
    let mut i: usize = 0;
    let mut quoted = false;
    let ghost mut done: Seq<Lexeme> = Seq::empty();
    let ghost mut strays: Seq<nat> = Seq::empty();
    while i < n
        invariant
            n == line@.len(),
            i <= n,
            done + lex_from(line@, i as int, quoted) == lex_from(line@, 0, false),
            strays + strays_from(line@, i as int, quoted) == strays_from(line@, 0, false),
            tokens_view(tokens@) == place_all(done, file@, number as nat),
            locations_view(unexpected@) == locations_view(old(unexpected)@) + locate_all(
                strays,
                file@,
                number as nat,
            ),
        decreases n - i,
    {
        let info = CharLocationInfo { file_path: String::from_str(file), line_number: number, line_col: i + 1 };
        let ghost old_done = done;
        let ghost old_strays = strays;
        let (found, next, q, stray) = lex_one(line, i, quoted, info);
        proof {
            lemma_step_advances(line@, i as int, quoted);
            let st = lex_step(line@, i as int, quoted);
            match st.lexeme {
                Some(x) => {
                    assert(done + lex_from(line@, i as int, quoted) == done.push(x) + lex_from(line@, st.next, st.quoted));
                    done = done.push(x);
                },
                None => {},
            }
            if st.stray {
                assert(strays + strays_from(line@, i as int, quoted) =~= strays.push((i + 1) as nat) + strays_from(line@, st.next, st.quoted));
                strays = strays.push((i + 1) as nat);
            }
        }
        match found {
            Some(t) => {
                proof {
                    assert(tokens_view(tokens@.push(t)) =~= tokens_view(tokens@).push(t@));
                    assert(place_all(done, file@, number as nat) =~= place_all(old_done, file@, number as nat).push(t@));
                }
                tokens.push(t);
            },
            None => {},
        }
        if stray {
            let l = CharLocationInfo { file_path: String::from_str(file), line_number: number, line_col: i + 1 };
            proof {
                assert(locations_view(unexpected@.push(l)) =~= locations_view(unexpected@).push(l@));
                assert(locate_all(strays, file@, number as nat) =~= locate_all(old_strays, file@, number as nat).push(l@));
            }
            unexpected.push(l);
        }
        i = next;
        quoted = q;
    }
    proof {
        assert(done =~= lex_from(line@, 0, false));
        assert(strays =~= strays_from(line@, 0, false));
    }
    tokens
}


// ---------------------------------------------------------------------------
// Whole texts
// ---------------------------------------------------------------------------

/// The index of the first `\n` at or after `i`, or the length of the text.
pub open spec fn line_end(text: Seq<char>, i: int) -> int
    decreases text.len() - i,
{
    if 0 <= i < text.len() && text[i] != '\n' {
        line_end(text, i + 1)
    } else {
        i
    }
}

/// A line without its trailing carriage return, if it has one.
pub open spec fn strip_cr(l: Seq<char>) -> Seq<char> {
    if l.len() > 0 && l.last() == '\r' {
        l.drop_last()
    } else {
        l
    }
}

/// The lines of `text` from position `i` on: split at `\n`, a trailing `\r`
/// dropped from each, and no empty line after a final `\n`.
pub open spec fn lines_from(text: Seq<char>, i: int) -> Seq<Seq<char>>
    decreases text.len() - i,
{
    if 0 <= i < text.len() {
        let e = line_end(text, i);
        let rest = if i <= e < text.len() {
            lines_from(text, e + 1)
        } else {
            Seq::empty()
        };
        seq![strip_cr(text.subrange(i, e))] + rest
    } else {
        Seq::empty()
    }
}

pub open spec fn lines_of(text: Seq<char>) -> Seq<Seq<char>> {
    lines_from(text, 0)
}

/// The tokens of the first `k` lines, each numbered from 1.
pub open spec fn tokens_of_lines(lines: Seq<Seq<char>>, file: Seq<char>, k: int) -> Seq<TokenView>
    decreases k,
{
    if 0 < k <= lines.len() {
        tokens_of_lines(lines, file, k - 1) + line_tokens(lines[k - 1], file, k as nat)
    } else {
        Seq::empty()
    }
}

/// The unexpected characters of the first `k` lines.
pub open spec fn strays_of_lines(lines: Seq<Seq<char>>, file: Seq<char>, k: int) -> Seq<LocationView>
    decreases k,
{
    if 0 < k <= lines.len() {
        strays_of_lines(lines, file, k - 1) + line_strays(lines[k - 1], file, k as nat)
    } else {
        Seq::empty()
    }
}

/// The tokens of a whole text.
pub open spec fn tokenize_spec(text: Seq<char>, file: Seq<char>) -> Seq<TokenView> {
    tokens_of_lines(lines_of(text), file, lines_of(text).len() as int)
}

/// The unexpected characters of a whole text.
pub open spec fn strays_spec(text: Seq<char>, file: Seq<char>) -> Seq<LocationView> {
    strays_of_lines(lines_of(text), file, lines_of(text).len() as int)
}

proof fn lemma_line_end_bounds(text: Seq<char>, i: int)
    requires
        0 <= i <= text.len(),
    ensures
        i <= line_end(text, i) <= text.len(),
        line_end(text, i) < text.len() ==> text[line_end(text, i)] == '\n',
    decreases text.len() - i,
{
    if i < text.len() && text[i] != '\n' {
        lemma_line_end_bounds(text, i + 1);
    }
}

/// Tokenizes one line of a file; `line_number` counts from 0.
/// Unexpected characters are appended to `unexpected` and skipped.
pub fn tokennize_line(
    string: &str,
    line_number: usize,
    file: &str,
    unexpected: &mut Vec<CharLocationInfo>,
) -> (r: Vec<Token>)
    requires
        line_number < usize::MAX,
    ensures
        tokens_view(r@) == line_tokens(string@, file@, (line_number + 1) as nat),
        locations_view(final(unexpected)@) == locations_view(old(unexpected)@) + line_strays(
            string@,
            file@,
            (line_number + 1) as nat,
        ),
{
    let chars = chars_of(string);
    lex_line(&chars, line_number + 1, file, unexpected)
}

/// Tokenizes a whole text, line by line; never fails. Unexpected characters
/// are appended to `unexpected` and skipped.
pub fn tokenize(source: &str, file_path: &str, unexpected: &mut Vec<CharLocationInfo>) -> (r: Vec<Token>)
    ensures
        tokens_view(r@) == tokenize_spec(source@, file_path@),
        locations_view(final(unexpected)@) == locations_view(old(unexpected)@) + strays_spec(
            source@,
            file_path@,
        ),
{
    let text = chars_of(source);
    let n = text.len();
    let ghost lines = lines_of(source@);
    let mut tokens: Vec<Token> = Vec::new();
    let mut i: usize = 0;
    let mut k: usize = 0;
    while i < n
        invariant
            n == text@.len(),
            text@ == source@,
            lines == lines_of(source@),
            i <= n,
            k <= i,
            k <= lines.len(),
            lines_from(text@, i as int) == lines.subrange(k as int, lines.len() as int),
            tokens_view(tokens@) == tokens_of_lines(lines, file_path@, k as int),
            locations_view(unexpected@) == locations_view(old(unexpected)@) + strays_of_lines(
                lines,
                file_path@,
                k as int,
            ),
        decreases n - i,
    {
        let mut e: usize = i;
        while e < n && text[e] != '\n'
            invariant
                i <= e <= n == text@.len(),
                line_end(text@, e as int) == line_end(text@, i as int),
            decreases n - e,
        {
            e = e + 1;
        }
        proof {
            lemma_line_end_bounds(text@, i as int);
        }
        let mut stop: usize = e;
        if e > i && text[e - 1] == '\r' {
            stop = e - 1;
        }
        let mut line: Vec<char> = Vec::new();
        let mut j: usize = i;
        while j < stop
            invariant
                i <= j <= stop <= n == text@.len(),
                line@ == text@.subrange(i as int, j as int),
            decreases stop - j,
        {
            line.push(text[j]);
            assert(line@ =~= text@.subrange(i as int, j + 1));
            j = j + 1;
        }
        proof {
            assert(line@ =~= strip_cr(text@.subrange(i as int, e as int)));
            let rest = lines_from(text@, i as int);
            assert(rest[0] == line@);
            assert(rest.len() > 0);
            assert(lines.subrange(k as int, lines.len() as int)[0] == lines[k as int]);
            assert(lines[k as int] == line@);
            if e < n {
                assert(lines_from(text@, e + 1) =~= rest.subrange(1, rest.len() as int));
            }
        }
        let ghost old_unexpected = unexpected@;
        let mut found = lex_line(&line, k + 1, file_path, unexpected);
        proof {
            assert(tokens_view(tokens@ + found@) =~= tokens_view(tokens@) + tokens_view(found@));
            assert(locations_view(old_unexpected) + line_strays(line@, file_path@, (k + 1) as nat) == locations_view(unexpected@));
        }
        tokens.append(&mut found);
        proof {
            assert(locations_view(unexpected@) =~= locations_view(old(unexpected)@) + strays_of_lines(lines, file_path@, k + 1));
        }
        i = if e < n {
            e + 1
        } else {
            n
        };
        k = k + 1;
    }
    proof {
        assert(lines_from(text@, i as int) =~= Seq::<Seq<char>>::empty());
        assert(k == lines.len());
    }
    tokens
}


// ---------------------------------------------------------------------------
// Laws
// ---------------------------------------------------------------------------

/// What the first character of a token of kind `k` must be.
pub open spec fn first_char_fits(k: TokenType, c: char) -> bool {
    match k {
        TokenType::QUOTE => c == '"',
        TokenType::QUOTE_STRING => c != '"',
        TokenType::INTLIT => numeric(c),
        TokenType::OPEN_BRACE => c == '(',
        TokenType::CLOSE_BRACE => c == ')',
        TokenType::OPEN_BRACKET => c == '{',
        TokenType::CLOSE_BRACKET => c == '}',
        TokenType::COMMA => c == ',',
        TokenType::SEMICOLON => c == ';',
        TokenType::ARRAY => c == '[',
        TokenType::EQUAL => c == '=',
        TokenType::REMOVE => c == '-',
        TokenType::ADD => c == '+',
        TokenType::MUL => c == '*',
        TokenType::SUB => c == '/',
        _ => alphabetic(c),
    }
}

/// A lexeme sits on `line`: its column is on the line, the character there
/// can start it, and the text it carries is the text that starts there.
pub open spec fn lexeme_fits(x: Lexeme, line: Seq<char>) -> bool {
    &&& 1 <= x.col <= line.len()
    &&& first_char_fits(x.kind, line[x.col - 1])
    &&& match x.text {
        Some(w) => x.col - 1 + w.len() <= line.len() && line.subrange(
            x.col - 1,
            x.col - 1 + w.len(),
        ) == w,
        None => true,
    }
}

/// A token of `file` sits where it was read among `lines`: its line number is
/// the 1-based index of its line, and it fits that line at its column.
pub open spec fn located(t: TokenView, lines: Seq<Seq<char>>, file: Seq<char>) -> bool {
    &&& t.loc.file == file
    &&& 1 <= t.loc.line <= lines.len()
    &&& lexeme_fits(Lexeme { kind: t.kind, text: t.text, col: t.loc.col }, lines[t.loc.line - 1])
}

proof fn lemma_lex_from_fits(line: Seq<char>, i: int, quoted: bool)
    requires
        0 <= i,
    ensures
        forall|k: int|
            0 <= k < lex_from(line, i, quoted).len() ==> lex_from(line, i, quoted)[k].col >= i + 1
                && lexeme_fits(#[trigger] lex_from(line, i, quoted)[k], line),
    decreases line.len() - i,
{
    if i < line.len() {
        lemma_step_advances(line, i, quoted);
        lemma_run_end_bounds(line, i + 1, false);
        lemma_run_end_bounds(line, i + 1, true);
        let st = lex_step(line, i, quoted);
        lemma_lex_from_fits(line, st.next, st.quoted);
        let rest = lex_from(line, st.next, st.quoted);
        let all = lex_from(line, i, quoted);
        match st.lexeme {
            Some(x) => {
                assert(all == seq![x] + rest);
                assert(lexeme_fits(x, line)) by {
                    match x.text {
                        Some(w) => {
                            assert(line.subrange(x.col - 1, x.col - 1 + w.len()) =~= w);
                        },
                        None => {},
                    }
                }
                assert forall|k: int| 0 <= k < all.len() implies all[k].col >= i + 1
                    && lexeme_fits(#[trigger] all[k], line) by {
                    if k > 0 {
                        assert(all[k] == rest[k - 1]);
                    }
                }
            },
            None => {
                assert(all == rest);
            },
        }
    }
}

proof fn lemma_lines_located(lines: Seq<Seq<char>>, file: Seq<char>, k: int)
    requires
        0 <= k <= lines.len(),
    ensures
        forall|j: int|
            0 <= j < tokens_of_lines(lines, file, k).len() ==> located(
                #[trigger] tokens_of_lines(lines, file, k)[j],
                lines,
                file,
            ),
    decreases k,
{
    if k > 0 {
        lemma_lines_located(lines, file, k - 1);
        lemma_lex_from_fits(lines[k - 1], 0, false);
        let before = tokens_of_lines(lines, file, k - 1);
        let here = line_tokens(lines[k - 1], file, k as nat);
        let xs = lex_from(lines[k - 1], 0, false);
        assert forall|j: int| 0 <= j < tokens_of_lines(lines, file, k).len() implies located(
            #[trigger] tokens_of_lines(lines, file, k)[j],
            lines,
            file,
        ) by {
            if j >= before.len() {
                let x = xs[j - before.len()];
                assert(tokens_of_lines(lines, file, k)[j] == place(x, file, k as nat));
                assert(lexeme_fits(x, lines[k - 1]));
            }
        }
    }
}

/// Every token of a text stands where it was read: its line number is the
/// 1-based index of its source line, its column is the 1-based position on
/// that line of its first character, that character can start a token of
/// its kind, and the text it carries is the text found there.
pub proof fn lemma_token_locations(text: Seq<char>, file: Seq<char>)
    ensures
        forall|j: int|
            0 <= j < tokenize_spec(text, file).len() ==> located(
                #[trigger] tokenize_spec(text, file)[j],
                lines_of(text),
                file,
            ),
{
    lemma_lines_located(lines_of(text), file, lines_of(text).len() as int);
}

/// Tokenizing the same text twice gives the same token sequence.
pub proof fn lemma_relex_identical(text: Seq<char>, file: Seq<char>, first: Seq<Token>, second: Seq<Token>)
    requires
        tokens_view(first) == tokenize_spec(text, file),
        tokens_view(second) == tokenize_spec(text, file),
    ensures
        tokens_view(first) == tokens_view(second),
        first.len() == second.len(),
        forall|j: int| 0 <= j < first.len() ==> #[trigger] first[j]@ == second[j]@,
{
    assert(tokens_view(first).len() == first.len());
    assert(tokens_view(second).len() == second.len());
    assert forall|j: int| 0 <= j < first.len() implies #[trigger] first[j]@ == second[j]@ by {
        assert(tokens_view(first)[j] == first[j]@);
        assert(tokens_view(second)[j] == second[j]@);
    }
}

} // verus!
