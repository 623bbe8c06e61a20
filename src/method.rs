//! Methods: the signature, the parameter list, and the body, whose
//! statements are declarations and calls through library types.
use vstd::prelude::*;
use crate::error::{reports_token, error_at, error_at_end, fail, fail_end, Fail, ParseError, ParseErrorKind};
use crate::nodes::{args_view, ArgView, FunctionArgument, MethodArgumentType, MethodReturnType};
use crate::parser::{context_vars, ClassContext};
use crate::stdlib::{field_of, get_prelude_class, method_code, prelude_class, Class};
use crate::token::{token_text, DataType, Token, TokenType, Visibility};
use crate::variable::{
    decl_started, decl_type, field_position, find_var, lemma_duplicate_iff_in_scope, lemma_find_var_name, lemma_find_var_push, lemma_declaration_advances, outcome, position_of,
    spec_declaration, starts_declaration, var_code, vars_view, NodeVariable, VarView,
};

verus! {

/// A declared parameter of a method.
#[derive(Debug)]
pub struct MethodArgument {
    pub arg: MethodArgumentType,
    pub array: bool,
    pub name: String,
}

pub struct ParamView {
    pub arg: MethodArgumentType,
    pub array: bool,
    pub name: Seq<char>,
}

impl View for MethodArgument {
    type V = ParamView;

    open spec fn view(&self) -> ParamView {
        ParamView { arg: self.arg, array: self.array, name: self.name@ }
    }
}

pub open spec fn params_view(s: Seq<MethodArgument>) -> Seq<ParamView> {
    s.map_values(|a: MethodArgument| a@)
}

pub open spec fn lines_view(s: Seq<String>) -> Seq<Seq<char>> {
    s.map_values(|l: String| l@)
}

/// A parsed method: its signature and the lines of code its body emits.
#[derive(Debug)]
pub struct NodeMethod {
    pub visibility: Visibility,
    pub return_type: MethodReturnType,
    pub is_static: bool,
    pub name: String,
    pub args: Vec<MethodArgument>,
    pub code: Vec<String>,
}

pub struct MethodView {
    pub visibility: Visibility,
    pub return_type: MethodReturnType,
    pub is_static: bool,
    pub name: Seq<char>,
    pub args: Seq<ParamView>,
    pub code: Seq<Seq<char>>,
}

impl View for NodeMethod {
    type V = MethodView;

    open spec fn view(&self) -> MethodView {
        MethodView {
            visibility: self.visibility,
            return_type: self.return_type,
            is_static: self.is_static,
            name: self.name@,
            args: params_view(self.args@),
            code: lines_view(self.code@),
        }
    }
}

// ---------------------------------------------------------------------------
// The grammar, as spec functions over the token sequence
// ---------------------------------------------------------------------------

/// The method name.
pub open spec fn spec_method_name(s: Seq<Token>, p: int) -> Result<(Seq<char>, int), Fail> {
    if p < 0 || p >= s.len() {
        Err(fail_end())
    } else if s[p].token_type == TokenType::UNKNOWN {
        Ok((token_text(s[p]), p + 1))
    } else {
        Err(fail(ParseErrorKind::UnexpectedToken, p))
    }
}

/// A parameter after its type: its name, or `[]` and its name.
pub open spec fn spec_param(s: Seq<Token>, p: int, ty: MethodArgumentType) -> Result<(ParamView, int), Fail> {
    if p < 0 || p >= s.len() {
        Err(fail_end())
    } else if s[p].token_type == TokenType::UNKNOWN {
        Ok((ParamView { arg: ty, array: false, name: token_text(s[p]) }, p + 1))
    } else if s[p].token_type == TokenType::ARRAY {
        if p + 1 >= s.len() {
            Err(fail_end())
        } else if s[p + 1].token_type == TokenType::UNKNOWN {
            Ok((ParamView { arg: ty, array: true, name: token_text(s[p + 1]) }, p + 2))
        } else {
            Err(fail(ParseErrorKind::UnexpectedToken, p + 1))
        }
    } else {
        Err(fail(ParseErrorKind::UnexpectedToken, p))
    }
}

/// The parameters up to `)`, after those in `acc`. A parameter type is a
/// data type or a library type; other tokens, such as commas, are passed over.
pub open spec fn spec_param_list(s: Seq<Token>, p: int, acc: Seq<ParamView>) -> Result<(Seq<ParamView>, int), Fail>
    decreases s.len() - p,
{
    if p < 0 || p >= s.len() {
        Err(fail_end())
    } else {
        let ty = match s[p].token_type {
            TokenType::DATATYPE(d) => Some(Ok(MethodArgumentType::DATATYPE(d))),
            TokenType::UNKNOWN => match prelude_class(token_text(s[p])) {
                Some(c) => Some(Ok(MethodArgumentType::CLASS(c))),
                None => Some(Err(fail(ParseErrorKind::UnknownType, p))),
            },
            _ => None,
        };
        if s[p].token_type == TokenType::CLOSE_BRACE {
            Ok((acc, p + 1))
        } else {
            match ty {
                None => spec_param_list(s, p + 1, acc),
                Some(Err(f)) => Err(f),
                Some(Ok(t)) => match spec_param(s, p + 1, t) {
                    Ok((a, q)) => if p < q <= s.len() {
                        spec_param_list(s, q, acc.push(a))
                    } else {
                        Err(fail_end())
                    },
                    Err(f) => Err(f),
                },
            }
        }
    }
}

/// The parameter list: `(` and the parameters up to `)`.
pub open spec fn spec_params(s: Seq<Token>, p: int) -> Result<(Seq<ParamView>, int), Fail> {
    if p < 0 || p >= s.len() {
        Err(fail_end())
    } else if s[p].token_type != TokenType::OPEN_BRACE {
        Err(fail(ParseErrorKind::UnexpectedToken, p))
    } else {
        spec_param_list(s, p + 1, Seq::empty())
    }
}

/// The characters of a string literal up to its closing quote, after those
/// in `acc`; `open` is where its opening quote is.
pub open spec fn spec_string_lit(s: Seq<Token>, p: int, acc: Seq<char>, open: int) -> Result<(Seq<char>, int), Fail>
    decreases s.len() - p,
{
    if p < 0 || p >= s.len() {
        Err(fail(ParseErrorKind::UnterminatedString, open))
    } else if s[p].token_type == TokenType::QUOTE {
        Ok((acc, p + 1))
    } else if s[p].token_type == TokenType::QUOTE_STRING {
        spec_string_lit(s, p + 1, acc + token_text(s[p]), open)
    } else {
        spec_string_lit(s, p + 1, acc, open)
    }
}

/// A variable named in a call: method locals first, then class fields.
pub open spec fn argument_var(fields: Seq<VarView>, locals: Seq<VarView>, name: Seq<char>) -> Option<VarView> {
    match find_var(locals, name) {
        Some(v) => Some(v),
        None => find_var(fields, name),
    }
}

/// The call arguments up to `)`, after those in `acc`. A variable must
/// have a value; commas and other tokens are passed over.
pub open spec fn spec_call_args(
    s: Seq<Token>,
    p: int,
    fields: Seq<VarView>,
    locals: Seq<VarView>,
    acc: Seq<ArgView>,
) -> Result<(Seq<ArgView>, int), Fail>
    decreases s.len() - p,
{
    if p < 0 || p >= s.len() {
        Err(fail_end())
    } else {
        let t = s[p];
        match t.token_type {
            TokenType::UNKNOWN => match argument_var(fields, locals, token_text(t)) {
                None => Err(fail(ParseErrorKind::UnknownVariable, p)),
                Some(v) => if v.value is None {
                    Err(fail(ParseErrorKind::UninitializedVariable, p))
                } else {
                    spec_call_args(s, p + 1, fields, locals, acc.push(ArgView::Variable(v.ty, v.name)))
                },
            },
            TokenType::QUOTE => match spec_string_lit(s, p + 1, Seq::empty(), p) {
                Ok((text, q)) => if p < q <= s.len() {
                    spec_call_args(s, q, fields, locals, acc.push(ArgView::Str(text)))
                } else {
                    Err(fail_end())
                },
                Err(f) => Err(f),
            },
            TokenType::INTLIT => spec_call_args(
                s,
                p + 1,
                fields,
                locals,
                acc.push(ArgView::Literal(DataType::INT, token_text(t))),
            ),
            TokenType::TRUE => spec_call_args(
                s,
                p + 1,
                fields,
                locals,
                acc.push(ArgView::Literal(DataType::BOOLEAN, "true"@)),
            ),
            TokenType::FALSE => spec_call_args(
                s,
                p + 1,
                fields,
                locals,
                acc.push(ArgView::Literal(DataType::BOOLEAN, "false"@)),
            ),
            TokenType::CLOSE_BRACE => Ok((acc, p + 1)),
            _ => spec_call_args(s, p + 1, fields, locals, acc),
        }
    }
}

/// The rest of an identifier chain up to `;`, on library type `c`, with
/// method name `m` captured so far and the code lines `out` emitted so far.
/// A member followed by `(` is the method; any other member is a field,
/// which replaces `c`. At `(` the call arguments are read and the method
/// translated.
pub open spec fn spec_chain(
    s: Seq<Token>,
    p: int,
    fields: Seq<VarView>,
    locals: Seq<VarView>,
    c: Class,
    m: Seq<char>,
    out: Seq<Seq<char>>,
) -> Result<(Seq<Seq<char>>, int), Fail>
    decreases s.len() - p,
{
    if p < 0 || p >= s.len() {
        Err(fail_end())
    } else {
        match s[p].token_type {
            TokenType::UNKNOWN => {
                let name = token_text(s[p]);
                if p + 1 >= s.len() {
                    Err(fail_end())
                } else if s[p + 1].token_type == TokenType::OPEN_BRACE {
                    spec_chain(s, p + 1, fields, locals, c, name, out)
                } else {
                    match field_of(c, name) {
                        Some(f) => spec_chain(s, p + 1, fields, locals, f, m, out),
                        None => Err(fail(ParseErrorKind::UnknownField, p)),
                    }
                }
            },
            TokenType::OPEN_BRACE => match spec_call_args(s, p + 1, fields, locals, Seq::empty()) {
                Err(f) => Err(f),
                Ok((args, q)) => match method_code(c, m, args) {
                    None => Err(fail(ParseErrorKind::UnsupportedMethod, p)),
                    Some(code) => if p < q <= s.len() {
                        spec_chain(s, q, fields, locals, c, m, out.push(code))
                    } else {
                        Err(fail_end())
                    },
                },
            },
            TokenType::SEMICOLON => Ok((out, p + 1)),
            _ => spec_chain(s, p + 1, fields, locals, c, m, out),
        }
    }
}

/// A statement that starts with a name: the name must be a library type,
/// and the identifier chain after it yields the code lines.
pub open spec fn spec_statement(s: Seq<Token>, p: int, fields: Seq<VarView>, locals: Seq<VarView>) -> Result<
    (Seq<Seq<char>>, int),
    Fail,
> {
    if p < 0 || p >= s.len() {
        Err(fail_end())
    } else {
        match prelude_class(token_text(s[p])) {
            None => Err(fail(ParseErrorKind::UnknownType, p)),
            Some(c) => spec_chain(s, p + 1, fields, locals, c, Seq::empty(), Seq::empty()),
        }
    }
}

/// The rest of a method body: its statements up to the `}` that closes it,
/// with `locals` declared and `code` emitted so far, inside `depth` nested
/// blocks. A declaration is tried first; once it has the shape of one, its
/// errors stand. `{` opens a nested block and `}` closes one; a name starts
/// a call statement; other tokens (`if`, `else`, conditions) emit nothing.
pub open spec fn spec_body(
    s: Seq<Token>,
    p: int,
    fields: Seq<VarView>,
    locals: Seq<VarView>,
    depth: nat,
    code: Seq<Seq<char>>,
) -> Result<(Seq<Seq<char>>, int), Fail>
    decreases s.len() - p,
{
    if p < 0 || p >= s.len() {
        Err(fail_end())
    } else {
        match spec_declaration(s, p, fields, locals) {
            Ok((v, q)) => if p < q <= s.len() {
                spec_body(s, q, fields, locals.push(v), depth, code.push(var_code(v)))
            } else {
                Err(fail_end())
            },
            Err(f) => if decl_started(s, p) {
                Err(f)
            } else {
                match s[p].token_type {
                    TokenType::OPEN_BRACKET => spec_body(s, p + 1, fields, locals, depth + 1, code),
                    TokenType::CLOSE_BRACKET => if depth == 0 {
                        Ok((code, p + 1))
                    } else {
                        spec_body(s, p + 1, fields, locals, (depth - 1) as nat, code)
                    },
                    TokenType::UNKNOWN => match spec_statement(s, p, fields, locals) {
                        Ok((lines, q)) => if p < q <= s.len() {
                            spec_body(s, q, fields, locals, depth, code + lines)
                        } else {
                            Err(fail_end())
                        },
                        Err(f) => Err(f),
                    },
                    _ => spec_body(s, p + 1, fields, locals, depth, code),
                }
            },
        }
    }
}

/// A method body: `{`, then the statements up to the matching `}`.
pub open spec fn spec_method_body(s: Seq<Token>, p: int, fields: Seq<VarView>) -> Result<(Seq<Seq<char>>, int), Fail> {
    if p < 0 || p >= s.len() {
        Err(fail_end())
    } else if s[p].token_type != TokenType::OPEN_BRACKET {
        Err(fail(ParseErrorKind::UnexpectedToken, p))
    } else {
        spec_body(s, p + 1, fields, Seq::empty(), 0, Seq::empty())
    }
}

/// A method after its return type: name, parameters, body.
pub open spec fn spec_method(
    s: Seq<Token>,
    p: int,
    fields: Seq<VarView>,
    visibility: Visibility,
    is_static: bool,
    return_type: MethodReturnType,
) -> Result<(MethodView, int), Fail> {
    match spec_method_name(s, p) {
        Err(f) => Err(f),
        Ok((name, q1)) => match spec_params(s, q1) {
            Err(f) => Err(f),
            Ok((args, q2)) => match spec_method_body(s, q2, fields) {
                Err(f) => Err(f),
                Ok((code, q3)) => Ok((MethodView { visibility, return_type, is_static, name, args, code }, q3)),
            },
        },
    }
}

// ---------------------------------------------------------------------------
// The parser
// ---------------------------------------------------------------------------

pub open spec fn params_outcome(r: Result<Vec<MethodArgument>, ParseError>, pos: usize) -> Result<(Seq<ParamView>, int), Fail> {
    match r {
        Ok(v) => Ok((params_view(v@), pos as int)),
        Err(e) => Err(e@),
    }
}

pub open spec fn args_outcome(r: Result<Vec<FunctionArgument>, ParseError>, pos: usize) -> Result<(Seq<ArgView>, int), Fail> {
    match r {
        Ok(v) => Ok((args_view(v@), pos as int)),
        Err(e) => Err(e@),
    }
}

pub open spec fn lines_outcome(r: Result<Vec<String>, ParseError>, pos: usize) -> Result<(Seq<Seq<char>>, int), Fail> {
    match r {
        Ok(v) => Ok((lines_view(v@), pos as int)),
        Err(e) => Err(e@),
    }
}

impl NodeMethod {
    /// Parses a method after its return type: the name, the parameter list
    /// and the body. The modifiers and return type come from the caller.
    pub fn parse(
        tokens: &Vec<Token>,
        pos: &mut usize,
        class_context: &ClassContext,
        visibility: Visibility,
        is_static: bool,
        return_type: MethodReturnType,
    ) -> (r: Result<NodeMethod, ParseError>)
        requires
            *old(pos) <= tokens@.len(),
        ensures
            outcome(r, *final(pos)) == spec_method(
                tokens@,
                *old(pos) as int,
                context_vars(*class_context),
                visibility,
                is_static,
                return_type,
            ),
            r is Ok ==> *old(pos) < *final(pos) <= tokens@.len(),
            r matches Err(e) ==> reports_token(tokens@, e),
    {
        let name = match Self::parse_name(tokens, pos) {
            Ok(n) => n,
            Err(e) => return Err(e),
        };
        let args = match Self::parse_arguments(tokens, pos) {
            Ok(a) => a,
            Err(e) => return Err(e),
        };
        let p = *pos;
        if p >= tokens.len() {
            return Err(error_at_end("expected a method body"));
        }
        if tokens[p].token_type != TokenType::OPEN_BRACKET {
            return Err(error_at(tokens, p, ParseErrorKind::UnexpectedToken, "Invalid method: expected a body"));
        }
        *pos = p + 1;
        let code = match Self::parse_body(&args, class_context, tokens, pos) {
            Ok(c) => c,
            Err(e) => return Err(e),
        };
        Ok(NodeMethod { visibility, return_type, is_static, name, args, code })
    }

    pub fn parse_name(tokens: &Vec<Token>, pos: &mut usize) -> (r: Result<String, ParseError>)
        requires
            *old(pos) <= tokens@.len(),
        ensures
            outcome(r, *final(pos)) == spec_method_name(tokens@, *old(pos) as int),
            r is Ok ==> *old(pos) < *final(pos) <= tokens@.len(),
            r matches Err(e) ==> reports_token(tokens@, e),
    {
        let p = *pos;
        if p >= tokens.len() {
            return Err(error_at_end("Failed to get method name"));
        }
        if tokens[p].token_type == TokenType::UNKNOWN {
            *pos = p + 1;
            Ok(tokens[p].text())
        } else {
            Err(error_at(tokens, p, ParseErrorKind::UnexpectedToken, "Failed to get method name"))
        }
    }

    /// Parses the parameter list: `(`, then parameters up to `)`.
    pub fn parse_arguments(tokens: &Vec<Token>, pos: &mut usize) -> (r: Result<Vec<MethodArgument>, ParseError>)
        requires
            *old(pos) <= tokens@.len(),
        ensures
            params_outcome(r, *final(pos)) == spec_params(tokens@, *old(pos) as int),
            r is Ok ==> *old(pos) < *final(pos) <= tokens@.len(),
            r matches Err(e) ==> reports_token(tokens@, e),
    {
        let p = *pos;
        if p >= tokens.len() {
            return Err(error_at_end("Invalid method: Expected bracket"));
        }
        if tokens[p].token_type != TokenType::OPEN_BRACE {
            return Err(error_at(tokens, p, ParseErrorKind::UnexpectedToken, "Invalid method: Expected bracket"));
        }
        *pos = p + 1;
        let ghost s = tokens@;
        let mut args: Vec<MethodArgument> = Vec::new();
        assert(params_view(args@) =~= Seq::<ParamView>::empty());
        while *pos < tokens.len()
            invariant
                s == tokens@,
                p == *old(pos),
                p < *pos <= s.len(),
                spec_params(s, p as int) == spec_param_list(s, *pos as int, params_view(args@)),
            decreases s.len() - *pos,
        {
            let q = *pos;
            match tokens[q].token_type {
                TokenType::CLOSE_BRACE => {
                    *pos = q + 1;
                    return Ok(args);
                },
                TokenType::DATATYPE(d) => {
                    *pos = q + 1;
                    match Self::parse_argument(tokens, pos, MethodArgumentType::DATATYPE(d)) {
                        Ok(a) => {
                            assert(params_view(args@.push(a)) =~= params_view(args@).push(a@));
                            args.push(a);
                        },
                        Err(e) => return Err(e),
                    }
                },
                TokenType::UNKNOWN => {
                    let class_name = tokens[q].text();
                    match get_prelude_class(class_name.as_str()) {
                        Some(c) => {
                            *pos = q + 1;
                            match Self::parse_argument(tokens, pos, MethodArgumentType::CLASS(c)) {
                                Ok(a) => {
                                    assert(params_view(args@.push(a)) =~= params_view(args@).push(a@));
                                    args.push(a);
                                },
                                Err(e) => return Err(e),
                            }
                        },
                        None => {
                            return Err(error_at(tokens, q, ParseErrorKind::UnknownType, "Invalid method: unknown argument type"));
                        },
                    }
                },
                _ => {
                    *pos = q + 1;
                },
            }
        }
        Err(error_at_end("Invalid method: Unexpected end of input while parsing expression"))
    }

    /// Parses a parameter after its type: a name, or `[]` and a name.
    pub fn parse_argument(tokens: &Vec<Token>, pos: &mut usize, typee: MethodArgumentType) -> (r: Result<
        MethodArgument,
        ParseError,
    >)
        requires
            *old(pos) <= tokens@.len(),
        ensures
            outcome(r, *final(pos)) == spec_param(tokens@, *old(pos) as int, typee),
            r is Ok ==> *old(pos) < *final(pos) <= tokens@.len(),
            r matches Err(e) ==> reports_token(tokens@, e),
    {
        let p = *pos;
        if p >= tokens.len() {
            return Err(error_at_end("Invalid method: Expected argument name or array but got nothing"));
        }
        match tokens[p].token_type {
            TokenType::UNKNOWN => {
                *pos = p + 1;
                Ok(MethodArgument { name: tokens[p].text(), arg: typee, array: false })
            },
            TokenType::ARRAY => {
                if p + 1 >= tokens.len() {
                    return Err(error_at_end("Invalid method: Got a array for an argument but now no name"));
                }
                if tokens[p + 1].token_type == TokenType::UNKNOWN {
                    *pos = p + 2;
                    Ok(MethodArgument { name: tokens[p + 1].text(), arg: typee, array: true })
                } else {
                    Err(error_at(tokens, p + 1, ParseErrorKind::UnexpectedToken, "Invalid method: Got a array for an argument but now no name"))
                }
            },
            _ => Err(error_at(tokens, p, ParseErrorKind::UnexpectedToken, "Invalid method: Expected argument name or array but got something different")),
        }
    }

    /// Reads a string literal whose opening quote is at `open`, from `*pos`
    /// up to its closing quote.
    fn parse_string_literal(tokens: &Vec<Token>, pos: &mut usize, open: usize) -> (r: Result<String, ParseError>)
        requires
            *old(pos) <= tokens@.len(),
            open < tokens@.len(),
        ensures
            outcome(r, *final(pos)) == spec_string_lit(tokens@, *old(pos) as int, Seq::empty(), open as int),
            r is Ok ==> *old(pos) < *final(pos) <= tokens@.len(),
            r matches Err(e) ==> reports_token(tokens@, e),
    {
        let ghost s = tokens@;
        let p0 = *pos;
        let mut words = String::new();
        while *pos < tokens.len()
            invariant
                s == tokens@,
                open < s.len(),
                p0 == *old(pos),
                p0 <= *pos <= s.len(),
                spec_string_lit(s, p0 as int, Seq::empty(), open as int) == spec_string_lit(s, *pos as int, words@, open as int),
            decreases s.len() - *pos,
        {
            let q = *pos;
            *pos = q + 1;
            if tokens[q].token_type == TokenType::QUOTE {
                return Ok(words);
            } else if tokens[q].token_type == TokenType::QUOTE_STRING {
                let part = tokens[q].text();
                words.append(part.as_str());
            }
        }
        Err(error_at(tokens, open, ParseErrorKind::UnterminatedString, "string literal without closing quote"))
    }

    /// Parses call arguments from `*pos` up to `)`: string literals,
    /// integer and boolean literals, and variables that have a value.
    fn parse_function_arguments(
        tokens: &Vec<Token>,
        pos: &mut usize,
        class_context: &ClassContext,
        variables: &Vec<NodeVariable>,
    ) -> (r: Result<Vec<FunctionArgument>, ParseError>)
        requires
            *old(pos) <= tokens@.len(),
        ensures
            args_outcome(r, *final(pos)) == spec_call_args(
                tokens@,
                *old(pos) as int,
                context_vars(*class_context),
                vars_view(variables@),
                Seq::empty(),
            ),
            r is Ok ==> *old(pos) < *final(pos) <= tokens@.len(),
            r matches Err(e) ==> reports_token(tokens@, e),
    {
        let ghost s = tokens@;
        let ghost fields = context_vars(*class_context);
        let ghost locals = vars_view(variables@);
        let p0 = *pos;
        let mut args: Vec<FunctionArgument> = Vec::new();
        assert(args_view(args@) =~= Seq::<ArgView>::empty());
        while *pos < tokens.len()
            invariant
                s == tokens@,
                fields == context_vars(*class_context),
                locals == vars_view(variables@),
                p0 == *old(pos),
                p0 <= *pos <= s.len(),
                spec_call_args(s, p0 as int, fields, locals, Seq::empty()) == spec_call_args(
                    s,
                    *pos as int,
                    fields,
                    locals,
                    args_view(args@),
                ),
            decreases s.len() - *pos,
        {
            let q = *pos;
            let arg = match tokens[q].token_type {
                TokenType::UNKNOWN => {
                    let name = tokens[q].text();
                    proof {
                        lemma_find_var_name(locals, name@);
                        lemma_find_var_name(fields, name@);
                    }
                    let (has_value, var_type) = match position_of(variables.as_slice(), name.as_str()) {
                        Some(i) => (variables[i].value.is_some(), variables[i].var_type),
                        None => match field_position(class_context, name.as_str()) {
                            Some(i) => (
                                class_context.variables[i].variable.value.is_some(),
                                class_context.variables[i].variable.var_type,
                            ),
                            None => {
                                return Err(error_at(tokens, q, ParseErrorKind::UnknownVariable, "no variable of this name"));
                            },
                        },
                    };
                    if !has_value {
                        return Err(error_at(tokens, q, ParseErrorKind::UninitializedVariable, "Variable is uninitialized"));
                    }
                    *pos = q + 1;
                    Some(FunctionArgument::VARIABLE((var_type, name)))
                },
                TokenType::QUOTE => {
                    *pos = q + 1;
                    match Self::parse_string_literal(tokens, pos, q) {
                        Ok(words) => Some(FunctionArgument::STRING(words)),
                        Err(e) => return Err(e),
                    }
                },
                TokenType::INTLIT => {
                    *pos = q + 1;
                    Some(FunctionArgument::DATATYPE((DataType::INT, tokens[q].text())))
                },
                TokenType::TRUE => {
                    *pos = q + 1;
                    Some(FunctionArgument::DATATYPE((DataType::BOOLEAN, String::from_str("true"))))
                },
                TokenType::FALSE => {
                    *pos = q + 1;
                    Some(FunctionArgument::DATATYPE((DataType::BOOLEAN, String::from_str("false"))))
                },
                TokenType::CLOSE_BRACE => {
                    *pos = q + 1;
                    return Ok(args);
                },
                _ => {
                    *pos = q + 1;
                    None
                },
            };
            match arg {
                Some(a) => {
                    assert(args_view(args@.push(a)) =~= args_view(args@).push(a@));
                    args.push(a);
                },
                None => {},
            }
        }
        Err(error_at_end("call arguments without closing parenthesis"))
    }

    /// Parses a statement that starts with a name at `*pos`: an identifier
    /// chain through library types, ending at `;`.
    fn parse_statement(
        tokens: &Vec<Token>,
        pos: &mut usize,
        class_context: &ClassContext,
        current_vars: &Vec<NodeVariable>,
    ) -> (r: Result<Vec<String>, ParseError>)
        requires
            *old(pos) < tokens@.len(),
        ensures
            lines_outcome(r, *final(pos)) == spec_statement(
                tokens@,
                *old(pos) as int,
                context_vars(*class_context),
                vars_view(current_vars@),
            ),
            r is Ok ==> *old(pos) < *final(pos) <= tokens@.len(),
            r matches Err(e) ==> reports_token(tokens@, e),
    {
        let ghost s = tokens@;
        let ghost fields = context_vars(*class_context);
        let ghost locals = vars_view(current_vars@);
        let p = *pos;
        let n = tokens.len();
        assert(p < n);
        let class_name = tokens[p].text();
        let mut class = match get_prelude_class(class_name.as_str()) {
            Some(c) => c,
            None => {
                return Err(error_at(tokens, p, ParseErrorKind::UnknownType, "Invalid class"));
            },
        };
        let mut method_name = String::new();
        let mut final_code: Vec<String> = Vec::new();
        assert(lines_view(final_code@) =~= Seq::<Seq<char>>::empty());
        *pos = p + 1;
        while *pos < tokens.len()
            invariant
                s == tokens@,
                fields == context_vars(*class_context),
                locals == vars_view(current_vars@),
                p == *old(pos),
                p < *pos <= s.len(),
                spec_statement(s, p as int, fields, locals) == spec_chain(
                    s,
                    *pos as int,
                    fields,
                    locals,
                    class,
                    method_name@,
                    lines_view(final_code@),
                ),
            decreases s.len() - *pos,
        {
            let q = *pos;
            match tokens[q].token_type {
                TokenType::UNKNOWN => {
                    let name = tokens[q].text();
                    if q + 1 >= tokens.len() {
                        return Err(error_at_end("statement without semicolon"));
                    }
                    if tokens[q + 1].token_type == TokenType::OPEN_BRACE {
                        method_name = name;
                    } else {
                        match class.get_field(name.as_str()) {
                            Some(field) => {
                                class = field;
                            },
                            None => {
                                return Err(error_at(tokens, q, ParseErrorKind::UnknownField, "Failed to get Class field"));
                            },
                        }
                    }
                    *pos = q + 1;
                },
                TokenType::OPEN_BRACE => {
                    *pos = q + 1;
                    let args = match Self::parse_function_arguments(tokens, pos, class_context, current_vars) {
                        Ok(a) => a,
                        Err(e) => return Err(e),
                    };
                    match class.code_from_method(method_name.as_str(), args) {
                        Some(code) => {
                            assert(lines_view(final_code@.push(code)) =~= lines_view(final_code@).push(code@));
                            final_code.push(code);
                        },
                        None => {
                            return Err(error_at(tokens, q, ParseErrorKind::UnsupportedMethod, "Failed to get method"));
                        },
                    }
                },
                TokenType::SEMICOLON => {
                    *pos = q + 1;
                    return Ok(final_code);
                },
                _ => {
                    *pos = q + 1;
                },
            }
        }
        Err(error_at_end("statement without semicolon"))
    }

    /// Parses a method body from just after its `{` up to the matching `}`,
    /// returning the emitted code lines in order. The parameters are kept
    /// with the method and are not visible as variables here.
    pub fn parse_body(
        args: &Vec<MethodArgument>,
        class_context: &ClassContext,
        tokens: &Vec<Token>,
        pos: &mut usize,
    ) -> (r: Result<Vec<String>, ParseError>)
        requires
            *old(pos) <= tokens@.len(),
        ensures
            lines_outcome(r, *final(pos)) == spec_body(
                tokens@,
                *old(pos) as int,
                context_vars(*class_context),
                Seq::empty(),
                0,
                Seq::empty(),
            ),
            r is Ok ==> *old(pos) < *final(pos) <= tokens@.len(),
            r matches Err(e) ==> reports_token(tokens@, e),
    {
        let ghost s = tokens@;
        let ghost fields = context_vars(*class_context);
        let p0 = *pos;
        let mut current_vars: Vec<NodeVariable> = Vec::new();
        let mut depth: usize = 0;
        let mut final_code: Vec<String> = Vec::new();
        assert(lines_view(final_code@) =~= Seq::<Seq<char>>::empty());
        assert(vars_view(current_vars@) =~= Seq::<VarView>::empty());
        while *pos < tokens.len()
            invariant
                s == tokens@,
                fields == context_vars(*class_context),
                p0 == *old(pos),
                p0 <= *pos <= s.len(),
                depth <= *pos,
                spec_body(s, p0 as int, fields, Seq::empty(), 0, Seq::empty()) == spec_body(
                    s,
                    *pos as int,
                    fields,
                    vars_view(current_vars@),
                    depth as nat,
                    lines_view(final_code@),
                ),
            decreases s.len() - *pos,
        {
            let q = *pos;
            let mut trial: usize = q;
            proof {
                lemma_declaration_advances(s, q as int, fields, vars_view(current_vars@));
            }
            match NodeVariable::parse(tokens, &mut trial, class_context, current_vars.as_slice()) {
                Ok(var) => {
                    let code = var.to_code();
                    assert(lines_view(final_code@.push(code)) =~= lines_view(final_code@).push(code@));
                    final_code.push(code);
                    assert(vars_view(current_vars@.push(var)) =~= vars_view(current_vars@).push(var@));
                    current_vars.push(var);
                    *pos = trial;
                    continue ;
                },
                Err(e) => {
                    if starts_declaration(tokens, q) {
                        return Err(e);
                    }
                },
            }
            match tokens[q].token_type {
                TokenType::OPEN_BRACKET => {
                    depth = depth + 1;
                    *pos = q + 1;
                },
                TokenType::CLOSE_BRACKET => {
                    *pos = q + 1;
                    if depth == 0 {
                        return Ok(final_code);
                    }
                    depth = depth - 1;
                },
                TokenType::UNKNOWN => {
                    let mut lines = match Self::parse_statement(tokens, pos, class_context, &current_vars) {
                        Ok(l) => l,
                        Err(e) => return Err(e),
                    };
                    assert(lines_view(final_code@ + lines@) =~= lines_view(final_code@) + lines_view(lines@));
                    final_code.append(&mut lines);
                },
                _ => {
                    *pos = q + 1;
                },
            }
        }
        Err(error_at_end("method body without closing bracket"))
    }
}

// ---------------------------------------------------------------------------
// Laws
// ---------------------------------------------------------------------------

/// Within one method body, a declaration of a name that the body has
/// already declared is a duplicate-declaration error at the second name.
pub proof fn lemma_redeclaration_in_body_rejected(
    s: Seq<Token>,
    p: int,
    fields: Seq<VarView>,
    locals: Seq<VarView>,
    depth: nat,
    code: Seq<Seq<char>>,
)
    requires
        decl_started(s, p),
        find_var(locals, token_text(s[p + 1])) is Some,
    ensures
        spec_body(s, p, fields, locals, depth, code) == Err::<(Seq<Seq<char>>, int), Fail>(
            fail(ParseErrorKind::DuplicateDeclaration, p + 1),
        ),
{
    lemma_duplicate_iff_in_scope(s, p, fields, locals);
}

/// Two declarations of one name in a row in a method body, `T a; T a...`,
/// give a duplicate-declaration error at the second `a`.
pub proof fn lemma_declared_twice_rejected(
    s: Seq<Token>,
    p: int,
    fields: Seq<VarView>,
    locals: Seq<VarView>,
    depth: nat,
    code: Seq<Seq<char>>,
)
    requires
        decl_started(s, p),
        s[p + 2].token_type == TokenType::SEMICOLON,
        find_var(locals, token_text(s[p + 1])) is None,
        decl_started(s, p + 3),
        token_text(s[p + 4]) == token_text(s[p + 1]),
    ensures
        spec_body(s, p, fields, locals, depth, code) == Err::<(Seq<Seq<char>>, int), Fail>(
            fail(ParseErrorKind::DuplicateDeclaration, p + 4),
        ),
{
    let name = token_text(s[p + 1]);
    let v = VarView { name, ty: decl_type(s[p])->0, value: None };
    assert(spec_declaration(s, p, fields, locals) == Ok::<(VarView, int), Fail>((v, p + 3)));
    lemma_find_var_push(locals, v, name);
    lemma_redeclaration_in_body_rejected(s, p + 3, fields, locals.push(v), depth, code.push(var_code(v)));
}

/// A method body starts with no locals, whatever the class fields are: a
/// name declared as a class field can be declared again in a method, and
/// the first declaration in a body is never a duplicate.
pub proof fn lemma_field_name_reusable_in_method(s: Seq<Token>, p: int, fields: Seq<VarView>)
    requires
        0 <= p < s.len(),
        s[p].token_type == TokenType::OPEN_BRACKET,
    ensures
        spec_method_body(s, p, fields) == spec_body(s, p + 1, fields, Seq::empty(), 0, Seq::empty()),
        !(spec_declaration(s, p + 1, fields, Seq::empty()) matches Err(f) && f.kind
            == ParseErrorKind::DuplicateDeclaration),
{
    lemma_duplicate_iff_in_scope(s, p + 1, fields, Seq::empty());
}

/// A local variable without a value, passed as a call argument, is a
/// use-before-initialization error at that argument.
pub proof fn lemma_uninitialized_argument_rejected(
    s: Seq<Token>,
    p: int,
    fields: Seq<VarView>,
    locals: Seq<VarView>,
    acc: Seq<ArgView>,
)
    requires
        0 <= p < s.len(),
        s[p].token_type == TokenType::UNKNOWN,
        find_var(locals, token_text(s[p])) matches Some(v) && v.value is None,
    ensures
        spec_call_args(s, p, fields, locals, acc) == Err::<(Seq<ArgView>, int), Fail>(
            fail(ParseErrorKind::UninitializedVariable, p),
        ),
{
}

/// A local variable that has a value is passed as a call argument by name.
pub proof fn lemma_initialized_argument_accepted(
    s: Seq<Token>,
    p: int,
    fields: Seq<VarView>,
    locals: Seq<VarView>,
    acc: Seq<ArgView>,
)
    requires
        0 <= p < s.len(),
        s[p].token_type == TokenType::UNKNOWN,
        find_var(locals, token_text(s[p])) matches Some(v) && v.value is Some,
    ensures
        spec_call_args(s, p, fields, locals, acc) == spec_call_args(
            s,
            p + 1,
            fields,
            locals,
            acc.push(ArgView::Variable(find_var(locals, token_text(s[p]))->0.ty, token_text(s[p]))),
        ),
{
    lemma_find_var_name(locals, token_text(s[p]));
}

/// A declaration without an initializer leaves the variable without a
/// value; one with an initializer gives it one.
pub proof fn lemma_declaration_value(s: Seq<Token>, p: int, fields: Seq<VarView>, scope: Seq<VarView>)
    requires
        spec_declaration(s, p, fields, scope) is Ok,
    ensures
        (spec_declaration(s, p, fields, scope)->Ok_0.0.value is None) <==> s[p + 2].token_type
            == TokenType::SEMICOLON,
{
}

} // verus!
