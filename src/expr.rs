//! Integer expressions: operators, parentheses, literals and variables,
//! rendered as target-language text.
use vstd::prelude::*;
use crate::error::{reports_token, error_at, error_at_end, fail, fail_end, Fail, ParseError, ParseErrorKind};
use crate::parser::{context_vars, ClassContext};
use crate::token::{token_text, Token, TokenType};
use crate::variable::{get_variable_in_method, outcome, resolve, vars_view, NodeVariable, VarView};

verus! {

/// An integer expression: its text, and whether a `;` ended it.
#[derive(Debug)]
pub struct IntExpression {
    pub final_code: String,
    pub end_with_semi: bool,
}

impl View for IntExpression {
    type V = (Seq<char>, bool);

    open spec fn view(&self) -> (Seq<char>, bool) {
        (self.final_code@, self.end_with_semi)
    }
}

/// The text an operator or parenthesis token stands for, if it is one.
pub open spec fn operator_text(k: TokenType) -> Option<Seq<char>> {
    match k {
        TokenType::ADD => Some(" + "@),
        TokenType::REMOVE => Some(" - "@),
        TokenType::SUB => Some(" / "@),
        TokenType::MUL => Some(" * "@),
        TokenType::OPEN_BRACE => Some("("@),
        TokenType::CLOSE_BRACE => Some(")"@),
        _ => None,
    }
}

/// The rest of an integer expression from `p`, with `code` read so far and
/// `after_name` telling whether the previous token was a name. The first
/// token that cannot extend the expression ends it and is left in place; a
/// class field renders as `Self::name`, a local as its bare name.
pub open spec fn spec_int_expr(
    s: Seq<Token>,
    p: int,
    fields: Seq<VarView>,
    locals: Seq<VarView>,
    code: Seq<char>,
    after_name: bool,
) -> Result<((Seq<char>, bool), int), Fail>
    decreases s.len() - p,
{
    if p < 0 || p >= s.len() {
        Err(fail_end())
    } else {
        let t = s[p];
        match operator_text(t.token_type) {
            Some(op) => spec_int_expr(s, p + 1, fields, locals, code + op, false),
            None => match t.token_type {
                TokenType::INTLIT => spec_int_expr(s, p + 1, fields, locals, code + token_text(t), false),
                TokenType::UNKNOWN => if after_name {
                    Err(fail(ParseErrorKind::MalformedExpression, p))
                } else {
                    match resolve(fields, locals, token_text(t)) {
                        Some((v, true)) => spec_int_expr(s, p + 1, fields, locals, code + "Self::"@ + v.name, true),
                        Some((v, false)) => spec_int_expr(s, p + 1, fields, locals, code + v.name, true),
                        None => Err(fail(ParseErrorKind::UnknownVariable, p)),
                    }
                },
                _ => if code.len() == 0 {
                    Err(fail(ParseErrorKind::UnexpectedToken, p))
                } else {
                    Ok(((code, t.token_type == TokenType::SEMICOLON), p))
                },
            },
        }
    }
}

fn operator_str(k: TokenType) -> (r: Option<&'static str>)
    ensures
        match operator_text(k) {
            Some(op) => r is Some && r->0@ == op,
            None => r is None,
        },
{
    match k {
        TokenType::ADD => Some(" + "),
        TokenType::REMOVE => Some(" - "),
        TokenType::SUB => Some(" / "),
        TokenType::MUL => Some(" * "),
        TokenType::OPEN_BRACE => Some("("),
        TokenType::CLOSE_BRACE => Some(")"),
        _ => None,
    }
}

impl IntExpression {
    /// Parses an integer expression at `*pos`. On success `*pos` is at the
    /// token that ended it.
    pub fn parse(
        tokens: &Vec<Token>,
        pos: &mut usize,
        class_context: &ClassContext,
        method_vars: &[NodeVariable],
    ) -> (r: Result<IntExpression, ParseError>)
        requires
            *old(pos) <= tokens@.len(),
        ensures
            outcome(r, *final(pos)) == spec_int_expr(
                tokens@,
                *old(pos) as int,
                context_vars(*class_context),
                vars_view(method_vars@),
                Seq::empty(),
                false,
            ),
            *final(pos) <= tokens@.len(),
            r matches Err(e) ==> reports_token(tokens@, e),
    {
        let ghost s = tokens@;
        let ghost fields = context_vars(*class_context);
        let ghost locals = vars_view(method_vars@);
        let p0 = *pos;
        let mut final_code = String::new();
        let mut after_name = false;
        while *pos < tokens.len()
            invariant
                s == tokens@,
                fields == context_vars(*class_context),
                locals == vars_view(method_vars@),
                p0 == *old(pos),
                p0 <= *pos <= s.len(),
                spec_int_expr(s, p0 as int, fields, locals, Seq::empty(), false) == spec_int_expr(
                    s,
                    *pos as int,
                    fields,
                    locals,
                    final_code@,
                    after_name,
                ),
            decreases s.len() - *pos,
        {
            let q = *pos;
            let kind = tokens[q].token_type;
            match operator_str(kind) {
                Some(op) => {
                    final_code.append(op);
                    after_name = false;
                    *pos = q + 1;
                },
                None => match kind {
                    TokenType::INTLIT => {
                        let text = tokens[q].text();
                        final_code.append(text.as_str());
                        after_name = false;
                        *pos = q + 1;
                    },
                    TokenType::UNKNOWN => {
                        if after_name {
                            return Err(error_at(tokens, q, ParseErrorKind::MalformedExpression, "Invalid Int expression: string after string"));
                        }
                        let name = tokens[q].text();
                        match get_variable_in_method(name, class_context, method_vars) {
                            Some((var, in_class)) => {
                                if in_class {
                                    final_code.append("Self::");
                                }
                                final_code.append(var.name.as_str());
                            },
                            None => {
                                return Err(error_at(tokens, q, ParseErrorKind::UnknownVariable, "Invalid Int expression: unknown variable"));
                            },
                        }
                        after_name = true;
                        *pos = q + 1;
                    },
                    _ => {
                        if final_code.as_str().unicode_len() == 0 {
                            return Err(error_at(tokens, q, ParseErrorKind::UnexpectedToken, "Invalid Int expression: unexpected token"));
                        }
                        return Ok(IntExpression { final_code, end_with_semi: kind == TokenType::SEMICOLON });
                    },
                },
            }
        }
        Err(error_at_end("integer expression without end"))
    }
}

} // verus!
