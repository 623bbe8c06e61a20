//! Shared AST pieces: call-site arguments, declared argument and return
//! types, and class declarations.
use vstd::prelude::*;
use crate::error::{reports_token, error_at, error_at_end, fail, fail_end, Fail, ParseError, ParseErrorKind};
use crate::stdlib::Class;
use crate::token::{token_text, DataType, Token, TokenType};
use crate::variable::{outcome, VariableType};

verus! {

/// An argument at a call site, as in `System.out.println(...)`.
#[derive(Debug)]
pub enum FunctionArgument {
    /// A string literal: its text.
    STRING(String),
    /// A literal of a data type: the type and the literal text.
    DATATYPE((DataType, String)),
    /// A variable: its type and its name.
    VARIABLE((VariableType, String)),
    /// A library type.
    CLASS(Class),
}

pub enum ArgView {
    Str(Seq<char>),
    Literal(DataType, Seq<char>),
    Variable(VariableType, Seq<char>),
    Class(Class),
}

impl View for FunctionArgument {
    type V = ArgView;

    open spec fn view(&self) -> ArgView {
        match self {
            FunctionArgument::STRING(s) => ArgView::Str(s@),
            FunctionArgument::DATATYPE((d, s)) => ArgView::Literal(*d, s@),
            FunctionArgument::VARIABLE((t, s)) => ArgView::Variable(*t, s@),
            FunctionArgument::CLASS(c) => ArgView::Class(*c),
        }
    }
}

pub open spec fn args_view(s: Seq<FunctionArgument>) -> Seq<ArgView> {
    s.map_values(|a: FunctionArgument| a@)
}

/// The declared type of a method parameter, as in `void myMethod(int x)`.
#[derive(Debug, PartialEq, Eq, Structural, Clone, Copy)]
pub enum MethodArgumentType {
    STRING,
    DATATYPE(DataType),
    CLASS(Class),
}

#[derive(Debug, PartialEq, Eq, Structural, Default, Clone, Copy)]
pub enum MethodReturnType {
    #[default]
    VOID,
    DATATYPE(DataType),
    CLASS(Class),
}

/// A class declaration; its body is kept in the `ClassContext`.
#[derive(Debug)]
pub struct NodeClass {
    pub name: String,
}

/// The name after `class`.
pub open spec fn spec_class_name(s: Seq<Token>, p: int) -> Result<(Seq<char>, int), Fail> {
    if p < 0 || p >= s.len() {
        Err(fail_end())
    } else if s[p].token_type == TokenType::UNKNOWN {
        Ok((token_text(s[p]), p + 1))
    } else {
        Err(fail(ParseErrorKind::UnexpectedToken, p))
    }
}

impl View for NodeClass {
    type V = Seq<char>;

    open spec fn view(&self) -> Seq<char> {
        self.name@
    }
}

impl NodeClass {
    /// Parses the class name at `*pos`.
    pub fn parse(tokens: &Vec<Token>, pos: &mut usize) -> (r: Result<NodeClass, ParseError>)
        requires
            *old(pos) <= tokens@.len(),
        ensures
            outcome(r, *final(pos)) == spec_class_name(tokens@, *old(pos) as int),
            *final(pos) <= tokens@.len(),
            r matches Err(e) ==> reports_token(tokens@, e),
    {
        let p = *pos;
        if p >= tokens.len() {
            return Err(error_at_end("expected a class name"));
        }
        if tokens[p].token_type == TokenType::UNKNOWN {
            *pos = p + 1;
            Ok(NodeClass { name: tokens[p].text() })
        } else {
            Err(error_at(tokens, p, ParseErrorKind::UnexpectedToken, "Invalid expression: expected class name"))
        }
    }
}

} // verus!
