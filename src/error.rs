//! Parse errors: what went wrong, and at which token.
use vstd::prelude::*;
use crate::token::{describe_spec, Token};

verus! {

#[derive(Debug, PartialEq, Eq, Structural, Clone, Copy)]
pub enum ParseErrorKind {
    /// A token of another kind was expected here.
    UnexpectedToken,
    /// The input ended where more was expected.
    UnexpectedEnd,
    /// A name declared twice in one scope.
    DuplicateDeclaration,
    /// A variable read before it was given a value.
    UninitializedVariable,
    /// A name that is no modelled library type.
    UnknownType,
    /// A member that the library type does not have.
    UnknownField,
    /// A method, or a method with these arguments, that the library type does not offer.
    UnsupportedMethod,
    /// A name that no visible variable has.
    UnknownVariable,
    /// An integer expression with two names in a row.
    MalformedExpression,
    /// A string literal without its closing quote.
    UnterminatedString,
}

#[derive(Debug)]
pub struct ParseError {
    pub kind: ParseErrorKind,
    /// The index of the offending token, or `None` at the end of the input.
    pub at: Option<usize>,
    /// The offending token as `KIND:value in file:line:col`, and the reason.
    pub message: String,
}

/// The mathematical value of a parse error.
pub struct Fail {
    pub kind: ParseErrorKind,
    pub at: Option<int>,
}

impl View for ParseError {
    type V = Fail;

    open spec fn view(&self) -> Fail {
        Fail {
            kind: self.kind,
            at: match self.at {
                Some(i) => Some(i as int),
                None => None,
            },
        }
    }
}

pub open spec fn fail(kind: ParseErrorKind, at: int) -> Fail {
    Fail { kind, at: Some(at) }
}

pub open spec fn fail_end() -> Fail {
    Fail { kind: ParseErrorKind::UnexpectedEnd, at: None }
}

/// An error at a token has a message that starts with that token as
/// `KIND:value in file:line:col`, followed by `, ` and the reason.
pub open spec fn reports_token(s: Seq<Token>, e: ParseError) -> bool {
    match e.at {
        Some(i) => {
            let head = describe_spec(s[i as int]@) + ", "@;
            &&& i < s.len()
            &&& head.len() <= e.message@.len()
            &&& e.message@.subrange(0, head.len() as int) == head
        },
        None => true,
    }
}

/// An error at token `at`, whose message describes that token.
pub fn error_at(tokens: &Vec<Token>, at: usize, kind: ParseErrorKind, reason: &str) -> (e: ParseError)
    requires
        at < tokens@.len(),
    ensures
        e@ == fail(kind, at as int),
        e.message@ == describe_spec(tokens@[at as int]@) + ", "@ + reason@,
        reports_token(tokens@, e),
{
    let mut message = tokens[at].describe();
    message.append(", ");
    let ghost head = message@;
    message.append(reason);
    assert(message@.subrange(0, head.len() as int) =~= head);
    ParseError { kind, at: Some(at), message }
}

/// The error for input that ends too early.
pub fn error_at_end(reason: &str) -> (e: ParseError)
    ensures
        e@ == fail_end(),
        e.message@ == "Unexpected end of input: "@ + reason@,
        e.at is None,
{
    let mut message = String::from_str("Unexpected end of input: ");
    message.append(reason);
    ParseError { kind: ParseErrorKind::UnexpectedEnd, at: None, message }
}

} // verus!
