//! The top-level driver: a token stream to classes and methods, with the
//! fields of the class gathered in a `ClassContext`.
use vstd::prelude::*;
use crate::error::{reports_token, error_at, fail, fail_end, Fail, ParseError, ParseErrorKind};
use crate::method::{spec_method, MethodView, NodeMethod};
use crate::nodes::{spec_class_name, MethodReturnType, NodeClass};
use crate::token::{Token, TokenType, Visibility};
use crate::variable::{
    decl_started, lemma_declaration_advances, spec_declaration, starts_declaration, vars_view,
    NodeVariable, VarView,
};

verus! {

/// A top-level node of a file.
pub enum Node {
    Class(NodeClass),
    Method(NodeMethod),
}

pub enum NodeView {
    Class(Seq<char>),
    Method(MethodView),
}

impl View for Node {
    type V = NodeView;

    open spec fn view(&self) -> NodeView {
        match self {
            Node::Class(c) => NodeView::Class(c@),
            Node::Method(m) => NodeView::Method(m@),
        }
    }
}

pub open spec fn nodes_view(s: Seq<Node>) -> Seq<NodeView> {
    s.map_values(|n: Node| n@)
}

/// A field declared in the class body, with the modifiers in front of it.
pub struct ClassVariable {
    pub visibility: Visibility,
    pub is_static: bool,
    pub variable: NodeVariable,
}

/// The fields declared so far in the file being parsed, in order.
pub struct ClassContext {
    pub variables: Vec<ClassVariable>,
}

/// The variables of the class fields, in order of declaration.
pub open spec fn context_vars(ctx: ClassContext) -> Seq<VarView> {
    ctx.variables@.map_values(|cv: ClassVariable| cv.variable@)
}

impl ClassContext {
    /// A context with no fields.
    pub fn new() -> (r: ClassContext)
        ensures
            context_vars(r) == Seq::<VarView>::empty(),
    {
        let r = ClassContext { variables: Vec::new() };
        assert(context_vars(r) =~= Seq::<VarView>::empty());
        r
    }
}

/// The rest of a file from `p`, with the class fields `fields` declared,
/// the modifiers `visibility` and `is_static` pending, and `nodes` parsed so
/// far. A field declaration is tried first; once it has the shape of one,
/// its errors stand. `class` is followed by the class name; a data type or
/// `void` starts a method; modifiers wait for the next declaration, which
/// consumes them; `return` and integer literals have no place here; other
/// tokens (braces, semicolons) are passed over.
pub open spec fn spec_file(
    s: Seq<Token>,
    p: int,
    fields: Seq<VarView>,
    visibility: Visibility,
    is_static: bool,
    nodes: Seq<NodeView>,
) -> Result<Seq<NodeView>, Fail>
    decreases s.len() - p,
{
    if p < 0 || p >= s.len() {
        Ok(nodes)
    } else {
        match spec_declaration(s, p, fields, fields) {
            Ok((v, q)) => if p < q <= s.len() {
                spec_file(s, q, fields.push(v), Visibility::NONE, false, nodes)
            } else {
                Err(fail_end())
            },
            Err(f) => if decl_started(s, p) {
                Err(f)
            } else {
                let method_return = match s[p].token_type {
                    TokenType::DATATYPE(d) => Some(MethodReturnType::DATATYPE(d)),
                    TokenType::VOID => Some(MethodReturnType::VOID),
                    _ => None,
                };
                match method_return {
                    Some(ret) => match spec_method(s, p + 1, fields, visibility, is_static, ret) {
                        Ok((m, q)) => if p < q <= s.len() {
                            spec_file(s, q, fields, Visibility::NONE, false, nodes.push(NodeView::Method(m)))
                        } else {
                            Err(fail_end())
                        },
                        Err(f) => Err(f),
                    },
                    None => match s[p].token_type {
                        TokenType::CLASS => match spec_class_name(s, p + 1) {
                            Ok((name, q)) => if p < q <= s.len() {
                                spec_file(s, q, fields, Visibility::NONE, false, nodes.push(NodeView::Class(name)))
                            } else {
                                Err(fail_end())
                            },
                            Err(f) => Err(f),
                        },
                        TokenType::VISIBILITY(v) => spec_file(s, p + 1, fields, v, is_static, nodes),
                        TokenType::STATIC => spec_file(s, p + 1, fields, visibility, true, nodes),
                        TokenType::RETURN => Err(fail(ParseErrorKind::UnexpectedToken, p)),
                        TokenType::INTLIT => Err(fail(ParseErrorKind::UnexpectedToken, p)),
                        _ => spec_file(s, p + 1, fields, visibility, is_static, nodes),
                    },
                }
            },
        }
    }
}

/// The nodes of a whole token sequence.
pub open spec fn spec_parse(s: Seq<Token>) -> Result<Seq<NodeView>, Fail> {
    spec_file(s, 0, Seq::empty(), Visibility::NONE, false, Seq::empty())
}

pub open spec fn nodes_outcome(r: Result<Vec<Node>, ParseError>) -> Result<Seq<NodeView>, Fail> {
    match r {
        Ok(v) => Ok(nodes_view(v@)),
        Err(e) => Err(e@),
    }
}

/// Parses the tokens of one file, left to right, into its classes and
/// methods, in order.
pub fn parse_tokens(tokens: &Vec<Token>) -> (r: Result<Vec<Node>, ParseError>)
    ensures
        nodes_outcome(r) == spec_parse(tokens@),
        r matches Err(e) ==> reports_token(tokens@, e),
{
    let ghost s = tokens@;
    let mut pos: usize = 0;
    let mut nodes: Vec<Node> = Vec::new();
    let mut class_context = ClassContext::new();
    let mut fields: Vec<NodeVariable> = Vec::new();
    let mut is_static = false;
    let mut current_visibility = Visibility::NONE;
    assert(nodes_view(nodes@) =~= Seq::<NodeView>::empty());
    assert(vars_view(fields@) =~= Seq::<VarView>::empty());
    while pos < tokens.len()
        invariant
            s == tokens@,
            pos <= s.len(),
            context_vars(class_context) == vars_view(fields@),
            spec_parse(s) == spec_file(
                s,
                pos as int,
                vars_view(fields@),
                current_visibility,
                is_static,
                nodes_view(nodes@),
            ),
        decreases s.len() - pos,
    {
        let q = pos;
        let mut trial: usize = q;
        proof {
            lemma_declaration_advances(s, q as int, vars_view(fields@), vars_view(fields@));
        }
        match NodeVariable::parse(tokens, &mut trial, &class_context, fields.as_slice()) {
            Ok(variable) => {
                let copy = variable.copy();
                let ghost before = context_vars(class_context);
                class_context.variables.push(
                    ClassVariable { visibility: current_visibility, is_static, variable },
                );
                assert(context_vars(class_context) =~= before.push(copy@));
                assert(vars_view(fields@.push(copy)) =~= vars_view(fields@).push(copy@));
                fields.push(copy);
                current_visibility = Visibility::NONE;
                is_static = false;
                pos = trial;
                continue ;
            },
            Err(e) => {
                if starts_declaration(tokens, q) {
                    return Err(e);
                }
            },
        }
        let method_return = match tokens[q].token_type {
            TokenType::DATATYPE(d) => Some(MethodReturnType::DATATYPE(d)),
            TokenType::VOID => Some(MethodReturnType::VOID),
            _ => None,
        };
        match method_return {
            Some(ret) => {
                pos = q + 1;
                match NodeMethod::parse(tokens, &mut pos, &class_context, current_visibility, is_static, ret) {
                    Ok(method) => {
                        assert(nodes_view(nodes@.push(Node::Method(method))) =~= nodes_view(nodes@).push(NodeView::Method(method@)));
                        nodes.push(Node::Method(method));
                        current_visibility = Visibility::NONE;
                        is_static = false;
                    },
                    Err(e) => return Err(e),
                }
            },
            None => match tokens[q].token_type {
                TokenType::CLASS => {
                    pos = q + 1;
                    match NodeClass::parse(tokens, &mut pos) {
                        Ok(class) => {
                            assert(nodes_view(nodes@.push(Node::Class(class))) =~= nodes_view(nodes@).push(NodeView::Class(class@)));
                            nodes.push(Node::Class(class));
                            current_visibility = Visibility::NONE;
                            is_static = false;
                        },
                        Err(e) => return Err(e),
                    }
                },
                TokenType::VISIBILITY(v) => {
                    current_visibility = v;
                    pos = q + 1;
                },
                TokenType::STATIC => {
                    is_static = true;
                    pos = q + 1;
                },
                TokenType::RETURN => {
                    return Err(error_at(tokens, q, ParseErrorKind::UnexpectedToken, "return outside a method"));
                },
                TokenType::INTLIT => {
                    return Err(error_at(tokens, q, ParseErrorKind::UnexpectedToken, "integer literal outside a method"));
                },
                _ => {
                    pos = q + 1;
                },
            },
        }
    }
    Ok(nodes)
}

} // verus!
