//! Variables: their types and values, the declaration grammar, and lookup
//! in the class-field and method-local scopes.
use vstd::prelude::*;
use crate::error::{reports_token, error_at, error_at_end, fail, fail_end, Fail, ParseError, ParseErrorKind};
use crate::parser::{context_vars, ClassContext};
use crate::token::{token_text, DataType, Token, TokenType};

verus! {

#[derive(Debug, PartialEq, Eq, Structural, Clone, Copy)]
pub enum VariableType {
    DataType(DataType),
    /// A class type, kept opaque.
    Class,
}

#[derive(Debug)]
pub enum VariableValue {
    /// A literal written in place, as in `int i = 10;`.
    Direct(String),
    /// The value of another variable, by its name, as in `int i = o;`.
    ByVar(String),
    /// A value that only a call yields; it has no literal rendering.
    Indirect,
}

pub enum ValueView {
    Direct(Seq<char>),
    ByVar(Seq<char>),
    Indirect,
}

impl View for VariableValue {
    type V = ValueView;

    open spec fn view(&self) -> ValueView {
        match self {
            VariableValue::Direct(s) => ValueView::Direct(s@),
            VariableValue::ByVar(s) => ValueView::ByVar(s@),
            VariableValue::Indirect => ValueView::Indirect,
        }
    }
}

/// The text a value renders as: the literal, or the name of the variable it
/// comes from.
pub open spec fn value_text(v: ValueView) -> Seq<char> {
    match v {
        ValueView::Direct(s) => s,
        ValueView::ByVar(s) => s,
        ValueView::Indirect => Seq::empty(),
    }
}

impl VariableValue {
    pub fn get_value(self) -> (r: String)
        requires
            !(self@ is Indirect),
        ensures
            r@ == value_text(self@),
    {
        match self {
            VariableValue::Direct(string) => string,
            VariableValue::ByVar(string) => string,
            VariableValue::Indirect => String::new(),
        }
    }

    pub fn copy(&self) -> (r: VariableValue)
        ensures
            r@ == self@,
    {
        match self {
            VariableValue::Direct(s) => VariableValue::Direct(s.clone()),
            VariableValue::ByVar(s) => VariableValue::ByVar(s.clone()),
            VariableValue::Indirect => VariableValue::Indirect,
        }
    }
}

/// A declared variable. `value` is `None` until it is initialized.
#[derive(Debug)]
pub struct NodeVariable {
    pub name: String,
    pub var_type: VariableType,
    pub value: Option<VariableValue>,
}

pub struct VarView {
    pub name: Seq<char>,
    pub ty: VariableType,
    pub value: Option<ValueView>,
}

impl View for NodeVariable {
    type V = VarView;

    open spec fn view(&self) -> VarView {
        VarView {
            name: self.name@,
            ty: self.var_type,
            value: match self.value {
                Some(v) => Some(v@),
                None => None,
            },
        }
    }
}

pub open spec fn vars_view(s: Seq<NodeVariable>) -> Seq<VarView> {
    s.map_values(|v: NodeVariable| v@)
}

/// The target-language declaration of a variable.
pub open spec fn var_code(v: VarView) -> Seq<char> {
    match v.value {
        Some(x) => "let "@ + v.name + " = "@ + value_text(x) + ";"@,
        None => "let "@ + v.name + ";"@,
    }
}

/// The first variable of `scope` named `name`.
pub open spec fn find_var(scope: Seq<VarView>, name: Seq<char>) -> Option<VarView>
    decreases scope.len(),
{
    if scope.len() == 0 {
        None
    } else if scope[0].name == name {
        Some(scope[0])
    } else {
        find_var(scope.drop_first(), name)
    }
}

/// The variable found for a name has that name.
pub proof fn lemma_find_var_name(scope: Seq<VarView>, name: Seq<char>)
    ensures
        find_var(scope, name) matches Some(v) ==> v.name == name,
    decreases scope.len(),
{
    if scope.len() > 0 {
        lemma_find_var_name(scope.drop_first(), name);
    }
}

/// Looking a name up after one more declaration: earlier declarations come
/// first, then the new one.
pub proof fn lemma_find_var_push(scope: Seq<VarView>, v: VarView, name: Seq<char>)
    ensures
        find_var(scope.push(v), name) == match find_var(scope, name) {
            Some(x) => Some(x),
            None => if v.name == name {
                Some(v)
            } else {
                None
            },
        },
    decreases scope.len(),
{
    if scope.len() > 0 {
        assert(scope.push(v)[0] == scope[0]);
        assert(scope.push(v).drop_first() =~= scope.drop_first().push(v));
        lemma_find_var_push(scope.drop_first(), v, name);
    } else {
        assert(scope.push(v)[0] == v);
        assert(scope.push(v).drop_first() =~= Seq::<VarView>::empty());
        assert(find_var(Seq::<VarView>::empty(), name) is None);
    }
}

/// A name inside an expression: class fields are searched first, then the
/// method locals; the flag tells whether the match is a class field.
pub open spec fn resolve(fields: Seq<VarView>, locals: Seq<VarView>, name: Seq<char>) -> Option<
    (VarView, bool),
> {
    match find_var(fields, name) {
        Some(v) => Some((v, true)),
        None => match find_var(locals, name) {
            Some(v) => Some((v, false)),
            None => None,
        },
    }
}

/// The type that a token starts a declaration with.
pub open spec fn decl_type(t: Token) -> Option<VariableType> {
    match t.token_type {
        TokenType::DATATYPE(d) => Some(VariableType::DataType(d)),
        TokenType::UNKNOWN => Some(VariableType::Class),
        _ => None,
    }
}

/// The tokens at `p` have the shape of a declaration: a type, a name, and
/// then `;` or `=`. From there on a failure is an error in a declaration
/// rather than a sign that something else is written.
pub open spec fn decl_started(s: Seq<Token>, p: int) -> bool {
    &&& 0 <= p
    &&& p + 2 < s.len()
    &&& decl_type(s[p]) is Some
    &&& s[p + 1].token_type == TokenType::UNKNOWN
    &&& (s[p + 2].token_type == TokenType::SEMICOLON || s[p + 2].token_type == TokenType::EQUAL)
}

/// The value after `=`: a literal, or the name of a visible variable.
pub open spec fn spec_value(
    s: Seq<Token>,
    p: int,
    fields: Seq<VarView>,
    scope: Seq<VarView>,
) -> Result<(ValueView, int), Fail> {
    if p < 0 || p >= s.len() {
        Err(fail_end())
    } else {
        let t = s[p];
        let v = match t.token_type {
            TokenType::INTLIT => Ok(ValueView::Direct(token_text(t))),
            TokenType::TRUE => Ok(ValueView::Direct("true"@)),
            TokenType::FALSE => Ok(ValueView::Direct("false"@)),
            TokenType::UNKNOWN => if resolve(fields, scope, token_text(t)) is Some {
                Ok(ValueView::ByVar(token_text(t)))
            } else {
                Err(fail(ParseErrorKind::UnknownVariable, p))
            },
            _ => Err(fail(ParseErrorKind::UnexpectedToken, p)),
        };
        match v {
            Err(f) => Err(f),
            Ok(v) => if p + 1 >= s.len() {
                Err(fail_end())
            } else if s[p + 1].token_type != TokenType::SEMICOLON {
                Err(fail(ParseErrorKind::UnexpectedToken, p + 1))
            } else {
                Ok((v, p + 2))
            },
        }
    }
}

/// A declaration after its type: the name, then `;` or `=` and a value.
/// The name must be new in `scope`.
pub open spec fn spec_declaration_rest(
    s: Seq<Token>,
    p: int,
    ty: VariableType,
    fields: Seq<VarView>,
    scope: Seq<VarView>,
) -> Result<(VarView, int), Fail> {
    if p < 0 || p >= s.len() {
        Err(fail_end())
    } else if s[p].token_type != TokenType::UNKNOWN {
        Err(fail(ParseErrorKind::UnexpectedToken, p))
    } else if p + 1 >= s.len() {
        Err(fail_end())
    } else {
        let name = token_text(s[p]);
        let k = s[p + 1].token_type;
        if k != TokenType::SEMICOLON && k != TokenType::EQUAL {
            Err(fail(ParseErrorKind::UnexpectedToken, p + 1))
        } else if find_var(scope, name) is Some {
            Err(fail(ParseErrorKind::DuplicateDeclaration, p))
        } else if k == TokenType::SEMICOLON {
            Ok((VarView { name, ty, value: None }, p + 2))
        } else {
            match spec_value(s, p + 2, fields, scope) {
                Ok((v, q)) => Ok((VarView { name, ty, value: Some(v) }, q)),
                Err(f) => Err(f),
            }
        }
    }
}

/// A variable declaration at `p`: `TYPE name;` or `TYPE name = value;`.
/// `fields` are the class fields, `scope` the variables of the scope the
/// declaration is in.
pub open spec fn spec_declaration(
    s: Seq<Token>,
    p: int,
    fields: Seq<VarView>,
    scope: Seq<VarView>,
) -> Result<(VarView, int), Fail> {
    if p < 0 || p >= s.len() {
        Err(fail_end())
    } else {
        match decl_type(s[p]) {
            Some(ty) => spec_declaration_rest(s, p + 1, ty, fields, scope),
            None => Err(fail(ParseErrorKind::UnexpectedToken, p)),
        }
    }
}

/// A parse result at a position, as the spec functions state it.
pub open spec fn outcome<T: View>(r: Result<T, ParseError>, pos: usize) -> Result<(T::V, int), Fail> {
    match r {
        Ok(v) => Ok((v@, pos as int)),
        Err(e) => Err(e@),
    }
}

/// Looks a name up among `vars`, from the front.
pub(crate) fn position_of(vars: &[NodeVariable], name: &str) -> (r: Option<usize>)
    ensures
        match r {
            Some(i) => i < vars@.len() && find_var(vars_view(vars@), name@) == Some(vars@[i as int]@),
            None => find_var(vars_view(vars@), name@) is None,
        },
{
    let mut i: usize = 0;
    assert(vars_view(vars@).subrange(0, vars@.len() as int) =~= vars_view(vars@));
    while i < vars.len()
        invariant
            i <= vars@.len(),
            find_var(vars_view(vars@), name@) == find_var(vars_view(vars@).subrange(i as int, vars@.len() as int), name@),
        decreases vars@.len() - i,
    {
        let ghost rest = vars_view(vars@).subrange(i as int, vars@.len() as int);
        assert(rest[0] == vars@[i as int]@);
        if crate::text::same_text(vars[i].name.as_str(), name) {
            return Some(i);
        }
        assert(rest.drop_first() =~= vars_view(vars@).subrange(i + 1, vars@.len() as int));
        i = i + 1;
    }
    None
}

/// Looks a name up among the class fields, from the front.
pub(crate) fn field_position(class_context: &ClassContext, name: &str) -> (r: Option<usize>)
    ensures
        match r {
            Some(i) => i < class_context.variables@.len() && find_var(context_vars(*class_context), name@)
                == Some(class_context.variables@[i as int].variable@),
            None => find_var(context_vars(*class_context), name@) is None,
        },
{
    let ghost all = context_vars(*class_context);
    let n = class_context.variables.len();
    let mut i: usize = 0;
    assert(all.subrange(0, n as int) =~= all);
    while i < n
        invariant
            i <= n == class_context.variables@.len(),
            all == context_vars(*class_context),
            find_var(all, name@) == find_var(all.subrange(i as int, n as int), name@),
        decreases n - i,
    {
        let ghost rest = all.subrange(i as int, n as int);
        assert(rest[0] == class_context.variables@[i as int].variable@);
        if crate::text::same_text(class_context.variables[i].variable.name.as_str(), name) {
            return Some(i);
        }
        assert(rest.drop_first() =~= all.subrange(i + 1, n as int));
        i = i + 1;
    }
    None
}

/// Finds a variable by name: class fields first, then the method locals.
/// The flag tells whether it is a class field.
pub fn get_variable_in_method(
    var_name: String,
    class_context: &ClassContext,
    method_vars: &[NodeVariable],
) -> (r: Option<(NodeVariable, bool)>)
    ensures
        match resolve(context_vars(*class_context), vars_view(method_vars@), var_name@) {
            Some((v, in_class)) => r is Some && (r->0).0@ == v && (r->0).1 == in_class,
            None => r is None,
        },
{
    match field_position(class_context, var_name.as_str()) {
        Some(i) => Some((class_context.variables[i].variable.copy(), true)),
        None => match position_of(method_vars, var_name.as_str()) {
            Some(i) => Some((method_vars[i].copy(), false)),
            None => None,
        },
    }
}

/// Whether the tokens at `p` have the shape of a declaration.
pub fn starts_declaration(tokens: &Vec<Token>, p: usize) -> (r: bool)
    ensures
        r == decl_started(tokens@, p as int),
{
    if p >= tokens.len() || tokens.len() - p <= 2 {
        return false;
    }
    let typed = match tokens[p].token_type {
        TokenType::DATATYPE(_) => true,
        TokenType::UNKNOWN => true,
        _ => false,
    };
    let k = tokens[p + 2].token_type;
    typed && tokens[p + 1].token_type == TokenType::UNKNOWN && (k == TokenType::SEMICOLON || k
        == TokenType::EQUAL)
}

/// A declaration that parses consumes tokens, had the shape of one, and
/// gives its variable a renderable value or none.
pub proof fn lemma_declaration_advances(s: Seq<Token>, p: int, fields: Seq<VarView>, scope: Seq<VarView>)
    ensures
        spec_declaration(s, p, fields, scope) matches Ok((v, q)) ==> p < q <= s.len() && decl_started(s, p)
            && !(v.value matches Some(ValueView::Indirect)),
{
}

impl NodeVariable {
    pub fn copy(&self) -> (r: NodeVariable)
        ensures
            r@ == self@,
    {
        NodeVariable {
            name: self.name.clone(),
            var_type: self.var_type,
            value: match &self.value {
                Some(v) => Some(v.copy()),
                None => None,
            },
        }
    }

    /// The target-language declaration: `let name = value;` or `let name;`.
    pub fn to_code(&self) -> (r: String)
        requires
            !(self@.value matches Some(ValueView::Indirect)),
        ensures
            r@ == var_code(self@),
    {
        let mut s = String::from_str("let ");
        s.append(self.name.as_str());
        match &self.value {
            Some(val) => {
                let val = val.copy().get_value();
                s.append(" = ");
                s.append(val.as_str());
                s.append(";");
            },
            None => {
                s.append(";");
            },
        }
        s
    }

    /// Parses a variable declaration at `*pos`: `TYPE name;` or
    /// `TYPE name = value;`, where TYPE is a data type or a class name and
    /// value is a literal or a visible variable. The name must be new among
    /// `method_vars`, the scope the declaration is in.
    pub fn parse(
        tokens: &Vec<Token>,
        pos: &mut usize,
        class_context: &ClassContext,
        method_vars: &[NodeVariable],
    ) -> (r: Result<NodeVariable, ParseError>)
        requires
            *old(pos) <= tokens@.len(),
        ensures
            outcome(r, *final(pos)) == spec_declaration(
                tokens@,
                *old(pos) as int,
                context_vars(*class_context),
                vars_view(method_vars@),
            ),
            *final(pos) <= tokens@.len(),
            r matches Err(e) ==> reports_token(tokens@, e),
    {
        let p = *pos;
        if p >= tokens.len() {
            return Err(error_at_end("expected a variable"));
        }
        let ty = match tokens[p].token_type {
            TokenType::DATATYPE(d) => VariableType::DataType(d),
            TokenType::UNKNOWN => VariableType::Class,
            _ => {
                return Err(error_at(tokens, p, ParseErrorKind::UnexpectedToken, "Invalid expression: expected Variable"));
            },
        };
        *pos = p + 1;
        Self::parse_variable_declaration(tokens, pos, class_context, method_vars, ty)
    }

    fn parse_variable_declaration(
        tokens: &Vec<Token>,
        pos: &mut usize,
        class_context: &ClassContext,
        current_context_vars: &[NodeVariable],
        var_type: VariableType,
    ) -> (r: Result<NodeVariable, ParseError>)
        requires
            *old(pos) <= tokens@.len(),
        ensures
            outcome(r, *final(pos)) == spec_declaration_rest(
                tokens@,
                *old(pos) as int,
                var_type,
                context_vars(*class_context),
                vars_view(current_context_vars@),
            ),
            *final(pos) <= tokens@.len(),
            r matches Err(e) ==> reports_token(tokens@, e),
    {
        let p = *pos;
        if p >= tokens.len() {
            return Err(error_at_end("expected a variable name"));
        }
        if tokens[p].token_type != TokenType::UNKNOWN {
            return Err(error_at(tokens, p, ParseErrorKind::UnexpectedToken, "Invalid expression: expected variable name"));
        }
        if p + 1 >= tokens.len() {
            return Err(error_at_end("Variable got no semicolon or value"));
        }
        let k = tokens[p + 1].token_type;
        if k != TokenType::SEMICOLON && k != TokenType::EQUAL {
            return Err(error_at(tokens, p + 1, ParseErrorKind::UnexpectedToken, "Invalid expression: Variable got no semicolon or value"));
        }
        let name = tokens[p].text();
        if position_of(current_context_vars, name.as_str()).is_some() {
            return Err(error_at(tokens, p, ParseErrorKind::DuplicateDeclaration, "Variable with the same name is already defined"));
        }
        if k == TokenType::SEMICOLON {
            *pos = p + 2;
            return Ok(NodeVariable { name, var_type, value: None });
        }
        *pos = p + 2;
        match Self::parse_variable_value(tokens, pos, class_context, current_context_vars) {
            Ok(value) => Ok(NodeVariable { name, var_type, value: Some(value) }),
            Err(e) => Err(e),
        }
    }

    fn parse_variable_value(
        tokens: &Vec<Token>,
        pos: &mut usize,
        class_context: &ClassContext,
        current_context_vars: &[NodeVariable],
    ) -> (r: Result<VariableValue, ParseError>)
        requires
            *old(pos) <= tokens@.len(),
        ensures
            outcome(r, *final(pos)) == spec_value(
                tokens@,
                *old(pos) as int,
                context_vars(*class_context),
                vars_view(current_context_vars@),
            ),
            *final(pos) <= tokens@.len(),
            r matches Err(e) ==> reports_token(tokens@, e),
    {
        let p = *pos;
        if p >= tokens.len() {
            return Err(error_at_end("Variable got no value but equal"));
        }
        let value = match tokens[p].token_type {
            TokenType::INTLIT => VariableValue::Direct(tokens[p].text()),
            TokenType::TRUE => VariableValue::Direct(String::from_str("true")),
            TokenType::FALSE => VariableValue::Direct(String::from_str("false")),
            TokenType::UNKNOWN => {
                let source = tokens[p].text();
                if get_variable_in_method(source.clone(), class_context, current_context_vars).is_none() {
                    return Err(error_at(tokens, p, ParseErrorKind::UnknownVariable, "Invalid expression: no variable of this name"));
                }
                VariableValue::ByVar(source)
            },
            _ => {
                return Err(error_at(tokens, p, ParseErrorKind::UnexpectedToken, "Invalid expression: Variable got no semicolon or value"));
            },
        };
        if p + 1 >= tokens.len() {
            return Err(error_at_end("Variable got no semicolon"));
        }
        if tokens[p + 1].token_type != TokenType::SEMICOLON {
            return Err(error_at(tokens, p + 1, ParseErrorKind::UnexpectedToken, "Invalid expression: Variable got no semicolon"));
        }
        *pos = p + 2;
        Ok(value)
    }
}

/// A declaration is rejected as a duplicate exactly when it has the shape of
/// a declaration and its name is already declared in the scope it is in.
/// The class fields, which only serve to resolve an initial value, never
/// make it a duplicate.
pub proof fn lemma_duplicate_iff_in_scope(s: Seq<Token>, p: int, fields: Seq<VarView>, scope: Seq<VarView>)
    ensures
        (spec_declaration(s, p, fields, scope) matches Err(f) && f.kind
            == ParseErrorKind::DuplicateDeclaration) <==> (decl_started(s, p) && find_var(
            scope,
            token_text(s[p + 1]),
        ) is Some),
        decl_started(s, p) && find_var(scope, token_text(s[p + 1])) is Some ==> spec_declaration(
            s,
            p,
            fields,
            scope,
        ) == Err::<(VarView, int), Fail>(fail(ParseErrorKind::DuplicateDeclaration, p + 1)),
{
}

} // verus!
