//! The emitter: method signatures and bodies in the target language.
use vstd::prelude::*;
use crate::method::{MethodView, NodeMethod, ParamView, lines_view, params_view};
use crate::nodes::{MethodArgumentType, MethodReturnType};
use crate::stdlib::Class;
use crate::token::{DataType, Visibility};

verus! {

/// The target primitive for a data type.
pub open spec fn rust_type(d: DataType) -> Seq<char> {
    match d {
        DataType::BYTE => "i8"@,
        DataType::SHORT => "i16"@,
        DataType::INT => "i32"@,
        DataType::LONG => "i64"@,
        DataType::FLOAT => "f32"@,
        DataType::DOUBLE => "f64"@,
        DataType::CHAR => "char"@,
        DataType::BOOLEAN => "bool"@,
    }
}

/// The target type for a library type.
pub open spec fn class_type(c: Class) -> Seq<char> {
    match c {
        Class::System(_) => "System"@,
        Class::PrintStream(_) => "PrintStream"@,
        Class::String(_) => "String"@,
    }
}

/// The visibility keyword: `pub ` for public, nothing otherwise.
pub open spec fn visibility_text(v: Visibility) -> Seq<char> {
    match v {
        Visibility::PUBLIC => "pub "@,
        _ => Seq::empty(),
    }
}

/// The return annotation: nothing for `void`.
pub open spec fn return_text(r: MethodReturnType) -> Seq<char> {
    match r {
        MethodReturnType::VOID => Seq::empty(),
        MethodReturnType::DATATYPE(d) => " -> "@ + rust_type(d),
        MethodReturnType::CLASS(c) => " -> "@ + class_type(c),
    }
}

/// A parameter as `name: Type`, an array one as `name: Vec<Type>`.
pub open spec fn param_text(p: ParamView) -> Seq<char> {
    let base = match p.arg {
        MethodArgumentType::STRING => "String"@,
        MethodArgumentType::DATATYPE(d) => rust_type(d),
        MethodArgumentType::CLASS(c) => class_type(c),
    };
    p.name + ": "@ + if p.array {
        "Vec<"@ + base + ">"@
    } else {
        base
    }
}

/// The parameters, separated by `, `.
pub open spec fn params_text(ps: Seq<ParamView>) -> Seq<char>
    decreases ps.len(),
{
    if ps.len() == 0 {
        Seq::empty()
    } else if ps.len() == 1 {
        param_text(ps[0])
    } else {
        params_text(ps.drop_last()) + ", "@ + param_text(ps.last())
    }
}

/// `[pub ]fn name(params)[ -> Type]`.
pub open spec fn method_header(m: MethodView) -> Seq<char> {
    visibility_text(m.visibility) + "fn "@ + m.name + "("@ + params_text(m.args) + ")"@ + return_text(
        m.return_type,
    )
}

/// Each line followed by a line break.
pub open spec fn body_text(lines: Seq<Seq<char>>) -> Seq<char>
    decreases lines.len(),
{
    if lines.len() == 0 {
        Seq::empty()
    } else {
        body_text(lines.drop_last()) + lines.last() + "\n"@
    }
}

/// The whole method: its header, then its lines inside a block.
pub open spec fn method_code_text(m: MethodView) -> Seq<char> {
    method_header(m) + " {\n"@ + body_text(m.code) + "}"@
}

pub fn convert_data_type(data_type: DataType) -> (r: &'static str)
    ensures
        r@ == rust_type(data_type),
{
    match data_type {
        DataType::BYTE => "i8",
        DataType::SHORT => "i16",
        DataType::INT => "i32",
        DataType::LONG => "i64",
        DataType::FLOAT => "f32",
        DataType::DOUBLE => "f64",
        DataType::CHAR => "char",
        DataType::BOOLEAN => "bool",
    }
}

fn convert_class(c: Class) -> (r: &'static str)
    ensures
        r@ == class_type(c),
{
    match c {
        Class::System(_) => "System",
        Class::PrintStream(_) => "PrintStream",
        Class::String(_) => "String",
    }
}

fn param_string(method: &NodeMethod, i: usize) -> (r: String)
    requires
        i < method.args@.len(),
    ensures
        r@ == param_text(method.args@[i as int]@),
{
    let a = &method.args[i];
    let base = match a.arg {
        MethodArgumentType::STRING => "String",
        MethodArgumentType::DATATYPE(d) => convert_data_type(d),
        MethodArgumentType::CLASS(c) => convert_class(c),
    };
    let mut s = a.name.clone();
    s.append(": ");
    if a.array {
        s.append("Vec<");
        s.append(base);
        s.append(">");
    } else {
        s.append(base);
    }
    s
}

/// The signature line of a method.
pub fn convert_method(method: &NodeMethod) -> (r: String)
    ensures
        r@ == method_header(method@),
{
    let mut s = String::new();
    match method.visibility {
        Visibility::PUBLIC => s.append("pub "),
        _ => {},
    }
    assert(s@ == visibility_text(method.visibility));
    s.append("fn ");
    s.append(method.name.as_str());
    s.append("(");
    let ghost head = s@;
    let ghost ps = params_view(method.args@);
    let mut i: usize = 0;
    while i < method.args.len()
        invariant
            i <= method.args@.len(),
            ps == params_view(method.args@),
            s@ == head + params_text(ps.subrange(0, i as int)),
        decreases method.args@.len() - i,
    {
        if i > 0 {
            s.append(", ");
        }
        let p = param_string(method, i);
        s.append(p.as_str());
        proof {
            let next = ps.subrange(0, i + 1);
            assert(next.drop_last() =~= ps.subrange(0, i as int));
            assert(next.last() == method.args@[i as int]@);
            if i == 0 {
                assert(ps.subrange(0, 0) =~= Seq::<ParamView>::empty());
            }
        }
        i = i + 1;
    }
    assert(ps.subrange(0, method.args@.len() as int) =~= ps);
    s.append(")");
    match method.return_type {
        MethodReturnType::VOID => {},
        MethodReturnType::DATATYPE(d) => {
            s.append(" -> ");
            s.append(convert_data_type(d));
        },
        MethodReturnType::CLASS(c) => {
            s.append(" -> ");
            s.append(convert_class(c));
        },
    }
    s
}

impl NodeMethod {
    /// The whole method in the target language: the signature, then one
    /// line per emitted statement, in order, inside a block.
    pub fn get_full_code(&self) -> (r: String)
        ensures
            r@ == method_code_text(self@),
    {
        let mut final_code = convert_method(self);
        final_code.append(" {\n");
        let ghost head = final_code@;
        let ghost lines = lines_view(self.code@);
        let mut i: usize = 0;
        assert(lines.subrange(0, 0) =~= Seq::<Seq<char>>::empty());
        while i < self.code.len()
            invariant
                i <= self.code@.len(),
                lines == lines_view(self.code@),
                final_code@ == head + body_text(lines.subrange(0, i as int)),
            decreases self.code@.len() - i,
        {
            final_code.append(self.code[i].as_str());
            final_code.append("\n");
            proof {
                let next = lines.subrange(0, i + 1);
                assert(next.drop_last() =~= lines.subrange(0, i as int));
                assert(next.last() == self.code@[i as int]@);
            }
            i = i + 1;
        }
        assert(lines.subrange(0, self.code@.len() as int) =~= lines);
        final_code.append("}");
        final_code
    }
}

} // verus!
