//! The model of the Java standard library: a closed set of library types,
//! each with its fields and with the code its methods translate to.
use vstd::prelude::*;
use crate::java_string;
use crate::nodes::{ArgView, FunctionArgument, args_view};
use crate::text::{push_char, same_text};

verus! {

/// `java.io.PrintStream`.
#[derive(Debug, PartialEq, Eq, Structural, Clone, Copy)]
pub struct PrintStream;

/// `java.lang.System`, with its `out` stream.
#[derive(Debug, PartialEq, Eq, Structural, Clone, Copy)]
pub struct System {
    pub out: PrintStream,
}

/// A library type that an identifier chain can go through.
#[derive(Debug, PartialEq, Eq, Structural, Clone, Copy)]
pub enum Class {
    System(System),
    PrintStream(PrintStream),
    String(java_string::String),
}

/// The library type a name stands for.
pub open spec fn prelude_class(name: Seq<char>) -> Option<Class> {
    if name == "String"@ {
        Some(Class::String(java_string::String))
    } else if name == "System"@ {
        Some(Class::System(System { out: PrintStream }))
    } else {
        None
    }
}

/// The library type that field `name` of `c` has.
pub open spec fn field_of(c: Class, name: Seq<char>) -> Option<Class> {
    match c {
        Class::System(_) => if name == "out"@ {
            Some(Class::PrintStream(PrintStream))
        } else {
            None
        },
        _ => None,
    }
}

/// Text with `{` and `}` doubled, so that a format string prints it as is.
pub open spec fn escape_braces(s: Seq<char>) -> Seq<char>
    decreases s.len(),
{
    if s.len() == 0 {
        Seq::empty()
    } else {
        let c = s.last();
        escape_braces(s.drop_last()) + if c == '{' || c == '}' {
            seq![c, c]
        } else {
            seq![c]
        }
    }
}

/// The code for `println` with these arguments: a line break alone, a
/// string literal printed as it is, or one value printed through `{}`.
pub open spec fn println_code(args: Seq<ArgView>) -> Option<Seq<char>> {
    if args.len() == 0 {
        Some("println!();"@)
    } else if args.len() == 1 {
        match args[0] {
            ArgView::Str(s) => Some("println!(\""@ + escape_braces(s) + "\");"@),
            ArgView::Literal(_, v) => Some("println!(\"{}\", "@ + v + ");"@),
            ArgView::Variable(_, n) => Some("println!(\"{}\", "@ + n + ");"@),
            ArgView::Class(_) => None,
        }
    } else {
        None
    }
}

/// The code that calling method `name` of `c` with `args` translates to.
pub open spec fn method_code(c: Class, name: Seq<char>, args: Seq<ArgView>) -> Option<Seq<char>> {
    match c {
        Class::PrintStream(_) => if name == "println"@ {
            println_code(args)
        } else {
            None
        },
        _ => None,
    }
}

fn escaped(s: &str) -> (r: String)
    ensures
        r@ == escape_braces(s@),
{
    let chars = crate::text::chars_of(s);
    let mut out = String::new();
    let mut i: usize = 0;
    assert(chars@.subrange(0, 0) =~= Seq::<char>::empty());
    while i < chars.len()
        invariant
            chars@ == s@,
            i <= chars@.len(),
            out@ == escape_braces(chars@.subrange(0, i as int)),
        decreases chars@.len() - i,
    {
        let c = chars[i];
        let ghost before = chars@.subrange(0, i as int);
        assert(chars@.subrange(0, i + 1).drop_last() =~= before);
        push_char(&mut out, c);
        if c == '{' || c == '}' {
            push_char(&mut out, c);
        }
        assert(out@ =~= escape_braces(chars@.subrange(0, i + 1)));
        i = i + 1;
    }
    assert(chars@.subrange(0, chars@.len() as int) =~= chars@);
    out
}

impl PrintStream {
    /// A print stream has no fields in this model.
    pub fn get_field(&self, name: &str) -> (r: Option<Class>)
        ensures
            r == field_of(Class::PrintStream(*self), name@),
    {
        None
    }

    pub fn code_from_method(&self, name: &str, args: Vec<FunctionArgument>) -> (r: Option<String>)
        ensures
            match method_code(Class::PrintStream(*self), name@, args_view(args@)) {
                Some(c) => r is Some && r->0@ == c,
                None => r is None,
            },
    {
        if !same_text(name, "println") {
            return None;
        }
        assert(args_view(args@).len() == args@.len());
        if args.len() == 0 {
            return Some(String::from_str("println!();"));
        }
        if args.len() > 1 {
            return None;
        }
        assert(args_view(args@)[0] == args@[0]@);
        match &args[0] {
            FunctionArgument::STRING(s) => {
                let mut code = String::from_str("println!(\"");
                let body = escaped(s.as_str());
                code.append(body.as_str());
                code.append("\");");
                Some(code)
            },
            FunctionArgument::DATATYPE((_, v)) => {
                let mut code = String::from_str("println!(\"{}\", ");
                code.append(v.as_str());
                code.append(");");
                Some(code)
            },
            FunctionArgument::VARIABLE((_, n)) => {
                let mut code = String::from_str("println!(\"{}\", ");
                code.append(n.as_str());
                code.append(");");
                Some(code)
            },
            FunctionArgument::CLASS(_) => None,
        }
    }
}

impl System {
    pub fn new() -> (r: System)
        ensures
            r == (System { out: PrintStream }),
    {
        System { out: PrintStream }
    }

    /// `System.out` is a print stream.
    pub fn get_field(&self, name: &str) -> (r: Option<Class>)
        ensures
            r == field_of(Class::System(*self), name@),
    {
        if same_text(name, "out") {
            Some(Class::PrintStream(self.out))
        } else {
            None
        }
    }

    /// No method of `System` is modelled.
    pub fn code_from_method(&self, name: &str, args: Vec<FunctionArgument>) -> (r: Option<String>)
        ensures
            r is None,
            method_code(Class::System(*self), name@, args_view(args@)) is None,
    {
        None
    }
}

impl Class {
    /// Resolves a member access to the library type of the member.
    pub fn get_field(&self, name: &str) -> (r: Option<Class>)
        ensures
            r == field_of(*self, name@),
    {
        match self {
            Class::System(s) => s.get_field(name),
            Class::PrintStream(p) => p.get_field(name),
            Class::String(s) => s.get_field(name),
        }
    }

    /// The code a call of method `name` with `args` translates to, or
    /// `None` where the method or this use of it is not modelled.
    pub fn code_from_method(&self, name: &str, args: Vec<FunctionArgument>) -> (r: Option<String>)
        ensures
            match method_code(*self, name@, args_view(args@)) {
                Some(c) => r is Some && r->0@ == c,
                None => r is None,
            },
    {
        match self {
            Class::System(s) => s.code_from_method(name, args),
            Class::PrintStream(p) => p.code_from_method(name, args),
            Class::String(s) => s.code_from_method(name, args),
        }
    }
}

/// The library type a name stands for, if it is one.
pub fn get_prelude_class(input: &str) -> (r: Option<Class>)
    ensures
        r == prelude_class(input@),
{
    if same_text(input, "String") {
        Some(Class::String(java_string::String))
    } else if same_text(input, "System") {
        Some(Class::System(System::new()))
    } else {
        None
    }
}

} // verus!
