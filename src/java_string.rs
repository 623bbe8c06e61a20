//! `java.lang.String` as a library type.
use vstd::prelude::*;
use crate::nodes::{FunctionArgument, args_view};
use crate::stdlib::{field_of, method_code, Class};

verus! {

/// `java.lang.String`: no field or method of it is modelled yet.
#[derive(Debug, PartialEq, Eq, Structural, Clone, Copy)]
pub struct String;

impl String {
    pub fn get_field(&self, name: &str) -> (r: Option<Class>)
        ensures
            r == field_of(Class::String(*self), name@),
    {
        None
    }

    pub fn code_from_method(&self, name: &str, args: Vec<FunctionArgument>) -> (r: Option<
        std::string::String,
    >)
        ensures
            r is None,
            method_code(Class::String(*self), name@, args_view(args@)) is None,
    {
        None
    }
}

} // verus!
