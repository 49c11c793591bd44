//! A named synonym for another type expression.

use vstd::prelude::*;
use crate::text::same_text;

verus! {

#[derive(Debug)]
pub struct CppAlias {
    name: String,
    sub_type: String,
}

pub struct AliasView {
    pub name: Seq<char>,
    pub sub_type: Seq<char>,
}

impl View for CppAlias {
    type V = AliasView;

    closed spec fn view(&self) -> AliasView {
        AliasView { name: self.name@, sub_type: self.sub_type@ }
    }
}

impl AliasView {
    /// The `using` declaration of the alias.
    pub open spec fn format_text(self) -> Seq<char> {
        "using "@ + self.name + " = "@ + self.sub_type + ";\n"@
    }
}

impl CppAlias {
    pub fn new(name: &str, sub_type: &str) -> (r: CppAlias)
        ensures
            r@ == (AliasView { name: name@, sub_type: sub_type@ }),
    {
        CppAlias { name: name.to_owned(), sub_type: sub_type.to_owned() }
    }

    pub fn format(&self) -> (r: String)
        ensures
            r@ == self@.format_text(),
    {
        let mut r = String::new();
        r.append("using ");
        r.append(self.name.as_str());
        r.append(" = ");
        r.append(self.sub_type.as_str());
        r.append(";\n");
        assert(r@ =~= self@.format_text());
        r
    }

    /// Whether the alias stands for exactly `sub_type`.
    pub fn sub_matches(&self, sub_type: &str) -> (r: bool)
        ensures
            r == (self@.sub_type == sub_type@),
    {
        same_text(self.sub_type.as_str(), sub_type)
    }

    pub fn get_name<'a>(&'a self) -> (r: &'a str)
        ensures
            r@ == self@.name,
    {
        self.name.as_str()
    }

    /// Whether both are the same alias for the same type.
    pub fn same(&self, other: &CppAlias) -> (r: bool)
        ensures
            r == (self@ == other@),
    {
        self.name == other.name && self.sub_type == other.sub_type
    }
}

} // verus!
