//! Arrays, dictionaries and nullable wrappers: shapes that only refer to
//! another position of the registry.

use vstd::prelude::*;
use crate::cpp_snippets::{set_code, set_code_text};
use crate::cpp_types::shared::TypeIndex;
use crate::cpp_types::aliased_name;
use crate::props::{CppProps, PropsView};
use crate::state::CppState;

verus! {

/// An ordered sequence of the type at `idx`; `name` is the array's own
/// type expression.
#[derive(Debug)]
pub struct CppArray {
    idx: TypeIndex,
    name: String,
}

pub struct ArrayView {
    pub idx: TypeIndex,
    pub name: Seq<char>,
}

impl View for CppArray {
    type V = ArrayView;

    closed spec fn view(&self) -> ArrayView {
        ArrayView { idx: self.idx, name: self.name@ }
    }
}

impl CppArray {
    pub fn new(idx: TypeIndex, name: String) -> (r: CppArray)
        ensures
            r@ == (ArrayView { idx, name: name@ }),
    {
        CppArray { idx, name }
    }

    pub fn same(&self, other: &CppArray) -> (r: bool)
        ensures
            r == (self@ == other@),
    {
        self.idx == other.idx && self.name == other.name
    }
}

/// A string-keyed map to the type at `opt_idx`, or a set of strings where
/// there is none; `name` is the container's own type expression.
#[derive(Debug)]
pub struct CppDict {
    opt_idx: Option<TypeIndex>,
    name: String,
}

pub struct DictView {
    pub opt_idx: Option<TypeIndex>,
    pub name: Seq<char>,
}

impl View for CppDict {
    type V = DictView;

    closed spec fn view(&self) -> DictView {
        DictView { opt_idx: self.opt_idx, name: self.name@ }
    }
}

/// The routine for a set of keys under the given configuration.
pub open spec fn set_function_text(props: PropsView) -> Seq<char> {
    set_code_text(props.dictionary.container(Seq::empty()))
}

impl CppDict {
    pub fn new(opt_idx: Option<TypeIndex>, name: String) -> (r: CppDict)
        ensures
            r@ == (DictView { opt_idx, name: name@ }),
    {
        CppDict { opt_idx, name }
    }

    /// The routine that stands in for reading a set of keys. Reading one is
    /// not available: the emitted routine always reports a failure.
    pub fn get_set_internal_function(cpp_props: &CppProps) -> (r: String)
        ensures
            r@ == set_function_text(cpp_props@),
    {
        let info = cpp_props.get_dictionary_info("");
        proof {
            reveal_strlit("");
            assert(""@ =~= Seq::<char>::empty());
        }
        set_code(info.1.as_str())
    }

    pub fn same(&self, other: &CppDict) -> (r: bool)
        ensures
            r == (self@ == other@),
    {
        let same_idx = match (self.opt_idx, other.opt_idx) {
            (Some(a), Some(b)) => a == b,
            (None, None) => true,
            _ => false,
        };
        same_idx && self.name == other.name
    }
}

/// An either absent or present value of the type at `idx`; `name` is the
/// type expression of the wrapped type.
#[derive(Debug)]
pub struct CppNullable {
    idx: TypeIndex,
    name: String,
}

pub struct NullableView {
    pub idx: TypeIndex,
    pub name: Seq<char>,
}

impl View for CppNullable {
    type V = NullableView;

    closed spec fn view(&self) -> NullableView {
        NullableView { idx: self.idx, name: self.name@ }
    }
}

impl NullableView {
    /// The type expression of the wrapper itself.
    pub open spec fn pointer_text(self) -> Seq<char> {
        "std::unique_ptr<"@ + self.name + ">"@
    }
}

/// The prototype of the routine that reads the nullable type `full_name`.
pub open spec fn nullable_prototype_text(full_name: Seq<char>) -> Seq<char> {
    "\nJsonTypedefCodeGen::ExpType<"@ + full_name + "> deserialize_Nullable"@ + full_name
        + "(const JsonTypedefCodeGen::Reader::JsonValue& value);"@
}

/// The definition of the routine that reads the nullable type `full_name`.
pub open spec fn nullable_definition_text(full_name: Seq<char>) -> Seq<char> {
    "\nExpType<"@ + full_name + "> deserialize_Nullable"@ + full_name
        + "(const Reader::JsonValue& value) {\n  return JsonTypedefCodeGen::Deserialize::Json<"@
        + full_name + ">::deserialize(value);\n}\n"@
}

impl CppNullable {
    pub fn new(idx: TypeIndex, name: String) -> (r: CppNullable)
        ensures
            r@ == (NullableView { idx, name: name@ }),
    {
        CppNullable { idx, name }
    }

    /// The type expression of the wrapper itself.
    pub fn pointer_name(&self) -> (r: String)
        ensures
            r@ == self@.pointer_text(),
    {
        let mut r = String::new();
        r.append("std::unique_ptr<");
        r.append(self.name.as_str());
        r.append(">");
        assert(r@ =~= self@.pointer_text());
        r
    }

    /// The name under which the wrapper is emitted: the alias declared for
    /// it, if there is one, else its own type expression.
    pub fn get_full_name(&self, cpp_state: &CppState) -> (r: String)
        ensures
            r@ == aliased_name(cpp_state@.types, self@.pointer_text()),
    {
        let uptr_name = self.pointer_name();
        cpp_state.get_aliased_name(uptr_name.as_str()).to_owned()
    }

    pub fn prototype(&self, cpp_state: &CppState) -> (r: String)
        ensures
            r@ == nullable_prototype_text(aliased_name(cpp_state@.types, self@.pointer_text())),
    {
        let full_name = self.get_full_name(cpp_state);
        nullable_prototype(full_name.as_str())
    }

    pub fn define(&self, cpp_state: &CppState) -> (r: String)
        ensures
            r@ == nullable_definition_text(aliased_name(cpp_state@.types, self@.pointer_text())),
    {
        let full_name = self.get_full_name(cpp_state);
        nullable_definition(full_name.as_str())
    }

    pub fn same(&self, other: &CppNullable) -> (r: bool)
        ensures
            r == (self@ == other@),
    {
        self.idx == other.idx && self.name == other.name
    }
}

/// Renders the prototype of the reader of the nullable type `full_name`.
pub fn nullable_prototype(full_name: &str) -> (r: String)
    ensures
        r@ == nullable_prototype_text(full_name@),
{
    let mut r = String::new();
    r.append("\nJsonTypedefCodeGen::ExpType<");
    r.append(full_name);
    r.append("> deserialize_Nullable");
    r.append(full_name);
    r.append("(const JsonTypedefCodeGen::Reader::JsonValue& value);");
    assert(r@ =~= nullable_prototype_text(full_name@));
    r
}

/// Renders the definition of the reader of the nullable type `full_name`.
pub fn nullable_definition(full_name: &str) -> (r: String)
    ensures
        r@ == nullable_definition_text(full_name@),
{
    let mut r = String::new();
    r.append("\nExpType<");
    r.append(full_name);
    r.append("> deserialize_Nullable");
    r.append(full_name);
    r.append("(const Reader::JsonValue& value) {\n  return JsonTypedefCodeGen::Deserialize::Json<");
    r.append(full_name);
    r.append(">::deserialize(value);\n}\n");
    assert(r@ =~= nullable_definition_text(full_name@));
    r
}

} // verus!
