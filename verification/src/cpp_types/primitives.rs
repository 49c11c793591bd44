//! The scalar kinds and the C++ types that stand for them.

use vstd::prelude::*;
use crate::cpp_snippets::{prim_des, prim_des_text};

verus! {

#[derive(Clone, Copy, Debug, PartialEq, Eq, Structural)]
pub enum Primitives {
    Bool,
    Int8,
    Uint8,
    Int16,
    Uint16,
    Int32,
    Uint32,
    Float32,
    Float64,
    String,
}

impl Primitives {
    /// The C++ type of the kind.
    pub open spec fn name_text(self) -> Seq<char> {
        match self {
            Primitives::Bool => "bool"@,
            Primitives::Int8 => "int8_t"@,
            Primitives::Uint8 => "uint8_t"@,
            Primitives::Int16 => "int16_t"@,
            Primitives::Uint16 => "uint16_t"@,
            Primitives::Int32 => "int32_t"@,
            Primitives::Uint32 => "uint32_t"@,
            Primitives::Float32 => "float"@,
            Primitives::Float64 => "double"@,
            Primitives::String => "std::string"@,
        }
    }

    pub fn cpp_name(&self) -> (r: &'static str)
        ensures
            r@ == self.name_text(),
    {
        match self {
            Primitives::Bool => "bool",
            Primitives::Int8 => "int8_t",
            Primitives::Uint8 => "uint8_t",
            Primitives::Int16 => "int16_t",
            Primitives::Uint16 => "uint16_t",
            Primitives::Int32 => "int32_t",
            Primitives::Uint32 => "uint32_t",
            Primitives::Float32 => "float",
            Primitives::Float64 => "double",
            Primitives::String => "std::string",
        }
    }

    /// The suffix of the reader's method for the kind: signed integers are
    /// read as `i64`, unsigned ones as `u64`, both floats as `double`.
    pub open spec fn reader_suffix(self) -> Seq<char> {
        match self {
            Primitives::Bool => "bool"@,
            Primitives::Int8 | Primitives::Int16 | Primitives::Int32 => "i64"@,
            Primitives::Uint8 | Primitives::Uint16 | Primitives::Uint32 => "u64"@,
            Primitives::Float32 | Primitives::Float64 => "double"@,
            Primitives::String => "str"@,
        }
    }

    /// The expression that reads a value of the kind from `from`.
    pub open spec fn read_text(self, from: Seq<char>) -> Seq<char> {
        from + ".read_"@ + self.reader_suffix() + "()"@
    }

    pub fn read_primitive(&self, from: &str) -> (r: String)
        ensures
            r@ == self.read_text(from@),
    {
        let fn_name = match self {
            Primitives::Bool => "bool",
            Primitives::Int8 | Primitives::Int16 | Primitives::Int32 => "i64",
            Primitives::Uint8 | Primitives::Uint16 | Primitives::Uint32 => "u64",
            Primitives::Float32 | Primitives::Float64 => "double",
            Primitives::String => "str",
        };
        let mut r = String::new();
        r.append(from);
        r.append(".read_");
        r.append(fn_name);
        r.append("()");
        assert(r@ =~= self.read_text(from@));
        r
    }

    /// Whether the reader hands the kind out as it is.
    pub open spec fn read_as_is(self) -> bool {
        self == Primitives::Bool || self == Primitives::Float64 || self == Primitives::String
    }

    /// The cast from the reader's type to the kind's own, where they differ.
    pub open spec fn reader_transform_text(self) -> Seq<char> {
        if self.read_as_is() {
            Seq::empty()
        } else {
            ".transform([](const auto val) {\n  return ("@ + self.name_text() + ")val;\n})"@
        }
    }

    pub fn cpp_reader_transform(&self) -> (r: String)
        ensures
            r@ == self.reader_transform_text(),
    {
        let mut r = String::new();
        match self {
            Primitives::Bool | Primitives::Float64 | Primitives::String => {},
            _ => {
                r.append(".transform([](const auto val) {\n  return (");
                r.append(self.cpp_name());
                r.append(")val;\n})");
            },
        }
        assert(r@ =~= self.reader_transform_text());
        r
    }

    /// The copy into an owned string, for the one kind that is read as a
    /// borrowed view.
    pub open spec fn data_transform_text(self) -> Seq<char> {
        if self == Primitives::String {
            "\n        .transform([](auto v) { return std::string(v); })"@
        } else {
            Seq::empty()
        }
    }

    pub fn cpp_data_transform(&self) -> (r: String)
        ensures
            r@ == self.data_transform_text(),
    {
        match self {
            Primitives::String => "\n        .transform([](auto v) { return std::string(v); })".to_owned(),
            _ => String::new(),
        }
    }

    /// The routine that reads a value of the kind.
    pub open spec fn internal_function_text(self) -> Seq<char> {
        prim_des_text(
            self.name_text(),
            self.read_text("value"@),
            self.reader_transform_text(),
            self.data_transform_text(),
        )
    }

    pub fn get_internal_function(&self) -> (r: String)
        ensures
            r@ == self.internal_function_text(),
    {
        let read_prim = self.read_primitive("value");
        let read_xform = self.cpp_reader_transform();
        let data_xform = self.cpp_data_transform();
        prim_des(self.cpp_name(), read_prim.as_str(), read_xform.as_str(), data_xform.as_str())
    }
}

} // verus!
