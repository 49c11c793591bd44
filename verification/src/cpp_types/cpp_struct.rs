//! A record with named fields.

use vstd::prelude::*;
use crate::cpp_snippets::{
    common_code,
    common_code_text,
    entries_array_text,
    struct_des,
    struct_des_text,
    struct_ser,
    struct_ser_text,
};
use crate::cpp_types::shared::{
    create_entry_array,
    create_field_entries,
    create_mandatory_indices,
    create_struct_from_fields,
    create_switch_clauses,
    create_visited_array,
    create_write_props,
    field_entries_text,
    mandatory_indices_text,
    prototype_name,
    prototype_text,
    struct_text,
    switch_clauses_text,
    visited_array_text,
    write_props_text,
    TypeIndex,
};
use crate::props::{CppProps, PropsView};
use crate::schema::{same_fields, same_indices, Field, FieldView};
use crate::text::{decimal, views};

verus! {

#[derive(Debug)]
pub struct CppStruct {
    name: String,
    fields: Vec<Field>,
    cpp_type_indices: Vec<TypeIndex>,
}

/// A struct as the contracts see it: `indices[i]` is the registry position
/// of the type of `fields[i]`.
pub struct StructView {
    pub name: Seq<char>,
    pub fields: Seq<FieldView>,
    pub indices: Seq<TypeIndex>,
}

impl View for CppStruct {
    type V = StructView;

    closed spec fn view(&self) -> StructView {
        StructView {
            name: self.name@,
            fields: views(self.fields@),
            indices: self.cpp_type_indices@,
        }
    }
}

impl StructView {
    /// There is one type position for each field.
    pub open spec fn wf(self) -> bool {
        self.indices.len() == self.fields.len()
    }

    pub open spec fn declare_text(self) -> Seq<char> {
        struct_text(self.name, self.fields)
    }

    /// The table of JSON names: the name at position `i` is that of field
    /// `i`.
    pub open spec fn entry_array_text(self) -> Seq<char> {
        entries_array_text(decimal(self.fields.len()), field_entries_text(self.fields, 4, false))
    }

    pub open spec fn common_text(self, props: PropsView) -> Seq<char> {
        common_code_text(props.namespaced(self.name), self.entry_array_text())
    }

    /// The reader: its mandatory positions are those of the fields that are
    /// not optional, its record of visits has one slot per field, and
    /// `case i` converts into field `i`.
    pub open spec fn des_text(self, props: PropsView) -> Seq<char> {
        struct_des_text(
            props.namespaced(self.name),
            mandatory_indices_text(self.fields, 0),
            visited_array_text(self.fields.len()),
            self.name,
            switch_clauses_text(self.fields, 0),
        )
    }

    pub open spec fn ser_text(self, props: PropsView) -> Seq<char> {
        struct_ser_text(props.namespaced(self.name), write_props_text(self.fields, "      "@, ""@))
    }
}

impl CppStruct {
    pub fn new(name: &str, fields: Vec<Field>, cpp_type_indices: Vec<TypeIndex>) -> (r: CppStruct)
        ensures
            r@ == (StructView {
                name: name@,
                fields: views(fields@),
                indices: cpp_type_indices@,
            }),
    {
        CppStruct { name: name.to_owned(), fields, cpp_type_indices }
    }

    pub fn get_name<'a>(&'a self) -> (r: &'a str)
        ensures
            r@ == self@.name,
    {
        self.name.as_str()
    }

    pub open spec fn prefix_text() -> Seq<char> {
        "struct"@
    }

    pub fn get_prefix() -> (r: &'static str)
        ensures
            r@ == Self::prefix_text(),
    {
        "struct"
    }

    pub fn declare(&self) -> (r: String)
        ensures
            r@ == self@.declare_text(),
    {
        create_struct_from_fields(self.name.as_str(), &self.fields)
    }

    pub fn prototype(&self, cpp_props: &CppProps) -> (r: String)
        ensures
            r@ == prototype_text(self@.name, cpp_props@),
    {
        prototype_name(self.name.as_str(), cpp_props)
    }

    fn create_entry_array(&self) -> (r: String)
        ensures
            r@ == self@.entry_array_text(),
    {
        let items = create_field_entries(&self.fields, 4, false);
        create_entry_array(items.as_str(), self.fields.len())
    }

    pub fn get_common_internal_code(&self, cpp_props: &CppProps) -> (r: String)
        ensures
            r@ == self@.common_text(cpp_props@),
    {
        let fullname = cpp_props.get_namespaced_name(self.name.as_str());
        let entries = self.create_entry_array();
        common_code(fullname.as_str(), entries.as_str())
    }

    pub fn get_des_internal_code(&self, cpp_props: &CppProps) -> (r: String)
        ensures
            r@ == self@.des_text(cpp_props@),
    {
        let fullname = cpp_props.get_namespaced_name(self.name.as_str());
        let visited = create_visited_array(self.fields.len());
        let mandatory_indices = create_mandatory_indices(&self.fields, 0);
        let clauses = create_switch_clauses(&self.fields, 0);
        struct_des(
            fullname.as_str(),
            mandatory_indices.as_str(),
            visited.as_str(),
            self.name.as_str(),
            clauses.as_str(),
        )
    }

    fn get_ser_write_props(&self) -> (r: String)
        ensures
            r@ == write_props_text(self@.fields, "      "@, ""@),
    {
        create_write_props(&self.fields, "      ", "")
    }

    pub fn get_ser_internal_code(&self, cpp_props: &CppProps) -> (r: String)
        ensures
            r@ == self@.ser_text(cpp_props@),
    {
        let fullname = cpp_props.get_namespaced_name(self.name.as_str());
        let write_props = self.get_ser_write_props();
        struct_ser(fullname.as_str(), write_props.as_str())
    }

    /// Whether both have the same name, the same fields in the same order
    /// and the same type positions.
    pub fn same(&self, other: &CppStruct) -> (r: bool)
        ensures
            r == (self@ == other@),
    {
        self.name == other.name && same_fields(&self.fields, &other.fields) && same_indices(
            &self.cpp_type_indices,
            &other.cpp_type_indices,
        )
    }
}

} // verus!
