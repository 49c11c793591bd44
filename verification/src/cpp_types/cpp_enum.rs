//! A closed enumeration of strings.

use vstd::prelude::*;
use crate::cpp_snippets::{
    common_code,
    common_code_text,
    entries_array_text,
    enum_des,
    enum_des_text,
    enum_ser,
    enum_ser_text,
    ENUM_INDEX_CODE,
};
use crate::cpp_types::shared::{
    create_entry_array,
    entry_separator,
    prototype_name,
    prototype_text,
    push_entry_separator,
    push_quoted_sv,
    quoted_sv,
};
use crate::props::{CppProps, PropsView};
use crate::schema::{same_members, EnumMember, EnumMemberView};
use crate::text::{decimal, views};

verus! {

#[derive(Debug)]
pub struct CppEnum {
    name: String,
    members: Vec<EnumMember>,
}

/// An enumeration as the contracts see it. The order of `members` is the
/// order of the emitted enumerators and of the table of literals.
pub struct EnumView {
    pub name: Seq<char>,
    pub members: Seq<EnumMemberView>,
}

impl View for CppEnum {
    type V = EnumView;

    closed spec fn view(&self) -> EnumView {
        EnumView { name: self.name@, members: views(self.members@) }
    }
}

/// One enumerator line per member, in order.
pub open spec fn member_lines_text(members: Seq<EnumMemberView>) -> Seq<char>
    decreases members.len(),
{
    if members.len() == 0 {
        Seq::empty()
    } else {
        member_lines_text(members.drop_last()) + "  "@ + members.last().name + ",\n"@
    }
}

/// The JSON literals of the members, in order, four to a line.
pub open spec fn member_entries_text(members: Seq<EnumMemberView>) -> Seq<char>
    decreases members.len(),
{
    if members.len() == 0 {
        Seq::empty()
    } else {
        member_entries_text(members.drop_last()) + entry_separator(
            members.len() - 1,
            4,
            "        "@,
        ) + quoted_sv(members.last().json_value)
    }
}

impl EnumView {
    pub open spec fn declare_text(self) -> Seq<char> {
        "\nenum class "@ + self.name + ": int {\n"@ + member_lines_text(self.members) + "};\n"@
    }

    /// The table of literals: the literal at position `i` belongs to the
    /// member at position `i`.
    pub open spec fn entry_array_text(self) -> Seq<char> {
        entries_array_text(decimal(self.members.len()), member_entries_text(self.members))
    }

    pub open spec fn common_text(self, props: PropsView) -> Seq<char> {
        common_code_text(props.namespaced(self.name), self.entry_array_text())
    }

    pub open spec fn des_text(self, props: PropsView) -> Seq<char> {
        enum_des_text(props.namespaced(self.name), self.name)
    }

    pub open spec fn ser_text(self, props: PropsView) -> Seq<char> {
        enum_ser_text(props.namespaced(self.name))
    }
}

impl CppEnum {
    pub fn new(name: &str, members: Vec<EnumMember>) -> (r: CppEnum)
        ensures
            r@ == (EnumView { name: name@, members: views(members@) }),
    {
        CppEnum { name: name.to_owned(), members }
    }

    pub fn get_name<'a>(&'a self) -> (r: &'a str)
        ensures
            r@ == self@.name,
    {
        self.name.as_str()
    }

    pub open spec fn prefix_text() -> Seq<char> {
        "enum class"@
    }

    pub fn get_prefix() -> (r: &'static str)
        ensures
            r@ == Self::prefix_text(),
    {
        "enum class"
    }

    /// The shared routine that every enumeration's reader calls.
    pub fn get_enum_index_code() -> (r: &'static str)
        ensures
            r@ == ENUM_INDEX_CODE@,
    {
        ENUM_INDEX_CODE
    }

    pub fn declare(&self) -> (r: String)
        ensures
            r@ == self@.declare_text(),
    {
        let mut lines = String::new();
        let mut i: usize = 0;
        while i < self.members.len()
            invariant
                i <= self.members@.len(),
                lines@ == member_lines_text(views(self.members@).take(i as int)),
            decreases self.members@.len() - i,
        {
            assert(views(self.members@).take(i + 1).drop_last() =~= views(self.members@).take(
                i as int,
            ));
            lines.append("  ");
            lines.append(self.members[i].name.as_str());
            lines.append(",\n");
            i += 1;
            assert(lines@ =~= member_lines_text(views(self.members@).take(i as int)));
        }
        assert(views(self.members@).take(i as int) =~= views(self.members@));
        let mut r = String::new();
        r.append("\nenum class ");
        r.append(self.name.as_str());
        r.append(": int {\n");
        r.append(lines.as_str());
        r.append("};\n");
        assert(r@ =~= self@.declare_text());
        r
    }

    pub fn prototype(&self, cpp_props: &CppProps) -> (r: String)
        ensures
            r@ == prototype_text(self@.name, cpp_props@),
    {
        prototype_name(self.name.as_str(), cpp_props)
    }

    fn create_entry_array(&self) -> (r: String)
        ensures
            r@ == self@.entry_array_text(),
    {
        let mut items = String::new();
        let mut i: usize = 0;
        while i < self.members.len()
            invariant
                i <= self.members@.len(),
                items@ == member_entries_text(views(self.members@).take(i as int)),
            decreases self.members@.len() - i,
        {
            assert(views(self.members@).take(i + 1).drop_last() =~= views(self.members@).take(
                i as int,
            ));
            push_entry_separator(&mut items, i, 4, "        ");
            push_quoted_sv(&mut items, self.members[i].json_value.as_str());
            i += 1;
            assert(items@ =~= member_entries_text(views(self.members@).take(i as int)));
        }
        assert(views(self.members@).take(i as int) =~= views(self.members@));
        create_entry_array(items.as_str(), self.members.len())
    }

    pub fn get_common_internal_code(&self, cpp_props: &CppProps) -> (r: String)
        ensures
            r@ == self@.common_text(cpp_props@),
    {
        let fullname = cpp_props.get_namespaced_name(self.name.as_str());
        let entries = self.create_entry_array();
        common_code(fullname.as_str(), entries.as_str())
    }

    pub fn get_des_internal_code(&self, cpp_props: &CppProps) -> (r: String)
        ensures
            r@ == self@.des_text(cpp_props@),
    {
        let fullname = cpp_props.get_namespaced_name(self.name.as_str());
        enum_des(fullname.as_str(), self.name.as_str())
    }

    pub fn get_ser_internal_code(&self, cpp_props: &CppProps) -> (r: String)
        ensures
            r@ == self@.ser_text(cpp_props@),
    {
        let fullname = cpp_props.get_namespaced_name(self.name.as_str());
        enum_ser(fullname.as_str())
    }

    /// Whether both have the same name and the same members in the same
    /// order.
    pub fn same(&self, other: &CppEnum) -> (r: bool)
        ensures
            r == (self@ == other@),
    {
        self.name == other.name && same_members(&self.members, &other.members)
    }
}

} // verus!
