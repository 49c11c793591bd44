//! A tagged union and its variants.

use vstd::prelude::*;
use crate::cpp_snippets::{
    common_code,
    common_code_text,
    disc_declare,
    disc_declare_text,
    disc_des,
    disc_des_text,
    disc_ser,
    disc_ser_text,
    entries_array_text,
    vary_des,
    vary_des_text,
    vary_ser,
    vary_ser_text,
};
use crate::cpp_types::shared::{
    create_entry_array,
    create_field_entries,
    create_mandatory_indices,
    create_struct_from_fields,
    create_switch_clauses,
    create_visited_array,
    create_write_props,
    entry_separator,
    field_entries_text,
    mandatory_indices_text,
    prototype_name,
    prototype_text,
    push_entry_separator,
    push_quoted_sv,
    quoted_sv,
    struct_text,
    switch_clauses_text,
    visited_array_text,
    write_props_text,
    TypeIndex,
};
use crate::props::{CppProps, PropsView};
use crate::schema::{
    same_fields,
    same_indices,
    same_variants,
    DiscriminatorVariantInfo,
    Field,
    FieldView,
    VariantInfoView,
};
use crate::text::{byte_len, byte_length, byte_suffix, cuttable, decimal, push_decimal, tail_from, views};

verus! {

#[derive(Debug)]
pub struct CppDiscriminator {
    name: String,
    variants: Vec<DiscriminatorVariantInfo>,
    tag_json_name: String,
    tag_field_name: String,
    cpp_type_indices: Vec<TypeIndex>,
}

/// A discriminator as the contracts see it. The order of `variants` is the
/// order of the alternatives of the emitted sum type, of the table of tags
/// and of the cases that dispatch on it; `indices[i]` is the registry
/// position of the type of `variants[i]`.
pub struct DiscriminatorView {
    pub name: Seq<char>,
    pub variants: Seq<VariantInfoView>,
    pub tag_json_name: Seq<char>,
    pub tag_field_name: Seq<char>,
    pub indices: Seq<TypeIndex>,
}

impl View for CppDiscriminator {
    type V = DiscriminatorView;

    closed spec fn view(&self) -> DiscriminatorView {
        DiscriminatorView {
            name: self.name@,
            variants: views(self.variants@),
            tag_json_name: self.tag_json_name@,
            tag_field_name: self.tag_field_name@,
            indices: self.cpp_type_indices@,
        }
    }
}

/// The width in bytes of the last line of the list of variant types: the
/// indentation of 4, the names on that line and 2 for each separator
/// between them.
pub open spec fn variant_line_size(variants: Seq<VariantInfoView>) -> int
    decreases variants.len(),
{
    if variants.len() == 0 {
        4
    } else {
        let before = variant_line_size(variants.drop_last());
        let width = byte_len(variants.last().variant_type) as int;
        if variants.len() == 1 {
            before + width
        } else if before + width > 78 {
            4 + width
        } else {
            before + 2 + width
        }
    }
}

/// The variant types in order, separated by commas. A new line is begun
/// before the first name, and before any name that would carry the line
/// beyond 78 bytes.
pub open spec fn variant_types_text(variants: Seq<VariantInfoView>) -> Seq<char>
    decreases variants.len(),
{
    if variants.len() == 0 {
        Seq::empty()
    } else {
        let before = variant_line_size(variants.drop_last());
        let width = byte_len(variants.last().variant_type);
        variant_types_text(variants.drop_last()) + (if variants.len() == 1 {
            "\n    "@
        } else if before + width > 78 {
            ",\n    "@
        } else {
            ", "@
        }) + variants.last().variant_type
    }
}

/// Whether every variant type can be cut after as many bytes as `name` has.
pub open spec fn all_cuttable(variants: Seq<VariantInfoView>, name: Seq<char>) -> bool {
    forall|i: int|
        0 <= i < variants.len() ==> cuttable(
            #[trigger] variants[i].variant_type,
            byte_len(name) as int,
        )
}

/// What separates the enumerator at position `i` from those before it.
pub open spec fn type_item_separator(i: int) -> Seq<char> {
    if i == 0 {
        Seq::empty()
    } else {
        ",\n    "@
    }
}

/// One enumerator per variant, valued by its position: the variant type
/// without the leading bytes that the discriminator's `name` takes up.
pub open spec fn enum_type_items_text(variants: Seq<VariantInfoView>, name: Seq<char>) -> Seq<
    char,
>
    decreases variants.len(),
{
    if variants.len() == 0 {
        Seq::empty()
    } else {
        enum_type_items_text(variants.drop_last(), name) + type_item_separator(
            variants.len() - 1,
        ) + byte_suffix(variants.last().variant_type, byte_len(name) as int) + " = "@ + decimal(
            (variants.len() - 1) as nat,
        )
    }
}

/// The tag values of the variants, in order, four to a line.
pub open spec fn tag_entries_text(variants: Seq<VariantInfoView>) -> Seq<char>
    decreases variants.len(),
{
    if variants.len() == 0 {
        Seq::empty()
    } else {
        tag_entries_text(variants.drop_last()) + entry_separator(
            variants.len() - 1,
            4,
            "          "@,
        ) + quoted_sv(variants.last().tag_value)
    }
}

/// One `case` per variant, numbered by position, that hands the whole
/// object to the reader of that variant's type.
pub open spec fn des_clauses_text(variants: Seq<VariantInfoView>, props: PropsView) -> Seq<char>
    decreases variants.len(),
{
    if variants.len() == 0 {
        Seq::empty()
    } else {
        des_clauses_text(variants.drop_last(), props) + "\n        case "@ + decimal(
            (variants.len() - 1) as nat,
        ) + ": return JsonTypedefCodeGen::Deserialize::Json<"@ + props.namespaced(
            variants.last().variant_type,
        ) + ">::deserialize(object).transform(cast);"@
    }
}

/// One `case` per variant, labelled by its enumerator, that writes the
/// fields of the active variant.
pub open spec fn ser_clauses_text(variants: Seq<VariantInfoView>, name: Seq<char>) -> Seq<char>
    decreases variants.len(),
{
    if variants.len() == 0 {
        Seq::empty()
    } else {
        ser_clauses_text(variants.drop_last(), name) + "    case Types::"@ + byte_suffix(
            variants.last().variant_type,
            byte_len(name) as int,
        ) + ":\n      SHORT_EXP(serialize(serializer, *value.get<Types::"@ + byte_suffix(
            variants.last().variant_type,
            byte_len(name) as int,
        ) + ">()));\n"@
    }
}

impl DiscriminatorView {
    /// There is one type position for each variant.
    pub open spec fn wf(self) -> bool {
        self.indices.len() == self.variants.len()
    }

    /// Whether the enumerators can be named: every variant type can be cut
    /// after the bytes of the discriminator's name.
    pub open spec fn nameable(self) -> bool {
        all_cuttable(self.variants, self.name)
    }

    pub open spec fn declare_text(self) -> Seq<char> {
        disc_declare_text(
            self.name,
            variant_types_text(self.variants),
            enum_type_items_text(self.variants, self.name),
        )
    }

    /// The table of tags: the tag at position `i` selects variant `i`.
    pub open spec fn entry_array_text(self) -> Seq<char> {
        entries_array_text(decimal(self.variants.len()), tag_entries_text(self.variants))
    }

    pub open spec fn common_text(self, props: PropsView) -> Seq<char> {
        common_code_text(props.namespaced(self.name), self.entry_array_text())
    }

    pub open spec fn des_text(self, props: PropsView) -> Seq<char> {
        disc_des_text(
            props.namespaced(self.name),
            self.entry_array_text(),
            self.tag_json_name,
            self.name,
            des_clauses_text(self.variants, props),
        )
    }

    pub open spec fn ser_text(self, props: PropsView) -> Seq<char> {
        disc_ser_text(
            props.namespaced(self.name),
            self.tag_json_name,
            ser_clauses_text(self.variants, self.name),
        )
    }
}

impl CppDiscriminator {
    pub fn new(
        name: &str,
        variants: Vec<DiscriminatorVariantInfo>,
        tag_json_name: &str,
        tag_field_name: &str,
        cpp_type_indices: Vec<TypeIndex>,
    ) -> (r: CppDiscriminator)
        ensures
            r@ == (DiscriminatorView {
                name: name@,
                variants: views(variants@),
                tag_json_name: tag_json_name@,
                tag_field_name: tag_field_name@,
                indices: cpp_type_indices@,
            }),
    {
        CppDiscriminator {
            name: name.to_owned(),
            variants,
            tag_json_name: tag_json_name.to_owned(),
            tag_field_name: tag_field_name.to_owned(),
            cpp_type_indices,
        }
    }

    pub fn get_name<'a>(&'a self) -> (r: &'a str)
        ensures
            r@ == self@.name,
    {
        self.name.as_str()
    }

    pub open spec fn prefix_text() -> Seq<char> {
        "struct"@
    }

    pub fn get_prefix() -> (r: &'static str)
        ensures
            r@ == Self::prefix_text(),
    {
        "struct"
    }

    /// Whether `declare` and `get_ser_internal_code` can name the
    /// enumerators of this discriminator.
    pub fn is_nameable(&self) -> (r: bool)
        ensures
            r == self@.nameable(),
    {
        let cut = byte_length(self.name.as_str());
        let mut i: usize = 0;
        while i < self.variants.len()
            invariant
                i <= self.variants@.len(),
                cut == byte_len(self.name@),
                all_cuttable(views(self.variants@).take(i as int), self.name@),
            decreases self.variants@.len() - i,
        {
            if !self.variants[i].variant_type.as_str().is_char_boundary(cut) {
                assert(views(self.variants@)[i as int].variant_type
                    == self.variants@[i as int].variant_type@);
                return false;
            }
            assert forall|j: int| 0 <= j < i + 1 implies cuttable(
                #[trigger] views(self.variants@).take(i + 1)[j].variant_type,
                byte_len(self.name@) as int,
            ) by {
                if j < i {
                    assert(views(self.variants@).take(i as int)[j] == views(self.variants@)[j]);
                }
            }
            i += 1;
        }
        assert(views(self.variants@).take(i as int) =~= views(self.variants@));
        true
    }

    fn get_variante_types(&self) -> (r: String)
        ensures
            r@ == variant_types_text(self@.variants),
    {
        let mut r = String::new();
        // The width of the current line, counted up to 79: beyond 78 every
        // further name wraps.
        let mut line_size: usize = 4;
        let mut i: usize = 0;
        while i < self.variants.len()
            invariant
                i <= self.variants@.len(),
                r@ == variant_types_text(views(self.variants@).take(i as int)),
                line_size <= 79,
                line_size == if variant_line_size(views(self.variants@).take(i as int)) >= 79 {
                    79
                } else {
                    variant_line_size(views(self.variants@).take(i as int))
                },
            decreases self.variants@.len() - i,
        {
            assert(views(self.variants@).take(i + 1).drop_last() =~= views(self.variants@).take(
                i as int,
            ));
            let name = self.variants[i].variant_type.as_str();
            let width = byte_length(name);
            assert(views(self.variants@)[i as int].variant_type == name@);
            if i == 0 {
                r.append("\n    ");
                line_size = if width >= 75 {
                    79
                } else {
                    4 + width
                };
            } else if width > 78 || line_size > 78 - width {
                r.append(",\n    ");
                line_size = if width >= 75 {
                    79
                } else {
                    4 + width
                };
            } else {
                r.append(", ");
                line_size = if line_size + 2 + width >= 79 {
                    79
                } else {
                    line_size + 2 + width
                };
            }
            r.append(name);
            i += 1;
            assert(r@ =~= variant_types_text(views(self.variants@).take(i as int)));
        }
        assert(views(self.variants@).take(i as int) =~= views(self.variants@));
        r
    }

    fn get_enum_type_items(&self) -> (r: String)
        requires
            self@.nameable(),
        ensures
            r@ == enum_type_items_text(self@.variants, self@.name),
    {
        let cut = byte_length(self.name.as_str());
        let mut r = String::new();
        let mut i: usize = 0;
        while i < self.variants.len()
            invariant
                i <= self.variants@.len(),
                cut == byte_len(self.name@),
                self@.nameable(),
                r@ == enum_type_items_text(views(self.variants@).take(i as int), self.name@),
            decreases self.variants@.len() - i,
        {
            assert(views(self.variants@).take(i + 1).drop_last() =~= views(self.variants@).take(
                i as int,
            ));
            assert(views(self.variants@)[i as int].variant_type
                == self.variants@[i as int].variant_type@);
            if i != 0 {
                r.append(",\n    ");
            }
            r.append(tail_from(self.variants[i].variant_type.as_str(), cut));
            r.append(" = ");
            push_decimal(&mut r, i);
            i += 1;
            assert(r@ =~= enum_type_items_text(views(self.variants@).take(i as int), self.name@));
        }
        assert(views(self.variants@).take(i as int) =~= views(self.variants@));
        r
    }

    pub fn declare(&self) -> (r: String)
        requires
            self@.nameable(),
        ensures
            r@ == self@.declare_text(),
    {
        let variant_types = self.get_variante_types();
        let enum_items = self.get_enum_type_items();
        disc_declare(self.name.as_str(), variant_types.as_str(), enum_items.as_str())
    }

    pub fn prototype(&self, cpp_props: &CppProps) -> (r: String)
        ensures
            r@ == prototype_text(self@.name, cpp_props@),
    {
        prototype_name(self.name.as_str(), cpp_props)
    }

    fn create_entry_array(&self) -> (r: String)
        ensures
            r@ == self@.entry_array_text(),
    {
        let mut items = String::new();
        let mut i: usize = 0;
        while i < self.variants.len()
            invariant
                i <= self.variants@.len(),
                items@ == tag_entries_text(views(self.variants@).take(i as int)),
            decreases self.variants@.len() - i,
        {
            assert(views(self.variants@).take(i + 1).drop_last() =~= views(self.variants@).take(
                i as int,
            ));
            push_entry_separator(&mut items, i, 4, "          ");
            push_quoted_sv(&mut items, self.variants[i].tag_value.as_str());
            i += 1;
            assert(items@ =~= tag_entries_text(views(self.variants@).take(i as int)));
        }
        assert(views(self.variants@).take(i as int) =~= views(self.variants@));
        create_entry_array(items.as_str(), self.variants.len())
    }

    fn create_des_clauses(&self, cpp_props: &CppProps) -> (r: String)
        ensures
            r@ == des_clauses_text(self@.variants, cpp_props@),
    {
        let mut r = String::new();
        let mut i: usize = 0;
        while i < self.variants.len()
            invariant
                i <= self.variants@.len(),
                r@ == des_clauses_text(views(self.variants@).take(i as int), cpp_props@),
            decreases self.variants@.len() - i,
        {
            assert(views(self.variants@).take(i + 1).drop_last() =~= views(self.variants@).take(
                i as int,
            ));
            let full = cpp_props.get_namespaced_name(self.variants[i].variant_type.as_str());
            r.append("\n        case ");
            push_decimal(&mut r, i);
            r.append(": return JsonTypedefCodeGen::Deserialize::Json<");
            r.append(full.as_str());
            r.append(">::deserialize(object).transform(cast);");
            i += 1;
            assert(r@ =~= des_clauses_text(views(self.variants@).take(i as int), cpp_props@));
        }
        assert(views(self.variants@).take(i as int) =~= views(self.variants@));
        r
    }

    pub fn get_common_internal_code(&self, cpp_props: &CppProps) -> (r: String)
        ensures
            r@ == self@.common_text(cpp_props@),
    {
        let fullname = cpp_props.get_namespaced_name(self.name.as_str());
        let entries = self.create_entry_array();
        common_code(fullname.as_str(), entries.as_str())
    }

    pub fn get_des_internal_code(&self, cpp_props: &CppProps) -> (r: String)
        ensures
            r@ == self@.des_text(cpp_props@),
    {
        let fullname = cpp_props.get_namespaced_name(self.name.as_str());
        let entries = self.create_entry_array();
        let clauses = self.create_des_clauses(cpp_props);
        disc_des(
            fullname.as_str(),
            entries.as_str(),
            self.tag_json_name.as_str(),
            self.name.as_str(),
            clauses.as_str(),
        )
    }

    fn get_ser_clauses(&self) -> (r: String)
        requires
            self@.nameable(),
        ensures
            r@ == ser_clauses_text(self@.variants, self@.name),
    {
        let cut = byte_length(self.name.as_str());
        let mut r = String::new();
        let mut i: usize = 0;
        while i < self.variants.len()
            invariant
                i <= self.variants@.len(),
                cut == byte_len(self.name@),
                self@.nameable(),
                r@ == ser_clauses_text(views(self.variants@).take(i as int), self.name@),
            decreases self.variants@.len() - i,
        {
            assert(views(self.variants@).take(i + 1).drop_last() =~= views(self.variants@).take(
                i as int,
            ));
            assert(views(self.variants@)[i as int].variant_type
                == self.variants@[i as int].variant_type@);
            let tname = tail_from(self.variants[i].variant_type.as_str(), cut);
            r.append("    case Types::");
            r.append(tname);
            r.append(":\n      SHORT_EXP(serialize(serializer, *value.get<Types::");
            r.append(tname);
            r.append(">()));\n");
            i += 1;
            assert(r@ =~= ser_clauses_text(views(self.variants@).take(i as int), self.name@));
        }
        assert(views(self.variants@).take(i as int) =~= views(self.variants@));
        r
    }

    pub fn get_ser_internal_code(&self, cpp_props: &CppProps) -> (r: String)
        requires
            self@.nameable(),
        ensures
            r@ == self@.ser_text(cpp_props@),
    {
        let fullname = cpp_props.get_namespaced_name(self.name.as_str());
        let clauses = self.get_ser_clauses();
        disc_ser(fullname.as_str(), self.tag_json_name.as_str(), clauses.as_str())
    }

    /// Whether both have the same name, tag and variants in the same order,
    /// and the same type positions.
    pub fn same(&self, other: &CppDiscriminator) -> (r: bool)
        ensures
            r == (self@ == other@),
    {
        self.name == other.name && same_variants(&self.variants, &other.variants)
            && self.tag_json_name == other.tag_json_name && self.tag_field_name
            == other.tag_field_name && same_indices(
            &self.cpp_type_indices,
            &other.cpp_type_indices,
        )
    }
}

#[derive(Debug)]
pub struct CppDiscriminatorVariant {
    name: String,
    fields: Vec<Field>,
    tag_field_name: String,
    tag_json_name: String,
    tag_value: String,
    parent_name: String,
    cpp_type_indices: Vec<TypeIndex>,
}

/// One variant of a discriminator as the contracts see it. In its table of
/// JSON names the tag stands at position 0 and field `i` at position
/// `i + 1`; `indices[i]` is the registry position of the type of
/// `fields[i]`.
pub struct VariantView {
    pub name: Seq<char>,
    pub fields: Seq<FieldView>,
    pub tag_field_name: Seq<char>,
    pub tag_json_name: Seq<char>,
    pub tag_value: Seq<char>,
    pub parent_name: Seq<char>,
    pub indices: Seq<TypeIndex>,
}

impl View for CppDiscriminatorVariant {
    type V = VariantView;

    closed spec fn view(&self) -> VariantView {
        VariantView {
            name: self.name@,
            fields: views(self.fields@),
            tag_field_name: self.tag_field_name@,
            tag_json_name: self.tag_json_name@,
            tag_value: self.tag_value@,
            parent_name: self.parent_name@,
            indices: self.cpp_type_indices@,
        }
    }
}

impl VariantView {
    /// The table of names, one longer than the field list, can be counted.
    pub open spec fn countable(self) -> bool {
        self.fields.len() < usize::MAX
    }

    /// There is one type position for each field, and the table of names
    /// can be counted.
    pub open spec fn wf(self) -> bool {
        &&& self.indices.len() == self.fields.len()
        &&& self.countable()
    }

    pub open spec fn declare_text(self) -> Seq<char> {
        struct_text(self.name, self.fields)
    }

    /// The table of JSON names: the tag first, then the fields in order.
    pub open spec fn entry_array_text(self) -> Seq<char> {
        entries_array_text(
            decimal(self.fields.len() + 1),
            quoted_sv(self.tag_json_name) + field_entries_text(self.fields, 5, true),
        )
    }

    pub open spec fn common_text(self, props: PropsView) -> Seq<char> {
        common_code_text(props.namespaced(self.name), self.entry_array_text())
    }

    /// The reader: position 0 is the tag, so the mandatory positions and
    /// the cases of the fields are moved up by one and the record of visits
    /// has one slot more than there are fields.
    pub open spec fn des_text(self, props: PropsView) -> Seq<char> {
        vary_des_text(
            props.namespaced(self.name),
            mandatory_indices_text(self.fields, 1),
            visited_array_text(self.fields.len() + 1),
            self.name,
            switch_clauses_text(self.fields, 1),
        )
    }

    pub open spec fn ser_text(self, props: PropsView) -> Seq<char> {
        vary_ser_text(props.namespaced(self.name), write_props_text(self.fields, "    "@, "*"@))
    }
}

impl CppDiscriminatorVariant {
    pub fn new(
        name: &str,
        fields: Vec<Field>,
        tag_field_name: &str,
        tag_json_name: &str,
        tag_value: &str,
        parent_name: &str,
        cpp_type_indices: Vec<TypeIndex>,
    ) -> (r: CppDiscriminatorVariant)
        ensures
            r@ == (VariantView {
                name: name@,
                fields: views(fields@),
                tag_field_name: tag_field_name@,
                tag_json_name: tag_json_name@,
                tag_value: tag_value@,
                parent_name: parent_name@,
                indices: cpp_type_indices@,
            }),
    {
        CppDiscriminatorVariant {
            name: name.to_owned(),
            fields,
            tag_field_name: tag_field_name.to_owned(),
            tag_json_name: tag_json_name.to_owned(),
            tag_value: tag_value.to_owned(),
            parent_name: parent_name.to_owned(),
            cpp_type_indices,
        }
    }

    pub fn get_name<'a>(&'a self) -> (r: &'a str)
        ensures
            r@ == self@.name,
    {
        self.name.as_str()
    }

    pub open spec fn prefix_text() -> Seq<char> {
        "struct"@
    }

    pub fn get_prefix() -> (r: &'static str)
        ensures
            r@ == Self::prefix_text(),
    {
        "struct"
    }

    pub fn declare(&self) -> (r: String)
        ensures
            r@ == self@.declare_text(),
    {
        create_struct_from_fields(self.name.as_str(), &self.fields)
    }

    pub fn prototype(&self, cpp_props: &CppProps) -> (r: String)
        ensures
            r@ == prototype_text(self@.name, cpp_props@),
    {
        prototype_name(self.name.as_str(), cpp_props)
    }

    fn create_entry_array(&self) -> (r: String)
        requires
            self@.countable(),
        ensures
            r@ == self@.entry_array_text(),
    {
        let items = create_field_entries(&self.fields, 5, true);
        let mut entries = String::new();
        push_quoted_sv(&mut entries, self.tag_json_name.as_str());
        entries.append(items.as_str());
        create_entry_array(entries.as_str(), self.fields.len() + 1)
    }

    pub fn get_common_internal_code(&self, cpp_props: &CppProps) -> (r: String)
        requires
            self@.countable(),
        ensures
            r@ == self@.common_text(cpp_props@),
    {
        let fullname = cpp_props.get_namespaced_name(self.name.as_str());
        let entries = self.create_entry_array();
        common_code(fullname.as_str(), entries.as_str())
    }

    pub fn get_des_internal_code(&self, cpp_props: &CppProps) -> (r: String)
        requires
            self@.countable(),
        ensures
            r@ == self@.des_text(cpp_props@),
    {
        let fullname = cpp_props.get_namespaced_name(self.name.as_str());
        let mandatory_indices = create_mandatory_indices(&self.fields, 1);
        let visited = create_visited_array(self.fields.len() + 1);
        let clauses = create_switch_clauses(&self.fields, 1);
        vary_des(
            fullname.as_str(),
            mandatory_indices.as_str(),
            visited.as_str(),
            self.name.as_str(),
            clauses.as_str(),
        )
    }

    fn get_ser_write_props(&self) -> (r: String)
        ensures
            r@ == write_props_text(self@.fields, "    "@, "*"@),
    {
        create_write_props(&self.fields, "    ", "*")
    }

    pub fn get_ser_internal_code(&self, cpp_props: &CppProps) -> (r: String)
        ensures
            r@ == self@.ser_text(cpp_props@),
    {
        let fullname = cpp_props.get_namespaced_name(self.name.as_str());
        let write_props = self.get_ser_write_props();
        vary_ser(fullname.as_str(), write_props.as_str())
    }

    /// Whether both are the same variant of the same parent, with the same
    /// fields in the same order and the same type positions.
    pub fn same(&self, other: &CppDiscriminatorVariant) -> (r: bool)
        ensures
            r == (self@ == other@),
    {
        self.name == other.name && same_fields(&self.fields, &other.fields)
            && self.tag_field_name == other.tag_field_name && self.tag_json_name
            == other.tag_json_name && self.tag_value == other.tag_value && self.parent_name
            == other.parent_name && same_indices(&self.cpp_type_indices, &other.cpp_type_indices)
    }
}

} // verus!
