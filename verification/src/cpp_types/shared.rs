//! Pieces of text that several shapes render the same way.

use vstd::prelude::*;
use crate::cpp_snippets::{entries_array, entries_array_text};
use crate::props::{CppProps, PropsView};
use crate::schema::{Field, FieldView};
use crate::text::{decimal, decimal_text, push_decimal, views};

verus! {

/// The position of a shape in the registry.
pub type TypeIndex = usize;

/// The table of `size` JSON names laid out in `entries`.
pub fn create_entry_array(entries: &str, size: usize) -> (r: String)
    ensures
        r@ == entries_array_text(decimal(size as nat), entries@),
{
    let size_text = decimal_text(size);
    entries_array(size_text.as_str(), entries)
}

/// What separates the item at position `i` of a table of names from the
/// items before it: nothing before the first, a line break with `indent`
/// before every `per_line`-th, a comma and a blank otherwise.
pub open spec fn entry_separator(i: int, per_line: int, indent: Seq<char>) -> Seq<char> {
    if i == 0 {
        Seq::empty()
    } else if i % per_line == 0 {
        ",\n"@ + indent
    } else {
        ", "@
    }
}

/// One quoted name of a table, as a string view literal.
pub open spec fn quoted_sv(name: Seq<char>) -> Seq<char> {
    "\""@ + name + "\"sv"@
}

/// Appends the separator for position `i` to `out`.
pub fn push_entry_separator(out: &mut String, i: usize, per_line: usize, indent: &str)
    requires
        per_line > 0,
    ensures
        final(out)@ == old(out)@ + entry_separator(i as int, per_line as int, indent@),
{
    if i == 0 {
    } else if i % per_line == 0 {
        out.append(",\n");
        out.append(indent);
    } else {
        out.append(", ");
    }
    assert(out@ =~= old(out)@ + entry_separator(i as int, per_line as int, indent@));
}

/// Appends `name` as a quoted string view literal to `out`.
pub fn push_quoted_sv(out: &mut String, name: &str)
    ensures
        final(out)@ == old(out)@ + quoted_sv(name@),
{
    out.append("\"");
    out.append(name);
    out.append("\"sv");
    assert(out@ =~= old(out)@ + quoted_sv(name@));
}

/// The positions of the fields that must be present, each moved up by
/// `offset`, in field order.
pub open spec fn mandatory_indices(fields: Seq<FieldView>, offset: usize) -> Seq<usize>
    decreases fields.len(),
{
    if fields.len() == 0 {
        Seq::empty()
    } else if fields.last().optional {
        mandatory_indices(fields.drop_last(), offset)
    } else {
        mandatory_indices(fields.drop_last(), offset).push((fields.len() - 1 + offset) as usize)
    }
}

/// Every mandatory position lies in the table, and the list is no longer
/// than the field list.
pub proof fn lemma_mandatory_indices_bounds(fields: Seq<FieldView>, offset: usize)
    ensures
        mandatory_indices(fields, offset).len() <= fields.len(),
        forall|k: int|
            0 <= k < fields.len() && fields.len() + offset <= usize::MAX ==> (mandatory_indices(
                fields,
                offset,
            ).contains((k + offset) as usize) <==> !fields[k].optional),
    decreases fields.len(),
{
    if fields.len() > 0 {
        let rest = fields.drop_last();
        lemma_mandatory_indices_bounds(rest, offset);
        let all = mandatory_indices(fields, offset);
        let part = mandatory_indices(rest, offset);
        if fields.len() + offset <= usize::MAX {
            lemma_mandatory_indices_range(rest, offset);
            assert forall|k: int| 0 <= k < fields.len() implies (all.contains((k + offset) as usize)
                <==> !fields[k].optional) by {
                let last = (fields.len() - 1 + offset) as usize;
                if fields.last().optional {
                    if k < fields.len() - 1 {
                        assert(rest[k] == fields[k]);
                    } else {
                        if part.contains(last) {
                            let j = choose|j: int| 0 <= j < part.len() && part[j] == last;
                            assert(part[j] < rest.len() + offset);
                        }
                    }
                } else {
                    assert(all =~= part.push(last));
                    if k < fields.len() - 1 {
                        assert(rest[k] == fields[k]);
                        if part.contains((k + offset) as usize) {
                            let j = choose|j: int|
                                0 <= j < part.len() && part[j] == (k + offset) as usize;
                            assert(all[j] == (k + offset) as usize);
                        }
                        if all.contains((k + offset) as usize) {
                            let j = choose|j: int|
                                0 <= j < all.len() && all[j] == (k + offset) as usize;
                            assert(j < part.len());
                            assert(part[j] == (k + offset) as usize);
                        }
                    } else {
                        assert(all[all.len() - 1] == last);
                    }
                }
            }
        }
    }
}

/// Every listed position is at least `offset` and below the table's size.
pub proof fn lemma_mandatory_indices_range(fields: Seq<FieldView>, offset: usize)
    requires
        fields.len() + offset <= usize::MAX,
    ensures
        forall|j: int|
            0 <= j < mandatory_indices(fields, offset).len() ==> offset <= #[trigger] mandatory_indices(
                fields,
                offset,
            )[j] < fields.len() + offset,
    decreases fields.len(),
{
    if fields.len() > 0 {
        let rest = mandatory_indices(fields.drop_last(), offset);
        let all = mandatory_indices(fields, offset);
        lemma_mandatory_indices_range(fields.drop_last(), offset);
        assert forall|j: int| 0 <= j < all.len() implies offset <= #[trigger] all[j] < fields.len()
            + offset by {
            if j < rest.len() {
                assert(all[j] == rest[j]);
            }
        }
    }
}

pub fn get_mandatory_indices(fields: &Vec<Field>, idx_offset: usize) -> (r: Vec<usize>)
    requires
        fields@.len() + idx_offset <= usize::MAX,
    ensures
        r@ == mandatory_indices(views(fields@), idx_offset),
{
    let mut r: Vec<usize> = Vec::new();
    let mut i: usize = 0;
    while i < fields.len()
        invariant
            i <= fields@.len(),
            fields@.len() + idx_offset <= usize::MAX,
            r@ == mandatory_indices(views(fields@).take(i as int), idx_offset),
        decreases fields@.len() - i,
    {
        assert(views(fields@).take(i + 1).drop_last() =~= views(fields@).take(i as int));
        if !fields[i].optional {
            r.push(i + idx_offset);
        }
        i += 1;
    }
    assert(views(fields@).take(i as int) =~= views(fields@));
    r
}

/// The listed positions in decimal, separated by a comma and a blank.
pub open spec fn index_list_text(indices: Seq<usize>) -> Seq<char>
    decreases indices.len(),
{
    if indices.len() == 0 {
        Seq::empty()
    } else {
        index_list_text(indices.drop_last()) + (if indices.len() == 1 {
            Seq::<char>::empty()
        } else {
            ", "@
        }) + decimal(indices.last() as nat)
    }
}

/// The declaration of the array of mandatory positions.
pub open spec fn mandatory_indices_text(fields: Seq<FieldView>, offset: usize) -> Seq<char> {
    "static constexpr std::array<int, "@ + decimal(mandatory_indices(fields, offset).len())
        + "> mandatory_indices = { "@ + index_list_text(mandatory_indices(fields, offset))
        + " };"@
}

pub fn create_mandatory_indices(fields: &Vec<Field>, idx_offset: usize) -> (r: String)
    requires
        fields@.len() + idx_offset <= usize::MAX,
    ensures
        r@ == mandatory_indices_text(views(fields@), idx_offset),
{
    let midx = get_mandatory_indices(fields, idx_offset);
    let mut list = String::new();
    let mut j: usize = 0;
    while j < midx.len()
        invariant
            j <= midx@.len(),
            list@ == index_list_text(midx@.take(j as int)),
        decreases midx@.len() - j,
    {
        assert(midx@.take(j + 1).drop_last() =~= midx@.take(j as int));
        if j != 0 {
            list.append(", ");
        }
        push_decimal(&mut list, midx[j]);
        j += 1;
        assert(list@ =~= index_list_text(midx@.take(j as int)));
    }
    assert(midx@.take(j as int) =~= midx@);
    let mut r = String::new();
    r.append("static constexpr std::array<int, ");
    push_decimal(&mut r, midx.len());
    r.append("> mandatory_indices = { ");
    r.append(list.as_str());
    r.append(" };");
    assert(r@ =~= mandatory_indices_text(views(fields@), idx_offset));
    r
}

/// One member line per field: its type and its name.
pub open spec fn field_lines_text(fields: Seq<FieldView>) -> Seq<char>
    decreases fields.len(),
{
    if fields.len() == 0 {
        Seq::empty()
    } else {
        field_lines_text(fields.drop_last()) + "  "@ + fields.last().type_ + " "@
            + fields.last().name + ";\n"@
    }
}

/// The declaration of a struct named `name` with the given fields.
pub open spec fn struct_text(name: Seq<char>, fields: Seq<FieldView>) -> Seq<char> {
    "\nstruct "@ + name + " {\n"@ + field_lines_text(fields) + "};\n"@
}

pub fn create_struct_from_fields(name: &str, fields: &Vec<Field>) -> (r: String)
    ensures
        r@ == struct_text(name@, views(fields@)),
{
    let mut lines = String::new();
    let mut i: usize = 0;
    while i < fields.len()
        invariant
            i <= fields@.len(),
            lines@ == field_lines_text(views(fields@).take(i as int)),
        decreases fields@.len() - i,
    {
        assert(views(fields@).take(i + 1).drop_last() =~= views(fields@).take(i as int));
        let f = &fields[i];
        lines.append("  ");
        lines.append(f.type_.as_str());
        lines.append(" ");
        lines.append(f.name.as_str());
        lines.append(";\n");
        i += 1;
        assert(lines@ =~= field_lines_text(views(fields@).take(i as int)));
    }
    assert(views(fields@).take(i as int) =~= views(fields@));
    let mut r = String::new();
    r.append("\nstruct ");
    r.append(name);
    r.append(" {\n");
    r.append(lines.as_str());
    r.append("};\n");
    assert(r@ =~= struct_text(name@, views(fields@)));
    r
}

/// One `case` per field, numbered from `offset` in field order, that
/// converts the value into that field.
pub open spec fn switch_clauses_text(fields: Seq<FieldView>, offset: usize) -> Seq<char>
    decreases fields.len(),
{
    if fields.len() == 0 {
        Seq::empty()
    } else {
        switch_clauses_text(fields.drop_last(), offset) + "\n                  case "@ + decimal(
            (fields.len() - 1 + offset) as nat,
        ) + ": return deserialize_and_set(result."@ + fields.last().name + ", val);"@
    }
}

pub fn create_switch_clauses(fields: &Vec<Field>, offset: usize) -> (r: String)
    requires
        fields@.len() + offset <= usize::MAX,
    ensures
        r@ == switch_clauses_text(views(fields@), offset),
{
    let mut r = String::new();
    let mut i: usize = 0;
    while i < fields.len()
        invariant
            i <= fields@.len(),
            fields@.len() + offset <= usize::MAX,
            r@ == switch_clauses_text(views(fields@).take(i as int), offset),
        decreases fields@.len() - i,
    {
        assert(views(fields@).take(i + 1).drop_last() =~= views(fields@).take(i as int));
        r.append("\n                  case ");
        push_decimal(&mut r, i + offset);
        r.append(": return deserialize_and_set(result.");
        r.append(fields[i].name.as_str());
        r.append(", val);");
        i += 1;
        assert(r@ =~= switch_clauses_text(views(fields@).take(i as int), offset));
    }
    assert(views(fields@).take(i as int) =~= views(fields@));
    r
}

/// The JSON names of the fields, in order, as the items of a table with
/// `per_line` items to a line. With `after_tag` the first name too is
/// preceded by a separator, because an item stands before it.
pub open spec fn field_entries_text(fields: Seq<FieldView>, per_line: int, after_tag: bool) -> Seq<
    char,
>
    decreases fields.len(),
{
    if fields.len() == 0 {
        Seq::empty()
    } else {
        field_entries_text(fields.drop_last(), per_line, after_tag) + (if fields.len() == 1
            && after_tag {
            ", "@
        } else {
            entry_separator(fields.len() - 1, per_line, "        "@)
        }) + quoted_sv(fields.last().json_name)
    }
}

pub fn create_field_entries(fields: &Vec<Field>, per_line: usize, after_tag: bool) -> (r: String)
    requires
        per_line > 0,
    ensures
        r@ == field_entries_text(views(fields@), per_line as int, after_tag),
{
    let mut r = String::new();
    let mut i: usize = 0;
    while i < fields.len()
        invariant
            per_line > 0,
            i <= fields@.len(),
            r@ == field_entries_text(views(fields@).take(i as int), per_line as int, after_tag),
        decreases fields@.len() - i,
    {
        assert(views(fields@).take(i + 1).drop_last() =~= views(fields@).take(i as int));
        if i == 0 && after_tag {
            r.append(", ");
        } else {
            push_entry_separator(&mut r, i, per_line, "        ");
        }
        push_quoted_sv(&mut r, fields[i].json_name.as_str());
        i += 1;
        assert(r@ =~= field_entries_text(views(fields@).take(i as int), per_line as int, after_tag));
    }
    assert(views(fields@).take(i as int) =~= views(fields@));
    r
}

/// The statement that writes one field: a mandatory field always, an
/// optional one only when it is set, read through `deref`.
pub open spec fn write_prop_text(field: FieldView, indent: Seq<char>, deref: Seq<char>) -> Seq<
    char,
> {
    if field.optional {
        indent + "if (value."@ + field.name + ") { SHORT_KEY_VAL("@ + quoted_sv(field.json_name)
            + ", "@ + deref + "value."@ + field.name + "); }\n"@
    } else {
        indent + "SHORT_KEY_VAL("@ + quoted_sv(field.json_name) + ", value."@ + field.name
            + ");\n"@
    }
}

/// The statements that write the fields, in field order.
pub open spec fn write_props_text(fields: Seq<FieldView>, indent: Seq<char>, deref: Seq<char>) -> Seq<
    char,
>
    decreases fields.len(),
{
    if fields.len() == 0 {
        Seq::empty()
    } else {
        write_props_text(fields.drop_last(), indent, deref) + write_prop_text(
            fields.last(),
            indent,
            deref,
        )
    }
}

pub fn create_write_props(fields: &Vec<Field>, indent: &str, deref: &str) -> (r: String)
    ensures
        r@ == write_props_text(views(fields@), indent@, deref@),
{
    let mut r = String::new();
    let mut i: usize = 0;
    while i < fields.len()
        invariant
            i <= fields@.len(),
            r@ == write_props_text(views(fields@).take(i as int), indent@, deref@),
        decreases fields@.len() - i,
    {
        assert(views(fields@).take(i + 1).drop_last() =~= views(fields@).take(i as int));
        let f = &fields[i];
        let ghost before = r@;
        r.append(indent);
        if f.optional {
            r.append("if (value.");
            r.append(f.name.as_str());
            r.append(") { SHORT_KEY_VAL(");
            push_quoted_sv(&mut r, f.json_name.as_str());
            r.append(", ");
            r.append(deref);
            r.append("value.");
            r.append(f.name.as_str());
            r.append("); }\n");
        } else {
            r.append("SHORT_KEY_VAL(");
            push_quoted_sv(&mut r, f.json_name.as_str());
            r.append(", value.");
            r.append(f.name.as_str());
            r.append(");\n");
        }
        assert(r@ =~= before + write_prop_text(f@, indent@, deref@));
        i += 1;
    }
    assert(views(fields@).take(i as int) =~= views(fields@));
    r
}

pub open spec fn deserialize_name_text(name: Seq<char>) -> Seq<char> {
    "deserialize_"@ + name
}

pub fn deserialize_name(name: &str) -> (r: String)
    ensures
        r@ == deserialize_name_text(name@),
{
    let mut r = String::new();
    r.append("deserialize_");
    r.append(name);
    assert(r@ =~= deserialize_name_text(name@));
    r
}

/// The qualifier put before the reader and writer types.
pub open spec fn namespace_prefix(full_ns: bool) -> Seq<char> {
    if full_ns {
        "JsonTypedefCodeGen::"@
    } else {
        Seq::empty()
    }
}

/// The signature of the routine that reads a `name`.
pub open spec fn des_function_text(name: Seq<char>, full_ns: bool) -> Seq<char> {
    "ExpType<"@ + name + "> "@ + deserialize_name_text(name) + "(const "@ + namespace_prefix(
        full_ns,
    ) + "Reader::JsonValue& value)"@
}

pub fn des_function_name(name: &str, full_ns: bool) -> (r: String)
    ensures
        r@ == des_function_text(name@, full_ns),
{
    let mut r = String::new();
    r.append("ExpType<");
    r.append(name);
    r.append("> ");
    let fname = deserialize_name(name);
    r.append(fname.as_str());
    r.append("(const ");
    if full_ns {
        r.append("JsonTypedefCodeGen::");
    }
    r.append("Reader::JsonValue& value)");
    assert(r@ =~= des_function_text(name@, full_ns));
    r
}

pub open spec fn serialize_name_text(name: Seq<char>) -> Seq<char> {
    "serialize_"@ + name
}

pub fn serialize_name(name: &str) -> (r: String)
    ensures
        r@ == serialize_name_text(name@),
{
    let mut r = String::new();
    r.append("serialize_");
    r.append(name);
    assert(r@ =~= serialize_name_text(name@));
    r
}

/// The signature of the routine that writes a `name`.
pub open spec fn ser_function_text(name: Seq<char>, full_ns: bool) -> Seq<char> {
    "ExpType<void> "@ + serialize_name_text(name) + "("@ + namespace_prefix(full_ns)
        + "Writer::Serializer& serializer, const "@ + name + "& value)"@
}

pub fn ser_function_name(name: &str, full_ns: bool) -> (r: String)
    ensures
        r@ == ser_function_text(name@, full_ns),
{
    let mut r = String::new();
    r.append("ExpType<void> ");
    let fname = serialize_name(name);
    r.append(fname.as_str());
    r.append("(");
    if full_ns {
        r.append("JsonTypedefCodeGen::");
    }
    r.append("Writer::Serializer& serializer, const ");
    r.append(name);
    r.append("& value)");
    assert(r@ =~= ser_function_text(name@, full_ns));
    r
}

/// The public prototypes of the routines for `name`: one line for each
/// direction that the configuration asks for, reading first.
pub open spec fn prototype_text(name: Seq<char>, props: PropsView) -> Seq<char> {
    (if props.output.spec_deserialize() {
        "\nJsonTypedefCodeGen::"@ + des_function_text(name, true) + ";"@
    } else {
        Seq::empty()
    }) + (if props.output.spec_serialize() {
        "\nJsonTypedefCodeGen::"@ + ser_function_text(name, true) + ";"@
    } else {
        Seq::empty()
    })
}

pub fn prototype_name(name: &str, cpp_props: &CppProps) -> (r: String)
    ensures
        r@ == prototype_text(name@, cpp_props@),
{
    let output = cpp_props.get_output();
    let mut r = String::new();
    if output.deserialize() {
        r.append("\nJsonTypedefCodeGen::");
        let f = des_function_name(name, true);
        r.append(f.as_str());
        r.append(";");
    }
    if output.serialize() {
        r.append("\nJsonTypedefCodeGen::");
        let f = ser_function_name(name, true);
        r.append(f.as_str());
        r.append(";");
    }
    assert(r@ =~= prototype_text(name@, cpp_props@));
    r
}

/// The public definitions of the routines for `name`, which hand over to
/// the internal routines: one for each direction that the configuration
/// asks for, reading first.
pub open spec fn definition_text(name: Seq<char>, props: PropsView) -> Seq<char> {
    (if props.output.spec_deserialize() {
        "\n"@ + des_function_text(name, true)
            + " {\n  return JsonTypedefCodeGen::Deserialize::Json<"@ + name
            + ">::deserialize(value);\n}\n"@
    } else {
        Seq::empty()
    }) + (if props.output.spec_serialize() {
        "\n"@ + ser_function_text(name, true)
            + " {\n  return JsonTypedefCodeGen::Serialize::Serialize<"@ + name
            + ">::serialize(serializer, value);\n}\n"@
    } else {
        Seq::empty()
    })
}

pub fn get_complete_definition(name: &str, cpp_props: &CppProps) -> (r: String)
    ensures
        r@ == definition_text(name@, cpp_props@),
{
    let output = cpp_props.get_output();
    let mut r = String::new();
    if output.deserialize() {
        r.append("\n");
        let f = des_function_name(name, true);
        r.append(f.as_str());
        r.append(" {\n  return JsonTypedefCodeGen::Deserialize::Json<");
        r.append(name);
        r.append(">::deserialize(value);\n}\n");
    }
    if output.serialize() {
        r.append("\n");
        let f = ser_function_name(name, true);
        r.append(f.as_str());
        r.append(" {\n  return JsonTypedefCodeGen::Serialize::Serialize<");
        r.append(name);
        r.append(">::serialize(serializer, value);\n}\n");
    }
    assert(r@ =~= definition_text(name@, cpp_props@));
    r
}

/// `count` copies of `, false`.
pub open spec fn more_falses(count: nat) -> Seq<char>
    decreases count,
{
    if count == 0 {
        Seq::empty()
    } else {
        more_falses((count - 1) as nat) + ", false"@
    }
}

/// The declaration of the array that records which positions of a table of
/// `sz` names were seen, all unseen. It has one initial value even when
/// `sz` is 0.
pub open spec fn visited_array_text(sz: nat) -> Seq<char> {
    "std::array<bool, "@ + decimal(sz) + "> visited = { false"@ + more_falses(
        if sz <= 1 {
            0
        } else {
            (sz - 1) as nat
        },
    ) + " };"@
}

pub fn create_visited_array(sz: usize) -> (r: String)
    ensures
        r@ == visited_array_text(sz as nat),
{
    let mut falses = String::new();
    if sz > 1 {
        let mut i: usize = 0;
        while i < sz - 1
            invariant
                sz > 1,
                i <= sz - 1,
                falses@ == more_falses(i as nat),
            decreases sz - 1 - i,
        {
            falses.append(", false");
            i += 1;
        }
    }
    let mut r = String::new();
    r.append("std::array<bool, ");
    push_decimal(&mut r, sz);
    r.append("> visited = { false");
    r.append(falses.as_str());
    r.append(" };");
    assert(r@ =~= visited_array_text(sz as nat));
    r
}

} // verus!
