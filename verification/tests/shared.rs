use target_cpp::cpp_types::shared::{
    create_entry_array, create_field_entries, create_mandatory_indices, create_struct_from_fields,
    create_switch_clauses, create_visited_array, create_write_props, des_function_name,
    deserialize_name, get_complete_definition, get_mandatory_indices, prototype_name,
    ser_function_name, serialize_name,
};
use target_cpp::props::{CppProps, Output};
use target_cpp::schema::{Field, Metadata};

fn field(name: &str, json: &str, ty: &str, optional: bool) -> Field {
    Field {
        metadata: Metadata::default(),
        name: name.to_string(),
        json_name: json.to_string(),
        optional,
        type_: ty.to_string(),
    }
}

fn sample_fields() -> Vec<Field> {
    vec![
        field("a", "a", "int32_t", false),
        field("b", "b", "std::unique_ptr<std::string>", true),
        field("c_", "c", "bool", false),
    ]
}

#[test]
fn visited_array_has_one_slot_per_position() {
    assert_eq!(create_visited_array(0), "std::array<bool, 0> visited = { false };");
    assert_eq!(create_visited_array(1), "std::array<bool, 1> visited = { false };");
    assert_eq!(create_visited_array(2), "std::array<bool, 2> visited = { false, false };");
    assert_eq!(
        create_visited_array(4),
        "std::array<bool, 4> visited = { false, false, false, false };"
    );
}

#[test]
fn mandatory_indices_are_the_positions_of_required_fields() {
    assert_eq!(get_mandatory_indices(&sample_fields(), 0), vec![0, 2]);
    assert_eq!(get_mandatory_indices(&sample_fields(), 1), vec![1, 3]);
    assert_eq!(get_mandatory_indices(&Vec::new(), 1), Vec::<usize>::new());
    assert_eq!(
        create_mandatory_indices(&sample_fields(), 0),
        "static constexpr std::array<int, 2> mandatory_indices = { 0, 2 };"
    );
    assert_eq!(
        create_mandatory_indices(&sample_fields(), 1),
        "static constexpr std::array<int, 2> mandatory_indices = { 1, 3 };"
    );
}

#[test]
fn mandatory_indices_of_optional_fields_only() {
    let fields = vec![field("x", "x", "int", true)];
    assert_eq!(
        create_mandatory_indices(&fields, 0),
        "static constexpr std::array<int, 0> mandatory_indices = {  };"
    );
}

#[test]
fn struct_from_fields_lists_type_and_name() {
    assert_eq!(
        create_struct_from_fields("P", &sample_fields()),
        "\nstruct P {\n  int32_t a;\n  std::unique_ptr<std::string> b;\n  bool c_;\n};\n"
    );
    assert_eq!(create_struct_from_fields("E", &Vec::new()), "\nstruct E {\n};\n");
}

#[test]
fn switch_clauses_are_numbered_from_the_offset() {
    assert_eq!(
        create_switch_clauses(&sample_fields(), 0),
        "\n                  case 0: return deserialize_and_set(result.a, val);\
         \n                  case 1: return deserialize_and_set(result.b, val);\
         \n                  case 2: return deserialize_and_set(result.c_, val);"
    );
    assert_eq!(
        create_switch_clauses(&vec![field("x", "x", "int", false)], 1),
        "\n                  case 1: return deserialize_and_set(result.x, val);"
    );
    assert_eq!(create_switch_clauses(&Vec::new(), 0), "");
}

#[test]
fn entry_array_frames_the_entries() {
    assert_eq!(
        create_entry_array("\"a\"sv, \"b\"sv", 2),
        "static constexpr std::array<std::string_view, 2> entries = {{\n        \"a\"sv, \"b\"sv\n      }};"
    );
}

#[test]
fn field_entries_break_lines() {
    let fields: Vec<Field> =
        ["a", "b", "c", "d", "e", "f"].iter().map(|n| field(n, n, "int", false)).collect();
    assert_eq!(
        create_field_entries(&fields, 4, false),
        "\"a\"sv, \"b\"sv, \"c\"sv, \"d\"sv,\n        \"e\"sv, \"f\"sv"
    );
    assert_eq!(
        create_field_entries(&fields, 5, true),
        ", \"a\"sv, \"b\"sv, \"c\"sv, \"d\"sv, \"e\"sv,\n        \"f\"sv"
    );
    assert_eq!(create_field_entries(&Vec::new(), 4, false), "");
}

#[test]
fn write_props_guard_optional_fields() {
    assert_eq!(
        create_write_props(&sample_fields(), "      ", ""),
        "      SHORT_KEY_VAL(\"a\"sv, value.a);\n      if (value.b) { SHORT_KEY_VAL(\"b\"sv, value.b); }\n      SHORT_KEY_VAL(\"c\"sv, value.c_);\n"
    );
    assert_eq!(
        create_write_props(&sample_fields(), "    ", "*"),
        "    SHORT_KEY_VAL(\"a\"sv, value.a);\n    if (value.b) { SHORT_KEY_VAL(\"b\"sv, *value.b); }\n    SHORT_KEY_VAL(\"c\"sv, value.c_);\n"
    );
}

#[test]
fn routine_names_and_signatures() {
    assert_eq!(deserialize_name("Foo"), "deserialize_Foo");
    assert_eq!(serialize_name("Foo"), "serialize_Foo");
    assert_eq!(
        des_function_name("Foo", false),
        "ExpType<Foo> deserialize_Foo(const Reader::JsonValue& value)"
    );
    assert_eq!(
        des_function_name("Foo", true),
        "ExpType<Foo> deserialize_Foo(const JsonTypedefCodeGen::Reader::JsonValue& value)"
    );
    assert_eq!(
        ser_function_name("Foo", false),
        "ExpType<void> serialize_Foo(Writer::Serializer& serializer, const Foo& value)"
    );
    assert_eq!(
        ser_function_name("Foo", true),
        "ExpType<void> serialize_Foo(JsonTypedefCodeGen::Writer::Serializer& serializer, const Foo& value)"
    );
}

#[test]
fn prototypes_follow_output() {
    let mut props = CppProps::default();
    let des = "\nJsonTypedefCodeGen::ExpType<Foo> deserialize_Foo(const JsonTypedefCodeGen::Reader::JsonValue& value);";
    let ser = "\nJsonTypedefCodeGen::ExpType<void> serialize_Foo(JsonTypedefCodeGen::Writer::Serializer& serializer, const Foo& value);";
    assert_eq!(prototype_name("Foo", &props), format!("{}{}", des, ser));
    props.output = Output::Deserialize;
    assert_eq!(prototype_name("Foo", &props), des);
    props.output = Output::Serialize;
    assert_eq!(prototype_name("Foo", &props), ser);
}

#[test]
fn definitions_follow_output() {
    let mut props = CppProps::default();
    let des = "\nExpType<Foo> deserialize_Foo(const JsonTypedefCodeGen::Reader::JsonValue& value) {\n  return JsonTypedefCodeGen::Deserialize::Json<Foo>::deserialize(value);\n}\n";
    let ser = "\nExpType<void> serialize_Foo(JsonTypedefCodeGen::Writer::Serializer& serializer, const Foo& value) {\n  return JsonTypedefCodeGen::Serialize::Serialize<Foo>::serialize(serializer, value);\n}\n";
    assert_eq!(get_complete_definition("Foo", &props), format!("{}{}", des, ser));
    props.output = Output::Deserialize;
    assert_eq!(get_complete_definition("Foo", &props), des);
    props.output = Output::Serialize;
    assert_eq!(get_complete_definition("Foo", &props), ser);
}
