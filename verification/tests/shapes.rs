use target_cpp::cpp_types::{
    CppAlias, CppArray, CppDict, CppDiscriminator, CppDiscriminatorVariant, CppEnum, CppNullable,
    CppStruct, CppTypes, Primitives,
};
use target_cpp::props::{CppProps, Dictionary, Output};
use target_cpp::schema::{DiscriminatorVariantInfo, EnumMember, Field, Metadata, MetadataEntry};
use target_cpp::Target;

fn field(name: &str, json: &str, ty: &str, optional: bool) -> Field {
    Field {
        metadata: Metadata::default(),
        name: name.to_string(),
        json_name: json.to_string(),
        optional,
        type_: ty.to_string(),
    }
}

fn member(name: &str, json: &str) -> EnumMember {
    EnumMember { name: name.to_string(), json_value: json.to_string() }
}

fn variant(ty: &str, tag: &str) -> DiscriminatorVariantInfo {
    DiscriminatorVariantInfo {
        variant_type: ty.to_string(),
        field_name: tag.to_string(),
        tag_value: tag.to_string(),
    }
}

fn namespaced() -> CppProps {
    let mut props = CppProps::default();
    props.namespace = Some("ns".to_string());
    props
}

fn on_off() -> CppEnum {
    CppEnum::new("Switch", vec![member("On", "ON"), member("Off", "OFF")])
}

fn a_and_b() -> CppStruct {
    CppStruct::new(
        "Pair",
        vec![field("a", "a", "int32_t", false), field("b", "b", "std::string", true)],
        vec![0, 1],
    )
}

fn shape() -> CppDiscriminator {
    CppDiscriminator::new(
        "Shape",
        vec![variant("ShapeA", "a"), variant("ShapeB", "b")],
        "kind",
        "kind_",
        vec![3, 4],
    )
}

fn shape_a() -> CppDiscriminatorVariant {
    CppDiscriminatorVariant::new(
        "ShapeA",
        vec![field("x", "x", "int32_t", false)],
        "kind_",
        "kind",
        "a",
        "Shape",
        vec![0],
    )
}

#[test]
fn primitive_names() {
    assert_eq!(Primitives::Bool.cpp_name(), "bool");
    assert_eq!(Primitives::Int8.cpp_name(), "int8_t");
    assert_eq!(Primitives::Uint8.cpp_name(), "uint8_t");
    assert_eq!(Primitives::Int16.cpp_name(), "int16_t");
    assert_eq!(Primitives::Uint16.cpp_name(), "uint16_t");
    assert_eq!(Primitives::Int32.cpp_name(), "int32_t");
    assert_eq!(Primitives::Uint32.cpp_name(), "uint32_t");
    assert_eq!(Primitives::Float32.cpp_name(), "float");
    assert_eq!(Primitives::Float64.cpp_name(), "double");
    assert_eq!(Primitives::String.cpp_name(), "std::string");
}

#[test]
fn primitive_read_expressions() {
    assert_eq!(Primitives::Bool.read_primitive("value"), "value.read_bool()");
    assert_eq!(Primitives::Int16.read_primitive("v"), "v.read_i64()");
    assert_eq!(Primitives::Uint32.read_primitive("v"), "v.read_u64()");
    assert_eq!(Primitives::Float32.read_primitive("v"), "v.read_double()");
    assert_eq!(Primitives::String.read_primitive("v"), "v.read_str()");
}

#[test]
fn primitive_transforms() {
    assert_eq!(Primitives::Bool.cpp_reader_transform(), "");
    assert_eq!(Primitives::Float64.cpp_reader_transform(), "");
    assert_eq!(Primitives::String.cpp_reader_transform(), "");
    assert_eq!(
        Primitives::Int8.cpp_reader_transform(),
        ".transform([](const auto val) {\n  return (int8_t)val;\n})"
    );
    assert_eq!(
        Primitives::Float32.cpp_reader_transform(),
        ".transform([](const auto val) {\n  return (float)val;\n})"
    );
    assert_eq!(
        Primitives::String.cpp_data_transform(),
        "\n        .transform([](auto v) { return std::string(v); })"
    );
    assert_eq!(Primitives::Int32.cpp_data_transform(), "");
}

#[test]
fn primitive_internal_function() {
    assert_eq!(
        Primitives::Uint16.get_internal_function(),
        "\n  template<> struct Json<uint16_t> {\n    static ExpType<uint16_t> deserialize(const Reader::JsonValue& value) {\n      return value.read_u64().transform([](const auto val) {\n  return (uint16_t)val;\n});\n    }\n  };\n"
    );
    assert_eq!(
        Primitives::Bool.get_internal_function(),
        "\n  template<> struct Json<bool> {\n    static ExpType<bool> deserialize(const Reader::JsonValue& value) {\n      return value.read_bool();\n    }\n  };\n"
    );
}

#[test]
fn alias_renders_as_using() {
    let alias = CppAlias::new("Names", "std::vector<std::string>");
    assert_eq!(alias.format(), "using Names = std::vector<std::string>;\n");
    assert_eq!(alias.get_name(), "Names");
    assert!(alias.sub_matches("std::vector<std::string>"));
    assert!(!alias.sub_matches("std::vector<int>"));
    assert!(alias.same(&CppAlias::new("Names", "std::vector<std::string>")));
    assert!(!alias.same(&CppAlias::new("Names", "int")));
    assert!(!alias.same(&CppAlias::new("Other", "std::vector<std::string>")));
}

#[test]
fn enum_exact_match_tables() {
    let e = on_off();
    assert_eq!(e.get_name(), "Switch");
    assert_eq!(CppEnum::get_prefix(), "enum class");
    assert_eq!(e.declare(), "\nenum class Switch: int {\n  On,\n  Off,\n};\n");
    let props = CppProps::default();
    assert_eq!(
        e.get_common_internal_code(&props),
        "\n  template<> struct Common<Switch> {\n    static constexpr std::array<std::string_view, 2> entries = {{\n        \"ON\"sv, \"OFF\"sv\n      }};\n  };\n"
    );
    let des = e.get_des_internal_code(&props);
    assert!(des.contains("template<> struct Json<Switch>"));
    assert!(des.contains("get_enum_index(Common<Switch>::entries, text, \"Switch\"sv)"));
    assert!(des.contains("static_cast<Switch>(idx)"));
    let index_code = CppEnum::get_enum_index_code();
    // the lookup compares whole strings, so "on" does not find "ON"
    assert!(index_code.contains("if (entries[idx] == value) {\n        return static_cast<int>(idx);"));
    assert!(index_code.contains("return makeJsonError(JsonErrorTypes::InvalidValue,"));
    assert!(index_code.contains("std::format(\"invalid value \\\"{}\\\" for {}\", value, name)"));
}

#[test]
fn enum_literal_order_is_member_order() {
    let members: Vec<EnumMember> = ["A", "B", "C", "D", "E", "F", "G", "H", "I"]
        .iter()
        .map(|n| member(&n.to_lowercase(), n))
        .collect();
    let e = CppEnum::new("Letters", members);
    assert_eq!(
        e.declare(),
        "\nenum class Letters: int {\n  a,\n  b,\n  c,\n  d,\n  e,\n  f,\n  g,\n  h,\n  i,\n};\n"
    );
    assert!(e.get_common_internal_code(&CppProps::default()).contains(
        "std::array<std::string_view, 9> entries = {{\n        \"A\"sv, \"B\"sv, \"C\"sv, \"D\"sv,\n        \"E\"sv, \"F\"sv, \"G\"sv, \"H\"sv,\n        \"I\"sv\n      }};"
    ));
}

#[test]
fn enum_uses_namespaced_name() {
    let e = on_off();
    let props = namespaced();
    assert!(e.get_common_internal_code(&props).starts_with("\n  template<> struct Common<ns::Switch> {"));
    assert!(e.get_des_internal_code(&props).contains("Json<ns::Switch>"));
    assert!(e.get_des_internal_code(&props).contains("\"Switch\"sv"));
    assert!(e.get_ser_internal_code(&props).contains("Serialize<ns::Switch>"));
    assert_eq!(
        e.prototype(&{
            let mut p = CppProps::default();
            p.output = Output::Deserialize;
            p
        }),
        "\nJsonTypedefCodeGen::ExpType<Switch> deserialize_Switch(const JsonTypedefCodeGen::Reader::JsonValue& value);"
    );
}

#[test]
fn enum_same_compares_structure() {
    assert!(on_off().same(&on_off()));
    assert!(!on_off().same(&CppEnum::new("Switch", vec![member("Off", "OFF"), member("On", "ON")])));
    assert!(!on_off().same(&CppEnum::new("Switch", vec![member("On", "ON")])));
    assert!(!on_off().same(&CppEnum::new("Other", vec![member("On", "ON"), member("Off", "OFF")])));
    assert!(!on_off().same(&CppEnum::new("Switch", vec![member("On", "on"), member("Off", "OFF")])));
}

#[test]
fn struct_round_trip_tables() {
    let s = a_and_b();
    assert_eq!(s.get_name(), "Pair");
    assert_eq!(CppStruct::get_prefix(), "struct");
    assert_eq!(s.declare(), "\nstruct Pair {\n  int32_t a;\n  std::string b;\n};\n");
    let props = CppProps::default();
    assert_eq!(
        s.get_common_internal_code(&props),
        "\n  template<> struct Common<Pair> {\n    static constexpr std::array<std::string_view, 2> entries = {{\n        \"a\"sv, \"b\"sv\n      }};\n  };\n"
    );
    let des = s.get_des_internal_code(&props);
    assert!(des.contains("static constexpr std::array<int, 1> mandatory_indices = { 0 };"));
    assert!(des.contains("std::array<bool, 2> visited = { false, false };"));
    assert!(des.contains("get_value_index(Entries::entries, key, \"Pair\"sv)"));
    assert!(des.contains("mark_visited(visited, idx, key, \"Pair\"sv)"));
    assert!(des.contains(
        "switch (idx) {\n                  case 0: return deserialize_and_set(result.a, val);\n                  case 1: return deserialize_and_set(result.b, val);\n          }"
    ));
    assert!(des.contains("check_mandatory(visited, mandatory_indices, Entries::entries, \"Pair\"sv)"));
    let ser = s.get_ser_internal_code(&props);
    assert!(ser.contains(
        "      SHORT_KEY_VAL(\"a\"sv, value.a);\n      if (value.b) { SHORT_KEY_VAL(\"b\"sv, value.b); }\n"
    ));
}

#[test]
fn struct_same_compares_structure() {
    assert!(a_and_b().same(&a_and_b()));
    let other_indices = CppStruct::new(
        "Pair",
        vec![field("a", "a", "int32_t", false), field("b", "b", "std::string", true)],
        vec![0, 2],
    );
    assert!(!a_and_b().same(&other_indices));
    let other_optional = CppStruct::new(
        "Pair",
        vec![field("a", "a", "int32_t", false), field("b", "b", "std::string", false)],
        vec![0, 1],
    );
    assert!(!a_and_b().same(&other_optional));
    let mut annotated = field("a", "a", "int32_t", false);
    annotated.metadata = Metadata {
        entries: vec![MetadataEntry { key: "description".to_string(), value: "\"x\"".to_string() }],
    };
    let other_meta =
        CppStruct::new("Pair", vec![annotated, field("b", "b", "std::string", true)], vec![0, 1]);
    assert!(!a_and_b().same(&other_meta));
}

#[test]
fn discriminator_dispatch_tables() {
    let d = shape();
    assert_eq!(d.get_name(), "Shape");
    assert_eq!(CppDiscriminator::get_prefix(), "struct");
    assert!(d.is_nameable());
    let props = CppProps::default();
    assert_eq!(
        d.get_common_internal_code(&props),
        "\n  template<> struct Common<Shape> {\n    static constexpr std::array<std::string_view, 2> entries = {{\n        \"a\"sv, \"b\"sv\n      }};\n  };\n"
    );
    let des = d.get_des_internal_code(&props);
    assert!(des.contains("object.read_key(\"kind\"sv)"));
    assert!(des.contains("get_tag_index(entries, text, \"Shape\"sv)"));
    assert!(des.contains("return makeJsonError(JsonErrorTypes::InvalidValue, \"Shape\"sv);"));
    assert!(des.contains(
        "switch (idx) {\n        case 0: return JsonTypedefCodeGen::Deserialize::Json<ShapeA>::deserialize(object).transform(cast);\n        case 1: return JsonTypedefCodeGen::Deserialize::Json<ShapeB>::deserialize(object).transform(cast);\n        }"
    ));
    let decl = d.declare();
    assert!(decl.starts_with("\nstruct Shape {\n"));
    assert!(decl.contains("using Variants = std::variant<\n    ShapeA, ShapeB>;"));
    assert!(decl.contains("enum class Types : int {\n    A = 0,\n    B = 1\n  };"));
    let ser = d.get_ser_internal_code(&props);
    assert!(ser.contains(
        "    case Types::A:\n      SHORT_EXP(serialize(serializer, *value.get<Types::A>()));\n    case Types::B:\n      SHORT_EXP(serialize(serializer, *value.get<Types::B>()));\n"
    ));
    assert!(ser.contains("SHORT_KEY_VAL(\"kind\"sv,"));
}

#[test]
fn discriminator_variant_tables_start_with_the_tag() {
    let v = shape_a();
    assert_eq!(v.get_name(), "ShapeA");
    assert_eq!(CppDiscriminatorVariant::get_prefix(), "struct");
    assert_eq!(v.declare(), "\nstruct ShapeA {\n  int32_t x;\n};\n");
    let props = CppProps::default();
    assert_eq!(
        v.get_common_internal_code(&props),
        "\n  template<> struct Common<ShapeA> {\n    static constexpr std::array<std::string_view, 2> entries = {{\n        \"kind\"sv, \"x\"sv\n      }};\n  };\n"
    );
    let des = v.get_des_internal_code(&props);
    assert!(des.contains("static constexpr std::array<int, 1> mandatory_indices = { 1 };"));
    assert!(des.contains("std::array<bool, 2> visited = { false, false };"));
    assert!(des.contains(
        "case 0: return {};\n                  case 1: return deserialize_and_set(result.x, val);"
    ));
    assert!(v.get_ser_internal_code(&props).contains("    SHORT_KEY_VAL(\"x\"sv, value.x);\n"));
}

#[test]
fn discriminator_variant_list_wraps_long_lines() {
    let long_a = format!("Shape{}", "A".repeat(35));
    let long_b = format!("Shape{}", "B".repeat(35));
    let long_c = format!("Shape{}", "C".repeat(29));
    let d = CppDiscriminator::new(
        "Shape",
        vec![variant(&long_a, "a"), variant(&long_b, "b"), variant(&long_c, "c")],
        "kind",
        "kind",
        vec![0, 1, 2],
    );
    let decl = d.declare();
    // 4 + 40 + 40 is beyond 78, so the second name starts a line; 4 + 40 + 34
    // is exactly 78, so the third stays on it.
    assert!(decl.contains(&format!(
        "std::variant<\n    {},\n    {}, {}>;",
        long_a, long_b, long_c
    )));
    let longer_c = format!("Shape{}", "C".repeat(30));
    let e = CppDiscriminator::new(
        "Shape",
        vec![variant(&long_a, "a"), variant(&long_b, "b"), variant(&longer_c, "c")],
        "kind",
        "kind",
        vec![0, 1, 2],
    );
    assert!(e.declare().contains(&format!(
        "std::variant<\n    {},\n    {},\n    {}>;",
        long_a, long_b, longer_c
    )));
}

#[test]
fn discriminator_variant_list_keeps_short_names_on_one_line() {
    let d = CppDiscriminator::new(
        "S",
        vec![variant("SOne", "1"), variant("STwo", "2"), variant("SThree", "3")],
        "t",
        "t",
        vec![0, 1, 2],
    );
    let decl = d.declare();
    assert!(decl.contains("std::variant<\n    SOne, STwo, SThree>;"));
    assert!(decl.contains("One = 0,\n    Two = 1,\n    Three = 2\n"));
}

#[test]
fn discriminator_with_short_variant_name_is_not_nameable() {
    let d = CppDiscriminator::new("Shape", vec![variant("Sh", "a")], "kind", "kind", vec![0]);
    assert!(!d.is_nameable());
    let e = CppDiscriminator::new("é", vec![variant("ab", "a")], "kind", "kind", vec![0]);
    assert!(e.is_nameable());
    let f = CppDiscriminator::new("a", vec![variant("é", "a")], "kind", "kind", vec![0]);
    assert!(!f.is_nameable());
}

#[test]
fn discriminator_same_compares_structure() {
    assert!(shape().same(&shape()));
    let reordered = CppDiscriminator::new(
        "Shape",
        vec![variant("ShapeB", "b"), variant("ShapeA", "a")],
        "kind",
        "kind_",
        vec![3, 4],
    );
    assert!(!shape().same(&reordered));
    assert!(shape_a().same(&shape_a()));
    let other_tag = CppDiscriminatorVariant::new(
        "ShapeA",
        vec![field("x", "x", "int32_t", false)],
        "kind_",
        "kind",
        "b",
        "Shape",
        vec![0],
    );
    assert!(!shape_a().same(&other_tag));
}

#[test]
fn containers_compare_structure() {
    let a = CppArray::new(1, "std::vector<int32_t>".to_string());
    assert!(a.same(&CppArray::new(1, "std::vector<int32_t>".to_string())));
    assert!(!a.same(&CppArray::new(2, "std::vector<int32_t>".to_string())));
    let d = CppDict::new(Some(1), "m".to_string());
    assert!(d.same(&CppDict::new(Some(1), "m".to_string())));
    assert!(!d.same(&CppDict::new(None, "m".to_string())));
    assert!(!d.same(&CppDict::new(Some(1), "n".to_string())));
    let n = CppNullable::new(0, "Foo".to_string());
    assert!(n.same(&CppNullable::new(0, "Foo".to_string())));
    assert!(!n.same(&CppNullable::new(0, "Bar".to_string())));
    assert_eq!(n.pointer_name(), "std::unique_ptr<Foo>");
}

#[test]
fn set_of_keys_is_not_available() {
    let mut props = CppProps::default();
    let text = CppDict::get_set_internal_function(&props);
    assert!(text.contains("template<> struct Json<std::unordered_set<std::string>>"));
    assert!(text.contains("makeJsonError(JsonErrorTypes::Unimplemented, \"not ready yet\"sv)"));
    props.dictionary = Dictionary::Ordered;
    assert!(CppDict::get_set_internal_function(&props)
        .contains("template<> struct Json<std::set<std::string>>"));
}

#[test]
fn forward_declaration_need_by_kind() {
    let shapes = vec![
        (CppTypes::Incomplete, None),
        (CppTypes::Primitive(Primitives::Bool), None),
        (CppTypes::Array(CppArray::new(0, "v".to_string())), None),
        (CppTypes::Dictionary(CppDict::new(None, "s".to_string())), None),
        (CppTypes::Nullable(CppNullable::new(0, "x".to_string())), None),
        (CppTypes::Alias(CppAlias::new("A", "b")), None),
        (CppTypes::Enum(on_off()), Some("enum class")),
        (CppTypes::Struct(a_and_b()), Some("struct")),
        (CppTypes::Discriminator(shape()), Some("struct")),
        (CppTypes::DiscriminatorVariant(shape_a()), Some("struct")),
    ];
    for (shape, prefix) in shapes {
        assert_eq!(shape.type_prefix(), prefix);
        assert_eq!(shape.needs_forward_declaration(), prefix.is_some());
    }
}

#[test]
fn shapes_of_different_kinds_differ() {
    assert!(CppTypes::Incomplete.same(&CppTypes::Incomplete));
    assert!(!CppTypes::Incomplete.same(&CppTypes::Primitive(Primitives::Bool)));
    assert!(CppTypes::Primitive(Primitives::Bool).same(&CppTypes::Primitive(Primitives::Bool)));
    assert!(!CppTypes::Primitive(Primitives::Bool).same(&CppTypes::Primitive(Primitives::Int8)));
    assert!(!CppTypes::Struct(a_and_b()).same(&CppTypes::Enum(on_off())));
    assert!(CppTypes::Struct(a_and_b()).same(&CppTypes::Struct(a_and_b())));
}

#[test]
fn target_names_its_file() {
    let target = Target::new(CppProps::default(), "schema".to_string());
    assert_eq!(target.file_name(), "schema.cpp");
    assert!(target.props().namespace.is_none());
}

#[test]
fn string_reader_copies_the_borrowed_view() {
    assert_eq!(
        Primitives::String.get_internal_function(),
        "\n  template<> struct Json<std::string> {\n    static ExpType<std::string> deserialize(const Reader::JsonValue& value) {\n      return value.read_str()\n        .transform([](auto v) { return std::string(v); });\n    }\n  };\n"
    );
}

#[test]
fn shape_rendering_dispatches_by_kind() {
    let state = target_cpp::state::CppState::default();
    let props = CppProps::default();
    let e = CppTypes::Enum(on_off());
    assert_eq!(e.declare(&state, &props), Some(on_off().declare()));
    assert_eq!(e.prototype(&state, &props), Some(on_off().prototype(&props)));
    assert_eq!(
        e.get_common_internal_code(&state, &props),
        Some(on_off().get_common_internal_code(&props))
    );
    assert_eq!(e.get_des_internal_code(&state, &props), Some(on_off().get_des_internal_code(&props)));
    assert_eq!(e.get_ser_internal_code(&state, &props), Some(on_off().get_ser_internal_code(&props)));
    assert_eq!(
        e.get_internal_code(&state, &props),
        Some(format!(
            "{}{}{}",
            on_off().get_common_internal_code(&props),
            on_off().get_des_internal_code(&props),
            on_off().get_ser_internal_code(&props)
        ))
    );
    let s = CppTypes::Struct(a_and_b());
    assert_eq!(s.declare(&state, &props), Some(a_and_b().declare()));
    let d = CppTypes::Discriminator(shape());
    assert_eq!(d.declare(&state, &props), Some(shape().declare()));
    let v = CppTypes::DiscriminatorVariant(shape_a());
    assert_eq!(v.declare(&state, &props), Some(shape_a().declare()));
    assert_eq!(v.get_des_internal_code(&state, &props), Some(shape_a().get_des_internal_code(&props)));

    let alias = CppTypes::Alias(CppAlias::new("Names", "std::vector<int32_t>"));
    assert_eq!(alias.declare(&state, &props), None);
    assert_eq!(
        alias.prototype(&state, &props),
        Some(target_cpp::cpp_types::shared::prototype_name("Names", &props))
    );
    assert_eq!(
        alias.define(&state, &props),
        Some(target_cpp::cpp_types::shared::get_complete_definition("Names", &props))
    );
    assert_eq!(alias.get_internal_code(&state, &props), None);

    for plain in [
        CppTypes::Incomplete,
        CppTypes::Array(CppArray::new(0, "std::vector<bool>".to_string())),
        CppTypes::Dictionary(CppDict::new(None, "std::set<std::string>".to_string())),
    ] {
        assert_eq!(plain.declare(&state, &props), None);
        assert_eq!(plain.prototype(&state, &props), None);
        assert_eq!(plain.define(&state, &props), None);
        assert_eq!(plain.get_common_internal_code(&state, &props), None);
        assert_eq!(plain.get_des_internal_code(&state, &props), None);
        assert_eq!(plain.get_ser_internal_code(&state, &props), None);
        assert_eq!(plain.get_internal_code(&state, &props), None);
    }
}

#[test]
fn scalar_routine_is_emitted_only_for_reading() {
    let state = target_cpp::state::CppState::default();
    let mut props = CppProps::default();
    let p = CppTypes::Primitive(Primitives::Int8);
    assert_eq!(p.get_internal_code(&state, &props), Some(Primitives::Int8.get_internal_function()));
    assert_eq!(p.prototype(&state, &props), None);
    props.output = Output::Serialize;
    assert_eq!(p.get_internal_code(&state, &props), None);
}

#[test]
fn nullable_is_emitted_under_the_pointer_type() {
    let state = target_cpp::state::CppState::default();
    let n = CppNullable::new(0, "Foo".to_string());
    assert_eq!(n.get_full_name(&state), "std::unique_ptr<Foo>");
    assert_eq!(
        n.prototype(&state),
        "\nJsonTypedefCodeGen::ExpType<std::unique_ptr<Foo>> deserialize_Nullablestd::unique_ptr<Foo>(const JsonTypedefCodeGen::Reader::JsonValue& value);"
    );
    assert_eq!(
        n.define(&state),
        "\nExpType<std::unique_ptr<Foo>> deserialize_Nullablestd::unique_ptr<Foo>(const Reader::JsonValue& value) {\n  return JsonTypedefCodeGen::Deserialize::Json<std::unique_ptr<Foo>>::deserialize(value);\n}\n"
    );
}
