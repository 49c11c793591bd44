use target_cpp::cpp_snippets::{
    ARRAY_CODE, ENUM_INDEX_CODE, INTERNAL_CODE_FOOTER, INTERNAL_CODE_HEADER, NULLABLE_CODE,
    RAW_VALUE_CODE, VALUE_INDEX_CODE,
};
use target_cpp::props::{CppProps, Guard, Output};
use target_cpp::schema::{DiscriminatorVariantInfo, EnumMember, Expr, Field, Metadata};
use target_cpp::state::CppState;

fn field(name: &str, ty: &str, optional: bool) -> Field {
    Field {
        metadata: Metadata::default(),
        name: name.to_string(),
        json_name: name.to_string(),
        optional,
        type_: ty.to_string(),
    }
}

fn member(name: &str, json: &str) -> EnumMember {
    EnumMember { name: name.to_string(), json_value: json.to_string() }
}

fn variant(ty: &str, tag: &str) -> DiscriminatorVariantInfo {
    DiscriminatorVariantInfo {
        variant_type: ty.to_string(),
        field_name: tag.to_string(),
        tag_value: tag.to_string(),
    }
}

fn meta() -> Metadata {
    Metadata::default()
}

fn count(text: &str, part: &str) -> usize {
    text.matches(part).count()
}

/// Declares a small schema: a struct that refers to an enum and a
/// discriminator which are defined after it.
fn ingest(props: &CppProps) -> CppState {
    let mut st = CppState::default();
    let int32 = st.parse_primitive(Expr::Int32, props, meta());
    let text = st.parse_primitive(Expr::String, props, meta());
    let maybe_text = st.parse_primitive(Expr::NullableOf(text), props, meta());
    let numbers = st.parse_primitive(Expr::ArrayOf(int32.clone()), props, meta());
    assert!(st.try_parse_struct(
        "Root",
        vec![
            field("a", &int32, false),
            field("b", &maybe_text, true),
            field("numbers", &numbers, false),
            field("state", "Switch", false),
            field("shape", "Shape", false),
        ],
        meta()
    ));
    assert!(st.try_parse_enum("Switch", vec![member("On", "ON"), member("Off", "OFF")], meta()));
    assert!(st.try_parse_enum("Level", vec![member("Low", "low"), member("High", "high")], meta()));
    assert!(st.try_parse_discriminator(
        "Shape",
        vec![variant("ShapeA", "a"), variant("ShapeB", "b")],
        "kind",
        "kind",
        meta()
    ));
    assert!(st.try_parse_discriminator_variant(
        "ShapeA",
        vec![field("x", &int32, false)],
        "kind",
        "kind",
        "a",
        "Shape",
        meta()
    ));
    assert!(st.try_parse_discriminator_variant("ShapeB", vec![], "kind", "kind", "b", "Shape", meta()));
    assert!(st.try_parse_alias("Numbers", &numbers, meta()));
    st
}

#[test]
fn empty_state_renders_no_sections() {
    let st = CppState::default();
    let props = CppProps::default();
    assert_eq!(st.write_forward_declarations(), "");
    assert_eq!(st.write_alias(), "");
    assert_eq!(st.declare(&props), "");
    assert_eq!(
        st.write_internal_code(&props),
        format!("{}{}", INTERNAL_CODE_HEADER, INTERNAL_CODE_FOOTER)
    );
    assert_eq!(
        st.write_include_files(&props),
        "#include <json_data.hpp>\n#include <json_reader.hpp>\n#include <json_writer.hpp>\n"
    );
    assert_eq!(
        st.write_src_include_files(&props),
        "#define IMPL_DESERIALIZE\n#include <deserialize.hpp>\n#include <serialize.hpp>\n"
    );
}

#[test]
fn forward_declarations_in_registry_order() {
    let st = ingest(&CppProps::default());
    assert_eq!(
        st.write_forward_declarations(),
        "\n// forward declarations\nenum class Switch;\nstruct Shape;\nstruct Root;\nenum class Level;\nstruct ShapeA;\nstruct ShapeB;\n"
    );
}

#[test]
fn aliases_section() {
    let st = ingest(&CppProps::default());
    assert_eq!(st.write_alias(), "\n// aliases\nusing Numbers = std::vector<int32_t>;\n");
}

#[test]
fn declarations_in_registry_order_each_once() {
    let st = ingest(&CppProps::default());
    assert!(st.is_declarable());
    let text = st.declare(&CppProps::default());
    assert!(text.starts_with("\n// declarations\nenum class Switch: int {\n  On,\n  Off,\n};\n"));
    let switch_at = text.find("enum class Switch: int").unwrap();
    let shape_at = text.find("\nstruct Shape {").unwrap();
    let root_at = text.find("\nstruct Root {").unwrap();
    let level_at = text.find("enum class Level: int").unwrap();
    let a_at = text.find("\nstruct ShapeA {").unwrap();
    let b_at = text.find("\nstruct ShapeB {").unwrap();
    assert!(switch_at < shape_at && shape_at < root_at && root_at < level_at);
    assert!(level_at < a_at && a_at < b_at);
    for part in [
        "enum class Switch: int",
        "\nstruct Shape {",
        "\nstruct Root {",
        "enum class Level: int",
        "\nstruct ShapeA {",
        "\nstruct ShapeB {",
    ] {
        assert_eq!(count(&text, part), 1);
    }
    assert!(text.contains(
        "\nstruct Root {\n  int32_t a;\n  std::unique_ptr<std::string> b;\n  std::vector<int32_t> numbers;\n  Switch state;\n  Shape shape;\n};\n"
    ));
}

#[test]
fn only_the_root_gets_public_routines() {
    let mut props = CppProps::default();
    props.output = Output::Deserialize;
    let st = ingest(&props);
    assert_eq!(st.get_root_name(), Some("Root"));
    assert_eq!(
        st.prototype(&props),
        "\n// prototypes\nJsonTypedefCodeGen::ExpType<Root> deserialize_Root(const JsonTypedefCodeGen::Reader::JsonValue& value);"
    );
    assert_eq!(
        st.define(&props),
        "\nExpType<Root> deserialize_Root(const JsonTypedefCodeGen::Reader::JsonValue& value) {\n  return JsonTypedefCodeGen::Deserialize::Json<Root>::deserialize(value);\n}\n"
    );
    let header = st.write_header(&props);
    let source = st.write_source(&props);
    assert_eq!(count(&header, "deserialize_"), 1);
    assert_eq!(count(&source, "> deserialize_"), 1);
}

#[test]
fn shared_routines_are_emitted_once() {
    let props = CppProps::default();
    let st = ingest(&props);
    let code = st.write_internal_code(&props);
    assert!(code.starts_with(INTERNAL_CODE_HEADER));
    assert!(code.ends_with(INTERNAL_CODE_FOOTER));
    assert_eq!(count(&code, ENUM_INDEX_CODE), 1);
    assert_eq!(count(&code, VALUE_INDEX_CODE), 1);
    assert_eq!(count(&code, ARRAY_CODE), 1);
    assert_eq!(count(&code, NULLABLE_CODE), 1);
    assert_eq!(count(&code, RAW_VALUE_CODE), 0);
    assert_eq!(count(&code, "inline ExpType<int> get_enum_index("), 1);
    assert_eq!(count(&code, "inline ExpType<int> get_value_index("), 1);
    // two enumerations, one lookup routine
    assert_eq!(count(&code, "template<> struct Json<Switch>"), 1);
    assert_eq!(count(&code, "template<> struct Json<Level>"), 1);
}

#[test]
fn routines_that_nothing_asked_for_are_left_out() {
    let props = CppProps::default();
    let mut st = CppState::default();
    assert!(st.try_parse_enum("Switch", vec![member("On", "ON")], meta()));
    let code = st.write_internal_code(&props);
    assert_eq!(count(&code, ENUM_INDEX_CODE), 1);
    assert_eq!(count(&code, VALUE_INDEX_CODE), 0);
    assert_eq!(count(&code, ARRAY_CODE), 0);
    assert_eq!(count(&code, NULLABLE_CODE), 0);
    let _ = st.parse_primitive(Expr::Empty, &props, meta());
    assert_eq!(count(&st.write_internal_code(&props), RAW_VALUE_CODE), 1);
}

#[test]
fn array_routine_stops_at_the_first_failure() {
    let props = CppProps::default();
    let mut st = CppState::default();
    let int32 = st.parse_primitive(Expr::Int32, &props, meta());
    let _ = st.parse_primitive(Expr::ArrayOf(int32.clone()), &props, meta());
    let _ = st.parse_primitive(Expr::ArrayOf("bool".to_string()), &props, meta());
    let code = st.write_internal_code(&props);
    assert_eq!(count(&code, "template<typename T> struct Json<std::vector<T>>"), 1);
    // an element that fails ends the walk with its own error; the elements
    // read so far are dropped with the local result
    assert!(ARRAY_CODE.contains("return Json<T>::deserialize(item).transform("));
    assert!(ARRAY_CODE.contains("if (!status) {\n        return std::unexpected(status.error());\n      }"));
    assert!(code.contains("template<> struct Json<int32_t>"));
}

#[test]
fn struct_routine_checks_keys_and_mandatory_fields() {
    assert!(VALUE_INDEX_CODE.contains("return makeJsonError(JsonErrorTypes::InvalidKey,"));
    assert!(VALUE_INDEX_CODE.contains(
        "if (visited[idx]) {\n      return makeJsonError(JsonErrorTypes::DuplicateKey,"
    ));
    assert!(VALUE_INDEX_CODE.contains("return makeJsonError(JsonErrorTypes::MissingRequiredField,"));
    assert!(VALUE_INDEX_CODE.contains("std::format(\"unknown variant \\\"{}\\\" of {}\", tag, name)"));
    assert!(VALUE_INDEX_CODE.contains("for (int idx : mandatory) {\n      if (!visited[idx]) {"));
}

#[test]
fn output_direction_selects_routines() {
    let mut props = CppProps::default();
    props.output = Output::Deserialize;
    let st = ingest(&props);
    let code = st.write_internal_code(&props);
    assert!(code.contains("template<> struct Json<Root>"));
    assert!(!code.contains("struct Serialize<"));
    props.output = Output::Serialize;
    let code = st.write_internal_code(&props);
    assert!(!code.contains("template<> struct Json<Root>"));
    assert!(!code.contains("template<> struct Json<int32_t>"));
    assert!(code.contains("template<> struct Serialize<Root>"));
    assert!(code.contains("template<> struct Common<Root>"));
}

#[test]
fn header_sections_come_in_order() {
    let mut props = CppProps::default();
    props.guard = Some(Guard::Name("SCHEMA_HPP".to_string()));
    props.namespace = Some("schema".to_string());
    let st = ingest(&props);
    let header = st.write_header(&props);
    assert!(header.starts_with("#ifndef SCHEMA_HPP\n#define SCHEMA_HPP\n\n#include <json_data.hpp>\n"));
    assert!(header.ends_with("\n} // namespace schema\n\n#endif\n"));
    let includes = header.find("#include <memory>\n#include <string>\n#include <vector>\n").unwrap();
    let namespace = header.find("namespace schema {\n").unwrap();
    let forward = header.find("\n// forward declarations\n").unwrap();
    let aliases = header.find("\n// aliases\n").unwrap();
    let declarations = header.find("\n// declarations").unwrap();
    let prototypes = header.find("\n// prototypes").unwrap();
    assert!(includes < namespace && namespace < forward && forward < aliases);
    assert!(aliases < declarations && declarations < prototypes);
    let expected = format!(
        "{}{}{}{}{}{}{}{}{}",
        props.get_guard(),
        st.write_include_files(&props),
        props.open_namespace(),
        st.write_forward_declarations(),
        st.write_alias(),
        st.declare(&props),
        st.prototype(&props),
        props.close_namespace(),
        props.get_footer()
    );
    assert_eq!(header, expected);
}

#[test]
fn source_sections_come_in_order() {
    let props = CppProps::default();
    let st = ingest(&props);
    let source = st.write_source(&props);
    let expected = format!(
        "{}{}{}{}{}",
        st.write_src_include_files(&props),
        st.write_internal_code(&props),
        props.open_namespace(),
        st.define(&props),
        props.close_namespace()
    );
    assert_eq!(source, expected);
    assert!(source.starts_with(
        "#define IMPL_DESERIALIZE\n#include <deserialize.hpp>\n#include <serialize.hpp>\n#include <array>\n#include <format>\n#include <span>\n#include <string_view>\n"
    ));
}

#[test]
fn emission_is_deterministic() {
    let mut props = CppProps::default();
    props.namespace = Some("schema".to_string());
    let first = ingest(&props);
    let second = ingest(&props);
    assert_eq!(first.write_header(&props), second.write_header(&props));
    assert_eq!(first.write_source(&props), second.write_source(&props));
    assert_eq!(first.write_header(&props), first.write_header(&props));
    assert_eq!(first.write_source(&props), first.write_source(&props));
}

#[test]
fn undeclarable_discriminator_is_detected() {
    let mut st = CppState::default();
    assert!(st.try_parse_discriminator("Shape", vec![variant("A", "a")], "kind", "kind", meta()));
    assert!(!st.is_declarable());
    let mut props = CppProps::default();
    props.output = Output::Deserialize;
    // reading does not name the enumerators
    assert!(st.write_internal_code(&props).contains("template<> struct Json<Shape>"));
}
