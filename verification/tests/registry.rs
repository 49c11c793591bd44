use target_cpp::cpp_types::{CppAlias, CppEnum, CppTypes, Primitives};
use target_cpp::props::{CppProps, Dictionary};
use target_cpp::schema::{DiscriminatorVariantInfo, EnumMember, Expr, Field, Metadata, MetadataEntry};
use target_cpp::state::CppState;

fn field(name: &str, ty: &str, optional: bool) -> Field {
    Field {
        metadata: Metadata::default(),
        name: name.to_string(),
        json_name: name.to_string(),
        optional,
        type_: ty.to_string(),
    }
}

fn member(name: &str, json: &str) -> EnumMember {
    EnumMember { name: name.to_string(), json_value: json.to_string() }
}

fn variant(ty: &str, tag: &str) -> DiscriminatorVariantInfo {
    DiscriminatorVariantInfo {
        variant_type: ty.to_string(),
        field_name: tag.to_string(),
        tag_value: tag.to_string(),
    }
}

fn on_off() -> Vec<EnumMember> {
    vec![member("On", "ON"), member("Off", "OFF")]
}

fn meta() -> Metadata {
    Metadata::default()
}

fn note(text: &str) -> Metadata {
    Metadata { entries: vec![MetadataEntry { key: "description".to_string(), value: text.to_string() }] }
}

#[test]
fn empty_state_knows_nothing() {
    let st = CppState::default();
    assert_eq!(st.len(), 0);
    assert_eq!(st.get_index_from_name("Foo"), None);
    assert!(st.get_type(0).is_none());
    assert!(!st.has_root());
    assert_eq!(st.get_root_name(), None);
    assert!(st.is_declarable());
}

#[test]
fn registration_is_idempotent() {
    let mut st = CppState::default();
    let shape = || CppTypes::Enum(CppEnum::new("Switch", on_off()));
    assert!(st.accepts("Switch", &shape()));
    let first = st.add_or_replace_cpp_type("Switch", shape(), meta());
    assert_eq!(first, ("Switch".to_string(), 0));
    assert!(st.accepts("Switch", &shape()));
    let second = st.add_or_replace_cpp_type("Switch", shape(), note("\"again\""));
    assert_eq!(second, ("Switch".to_string(), 0));
    assert_eq!(st.len(), 1);
    assert!(st.get_type(0).unwrap().same(&shape()));
}

#[test]
fn declaring_twice_changes_nothing() {
    let props = CppProps::default();
    let mut st = CppState::default();
    assert!(st.try_parse_enum("Switch", on_off(), meta()));
    assert!(st.try_parse_struct("Pair", vec![field("s", "Switch", false)], meta()));
    let header = st.write_header(&props);
    let source = st.write_source(&props);
    let len = st.len();
    assert!(st.try_parse_enum("Switch", on_off(), meta()));
    assert!(st.try_parse_struct("Pair", vec![field("s", "Switch", false)], meta()));
    assert_eq!(st.len(), len);
    assert_eq!(st.get_index_from_name("Switch"), Some(0));
    assert_eq!(st.get_index_from_name("Pair"), Some(1));
    assert_eq!(st.write_header(&props), header);
    assert_eq!(st.write_source(&props), source);
}

#[test]
fn reference_creates_one_placeholder() {
    let mut st = CppState::default();
    assert_eq!(st.add_incomplete("Later"), ("Later".to_string(), 0));
    assert_eq!(st.add_incomplete("Other"), ("Other".to_string(), 1));
    assert_eq!(st.add_incomplete("Later"), ("Later".to_string(), 0));
    assert_eq!(st.len(), 2);
    assert!(matches!(st.get_type(0), Some(CppTypes::Incomplete)));
    assert!(matches!(st.get_type(1), Some(CppTypes::Incomplete)));
    assert_eq!(st.get_index_from_name("Later"), Some(0));
    assert_eq!(st.get_index_from_name("Other"), Some(1));
    assert_eq!(st.get_index_from_name("Missing"), None);
}

#[test]
fn forward_reference_is_resolved_in_place() {
    let mut st = CppState::default();
    assert!(st.try_parse_struct(
        "Holder",
        vec![field("shape", "Shape", false), field("count", "int32_t", true)],
        meta()
    ));
    // the field types were referred to first, then the struct was appended
    assert_eq!(st.get_index_from_name("Shape"), Some(0));
    assert_eq!(st.get_index_from_name("int32_t"), Some(1));
    assert_eq!(st.get_index_from_name("Holder"), Some(2));
    assert!(matches!(st.get_type(0), Some(CppTypes::Incomplete)));
    let holder_before = st.get_type(2).unwrap().same(&CppTypes::Struct(
        target_cpp::cpp_types::CppStruct::new(
            "Holder",
            vec![field("shape", "Shape", false), field("count", "int32_t", true)],
            vec![0, 1],
        ),
    ));
    assert!(holder_before);

    assert!(st.try_parse_discriminator(
        "Shape",
        vec![variant("ShapeCircle", "circle")],
        "kind",
        "kind",
        meta()
    ));
    assert_eq!(st.get_index_from_name("Shape"), Some(0));
    assert!(matches!(st.get_type(0), Some(CppTypes::Discriminator(_))));
    assert_eq!(st.get_index_from_name("ShapeCircle"), Some(3));
    assert_eq!(st.len(), 4);
    // the holder still refers to position 0, which now holds the definition
    assert!(st.get_type(2).unwrap().same(&CppTypes::Struct(
        target_cpp::cpp_types::CppStruct::new(
            "Holder",
            vec![field("shape", "Shape", false), field("count", "int32_t", true)],
            vec![0, 1],
        ),
    )));

    let props = CppProps::default();
    assert_eq!(st.try_parse_primitive(Expr::Int32, &props, meta()), Some("int32_t".to_string()));
    assert_eq!(st.get_index_from_name("int32_t"), Some(1));
    assert!(matches!(st.get_type(1), Some(CppTypes::Primitive(Primitives::Int32))));
    assert_eq!(st.len(), 4);
}

#[test]
fn self_reference_resolves_to_the_own_position() {
    let mut st = CppState::default();
    assert!(st.try_parse_struct("Node", vec![field("next", "Node", true)], meta()));
    assert_eq!(st.len(), 1);
    assert_eq!(st.get_index_from_name("Node"), Some(0));
    assert!(st.get_type(0).unwrap().same(&CppTypes::Struct(
        target_cpp::cpp_types::CppStruct::new("Node", vec![field("next", "Node", true)], vec![0]),
    )));
}

#[test]
fn conflicting_redefinition_is_refused() {
    let mut st = CppState::default();
    assert!(st.try_parse_enum("Switch", on_off(), meta()));
    let other = vec![member("On", "ON")];
    assert!(!st.accepts("Switch", &CppTypes::Enum(CppEnum::new("Switch", other))));
    assert!(!st.accepts("Switch", &CppTypes::Incomplete));
    assert!(!st.accepts("Switch", &CppTypes::Alias(CppAlias::new("Switch", "int"))));
    assert!(st.accepts("Switch", &CppTypes::Enum(CppEnum::new("Switch", on_off()))));
    assert!(st.accepts("Unknown", &CppTypes::Incomplete));

    assert!(!st.try_parse_enum("Switch", vec![member("On", "ON")], meta()));
    assert!(!st.try_parse_enum("Switch", vec![member("Off", "OFF"), member("On", "ON")], meta()));
    assert!(!st.try_parse_struct("Switch", vec![], meta()));
    assert!(!st.try_parse_alias("Switch", "int", meta()));
    assert!(!st.try_parse_discriminator("Switch", vec![], "kind", "kind", meta()));
    assert!(!st.try_parse_discriminator_variant("Switch", vec![], "kind", "kind", "a", "P", meta()));
    // the definition that stood first still stands
    assert_eq!(st.get_index_from_name("Switch"), Some(0));
    assert!(st.get_type(0).unwrap().same(&CppTypes::Enum(CppEnum::new("Switch", on_off()))));
}

#[test]
fn refused_struct_leaves_its_references_behind() {
    let mut st = CppState::default();
    assert!(st.try_parse_enum("Taken", on_off(), meta()));
    assert!(!st.try_parse_struct("Taken", vec![field("x", "Fresh", false)], meta()));
    assert_eq!(st.get_index_from_name("Fresh"), Some(1));
    assert!(matches!(st.get_type(1), Some(CppTypes::Incomplete)));
    assert_eq!(st.len(), 2);
}

#[test]
fn scalar_name_taken_by_another_shape_is_refused() {
    let props = CppProps::default();
    let mut st = CppState::default();
    assert!(st.try_parse_enum("bool", on_off(), meta()));
    assert_eq!(st.try_parse_primitive(Expr::Boolean, &props, meta()), None);
    assert_eq!(st.try_parse_primitive(Expr::Int8, &props, meta()), Some("int8_t".to_string()));
}

#[test]
fn timestamps_are_refused() {
    let props = CppProps::default();
    let mut st = CppState::default();
    assert_eq!(st.try_parse_primitive(Expr::Timestamp, &props, meta()), None);
    assert_eq!(st.len(), 0);
}

#[test]
fn scalars_are_named_after_their_cpp_types() {
    let props = CppProps::default();
    let mut st = CppState::default();
    let cases = vec![
        (Expr::Boolean, "bool"),
        (Expr::Int8, "int8_t"),
        (Expr::Uint8, "uint8_t"),
        (Expr::Int16, "int16_t"),
        (Expr::Uint16, "uint16_t"),
        (Expr::Int32, "int32_t"),
        (Expr::Uint32, "uint32_t"),
        (Expr::Float32, "float"),
        (Expr::Float64, "double"),
        (Expr::String, "std::string"),
    ];
    let mut expected_len = 0;
    for (expr, name) in cases {
        assert_eq!(st.parse_primitive(expr, &props, meta()), name);
        expected_len += 1;
        assert_eq!(st.len(), expected_len);
        assert_eq!(st.get_index_from_name(name), Some(expected_len - 1));
    }
    assert!(matches!(st.get_type(9), Some(CppTypes::Primitive(Primitives::String))));
    assert!(!st.has_root());
}

#[test]
fn wrapped_types_are_named_and_registered_once() {
    let props = CppProps::default();
    let mut st = CppState::default();
    assert_eq!(
        st.parse_primitive(Expr::ArrayOf("int32_t".to_string()), &props, meta()),
        "std::vector<int32_t>"
    );
    assert_eq!(st.get_index_from_name("int32_t"), Some(0));
    assert_eq!(st.get_index_from_name("std::vector<int32_t>"), Some(1));
    assert!(matches!(st.get_type(0), Some(CppTypes::Incomplete)));
    assert!(matches!(st.get_type(1), Some(CppTypes::Array(_))));
    assert_eq!(
        st.parse_primitive(Expr::ArrayOf("int32_t".to_string()), &props, meta()),
        "std::vector<int32_t>"
    );
    assert_eq!(st.len(), 2);
    assert_eq!(
        st.parse_primitive(Expr::NullableOf("int32_t".to_string()), &props, meta()),
        "std::unique_ptr<int32_t>"
    );
    assert!(matches!(st.get_type(2), Some(CppTypes::Nullable(_))));
    assert_eq!(
        st.parse_primitive(Expr::DictOf("int32_t".to_string()), &props, meta()),
        "std::unordered_map<std::string, int32_t>"
    );
    assert!(matches!(st.get_type(3), Some(CppTypes::Dictionary(_))));
    assert_eq!(
        st.parse_primitive(Expr::DictOf(String::new()), &props, meta()),
        "std::unordered_set<std::string>"
    );
    assert!(matches!(st.get_type(4), Some(CppTypes::Dictionary(_))));
    assert_eq!(st.len(), 5);
    assert_eq!(
        st.parse_primitive(Expr::Empty, &props, meta()),
        "JsonTypedefCodeGen::Data::JsonValue"
    );
    assert_eq!(st.len(), 5);
    let needs = st.get_needs();
    assert!(needs.array && needs.nullable && needs.map && needs.set && needs.raw_value);
    assert!(!needs.enum_index && !needs.value_index);
}

#[test]
fn ordered_dictionaries_use_map_and_set() {
    let mut props = CppProps::default();
    props.dictionary = Dictionary::Ordered;
    let mut st = CppState::default();
    assert_eq!(
        st.parse_primitive(Expr::DictOf("bool".to_string()), &props, meta()),
        "std::map<std::string, bool>"
    );
    assert_eq!(st.parse_primitive(Expr::DictOf(String::new()), &props, meta()), "std::set<std::string>");
    assert_eq!(
        st.write_include_files(&CppProps::default()),
        "#include <json_data.hpp>\n#include <json_reader.hpp>\n#include <json_writer.hpp>\n#include <map>\n#include <set>\n#include <string>\n"
    );
}

#[test]
fn first_declared_shape_is_the_root() {
    let mut st = CppState::default();
    assert!(st.try_parse_enum("First", on_off(), meta()));
    assert_eq!(st.get_root_name(), Some("First"));
    assert!(st.try_parse_struct("Second", vec![], meta()));
    assert!(st.try_parse_alias("Third", "First", meta()));
    assert!(st.try_parse_discriminator("Fourth", vec![], "k", "k", meta()));
    assert_eq!(st.get_root_name(), Some("First"));
}

#[test]
fn variant_never_becomes_the_root() {
    let mut st = CppState::default();
    assert!(st.try_parse_discriminator_variant("ShapeA", vec![], "k", "k", "a", "Shape", meta()));
    assert!(!st.has_root());
    assert!(st.try_parse_discriminator("Shape", vec![variant("ShapeA", "a")], "k", "k", meta()));
    assert_eq!(st.get_root_name(), Some("Shape"));
}

#[test]
fn root_follows_the_nullable_wrapper() {
    let props = CppProps::default();
    let mut st = CppState::default();
    assert!(st.try_parse_struct("Root", vec![], meta()));
    assert_eq!(st.get_root_name(), Some("Root"));
    assert_eq!(
        st.parse_primitive(Expr::NullableOf("Other".to_string()), &props, meta()),
        "std::unique_ptr<Other>"
    );
    assert_eq!(st.get_root_name(), Some("Root"));
    assert_eq!(
        st.parse_primitive(Expr::NullableOf("Root".to_string()), &props, meta()),
        "std::unique_ptr<Root>"
    );
    assert_eq!(st.get_root_name(), Some("std::unique_ptr<Root>"));
    let idx = st.get_index_from_name("std::unique_ptr<Root>").unwrap();
    assert!(matches!(st.get_type(idx), Some(CppTypes::Nullable(_))));
    assert_eq!(
        st.prototype(&props),
        "\n// prototypes\nJsonTypedefCodeGen::ExpType<std::unique_ptr<Root>> deserialize_Nullablestd::unique_ptr<Root>(const JsonTypedefCodeGen::Reader::JsonValue& value);"
    );
    assert_eq!(
        st.define(&props),
        "\nExpType<std::unique_ptr<Root>> deserialize_Nullablestd::unique_ptr<Root>(const Reader::JsonValue& value) {\n  return JsonTypedefCodeGen::Deserialize::Json<std::unique_ptr<Root>>::deserialize(value);\n}\n"
    );
}

#[test]
fn nullable_root_is_emitted_under_its_alias() {
    let props = CppProps::default();
    let mut st = CppState::default();
    assert!(st.try_parse_struct("Root", vec![], meta()));
    let wrapped = st.parse_primitive(Expr::NullableOf("Root".to_string()), &props, meta());
    assert!(st.try_parse_alias("MaybeRoot", &wrapped, meta()));
    assert_eq!(st.get_aliased_name("std::unique_ptr<Root>"), "MaybeRoot");
    assert_eq!(st.get_aliased_name("std::unique_ptr<Other>"), "std::unique_ptr<Other>");
    assert_eq!(
        st.prototype(&props),
        "\n// prototypes\nJsonTypedefCodeGen::ExpType<MaybeRoot> deserialize_NullableMaybeRoot(const JsonTypedefCodeGen::Reader::JsonValue& value);"
    );
}

#[test]
fn include_files_are_kept_once_and_in_order() {
    let mut st = CppState::default();
    assert!(st.add_include_file("<vector>"));
    assert!(st.add_include_file("<memory>"));
    assert!(!st.add_include_file("<vector>"));
    assert!(st.add_include_file("<string>"));
    assert!(st.add_include_file("<array>"));
    assert!(!st.add_include_file("<array>"));
    let mut props = CppProps::default();
    props.include_data = target_cpp::props::JsonCodeGenInclude::Ignore;
    props.include_reader = target_cpp::props::JsonCodeGenInclude::Ignore;
    props.include_writer = target_cpp::props::JsonCodeGenInclude::Ignore;
    assert_eq!(
        st.write_include_files(&props),
        "#include <array>\n#include <memory>\n#include <string>\n#include <vector>\n"
    );
}

#[test]
fn source_includes_skip_what_the_header_includes() {
    let mut st = CppState::default();
    assert!(st.add_src_include_file("<string_view>"));
    assert!(st.add_src_include_file("<format>"));
    assert!(st.add_src_include_file("<array>"));
    assert!(!st.add_src_include_file("<format>"));
    assert!(st.add_include_file("<format>"));
    let mut props = CppProps::default();
    props.include_data = target_cpp::props::JsonCodeGenInclude::Ignore;
    assert_eq!(
        st.write_src_include_files(&props),
        "#define IMPL_DESERIALIZE\n#include <array>\n#include <string_view>\n"
    );
}

#[test]
fn conclude_changes_nothing() {
    let props = CppProps::default();
    let mut st = CppState::default();
    assert!(st.try_parse_enum("Switch", on_off(), meta()));
    let before = st.write_header(&props);
    st.conclude();
    assert_eq!(st.write_header(&props), before);
    assert_eq!(st.len(), 1);
}

#[test]
fn wrapper_declaration_fills_in_a_placeholder() {
    let props = CppProps::default();
    let mut st = CppState::default();
    assert!(st.try_parse_struct(
        "Holder",
        vec![field("numbers", "std::vector<int32_t>", false)],
        meta()
    ));
    assert_eq!(st.get_index_from_name("std::vector<int32_t>"), Some(0));
    assert!(matches!(st.get_type(0), Some(CppTypes::Incomplete)));
    assert!(!st.is_defined("std::vector<int32_t>"));
    assert!(!st.get_needs().array);
    assert_eq!(
        st.parse_primitive(Expr::ArrayOf("int32_t".to_string()), &props, meta()),
        "std::vector<int32_t>"
    );
    assert_eq!(st.get_index_from_name("std::vector<int32_t>"), Some(0));
    assert!(matches!(st.get_type(0), Some(CppTypes::Array(_))));
    assert!(st.is_defined("std::vector<int32_t>"));
    assert!(st.get_needs().array);
    assert_eq!(st.get_index_from_name("Holder"), Some(1));
    assert_eq!(st.get_index_from_name("int32_t"), Some(2));
    assert_eq!(st.len(), 3);
}

#[test]
fn root_follows_a_wrapper_that_was_referred_to_before() {
    let props = CppProps::default();
    let mut st = CppState::default();
    assert!(st.try_parse_struct("Root", vec![field("next", "std::unique_ptr<Root>", true)], meta()));
    assert_eq!(st.get_root_name(), Some("Root"));
    assert!(matches!(st.get_type(0), Some(CppTypes::Incomplete)));
    let _ = st.parse_primitive(Expr::NullableOf("Root".to_string()), &props, meta());
    assert_eq!(st.get_root_name(), Some("std::unique_ptr<Root>"));
    assert!(matches!(st.get_type(0), Some(CppTypes::Nullable(_))));
    assert!(st.prototype(&props).contains("deserialize_Nullablestd::unique_ptr<Root>("));
}

#[test]
fn registry_only_grows() {
    let props = CppProps::default();
    let mut st = CppState::default();
    let mut known: Vec<(String, usize)> = Vec::new();
    let mut check = |st: &CppState, known: &mut Vec<(String, usize)>, added: &[&str]| {
        for (name, at) in known.iter() {
            assert_eq!(st.get_index_from_name(name), Some(*at));
        }
        for name in added {
            let at = st.get_index_from_name(name).unwrap();
            if !known.iter().any(|(n, _)| n == name) {
                known.push((name.to_string(), at));
            }
        }
        assert_eq!(known.len(), st.len());
    };
    let int32 = st.parse_primitive(Expr::Int32, &props, meta());
    check(&st, &mut known, &["int32_t"]);
    assert!(st.try_parse_struct(
        "A",
        vec![field("x", &int32, false), field("b", "B", false), field("c", "C", true)],
        meta()
    ));
    check(&st, &mut known, &["B", "C", "A"]);
    assert!(st.try_parse_enum("C", on_off(), meta()));
    check(&st, &mut known, &[]);
    assert!(!st.try_parse_enum("A", on_off(), meta()));
    check(&st, &mut known, &[]);
    assert!(st.try_parse_alias("B", "A", meta()));
    check(&st, &mut known, &[]);
    let _ = st.parse_primitive(Expr::DictOf("C".to_string()), &props, meta());
    check(&st, &mut known, &["std::unordered_map<std::string, C>"]);
    assert!(st.get_type(1).unwrap().same(&CppTypes::Alias(CppAlias::new("B", "A"))));
    assert!(st.get_type(2).unwrap().same(&CppTypes::Enum(CppEnum::new("C", on_off()))));
}
