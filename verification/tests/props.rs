use target_cpp::props::{CppProps, Dictionary, Guard, JsonCodeGenInclude, Output};

fn plain() -> CppProps {
    CppProps::default()
}

#[test]
fn default() {
    let props = CppProps::default();
    assert_eq!(props.guard.is_none(), true);
    assert_eq!(props.namespace.is_none(), true);
}

#[test]
fn default_locates_headers_in_system_path() {
    let props = CppProps::default();
    assert!(matches!(props.include_reader, JsonCodeGenInclude::System));
    assert!(matches!(props.include_data, JsonCodeGenInclude::System));
    assert!(matches!(props.include_writer, JsonCodeGenInclude::System));
    assert_eq!(props.output, Output::Both);
    assert_eq!(props.dictionary, Dictionary::Unordered);
    assert_eq!(props.get_output(), Output::Both);
}

#[test]
fn namespace_is_kept() {
    let mut props = plain();
    props.namespace = Some("bob".to_string());
    assert_eq!(props.guard.is_none(), true);
    assert_eq!(props.namespace, Some("bob".to_string()));
    assert_eq!(props.open_namespace(), "namespace bob {\n");
    assert_eq!(props.close_namespace(), "\n} // namespace bob\n");
    assert_eq!(props.get_namespaced_name("Shape"), "bob::Shape");
}

#[test]
fn no_namespace_renders_nothing() {
    let props = plain();
    assert_eq!(props.open_namespace(), "");
    assert_eq!(props.close_namespace(), "");
    assert_eq!(props.get_namespaced_name("Shape"), "Shape");
}

#[test]
fn pragma_guard() {
    let mut props = plain();
    props.guard = Some(Guard::Pragma);
    assert_eq!(props.get_guard(), "#pragma once\n\n");
    assert_eq!(props.get_footer(), "");
    assert_eq!(Guard::Pragma.get_guard(), "#pragma once\n\n");
    assert_eq!(Guard::Pragma.get_footer(), "");
}

#[test]
fn named_guard() {
    let mut props = plain();
    props.guard = Some(Guard::Name("GUARD".to_string()));
    assert_eq!(props.get_guard(), "#ifndef GUARD\n#define GUARD\n\n");
    assert_eq!(props.get_footer(), "\n#endif\n");
}

#[test]
fn no_guard_renders_nothing() {
    let props = plain();
    assert_eq!(props.get_guard(), "");
    assert_eq!(props.get_footer(), "");
}

#[test]
fn header_file_lines() {
    assert_eq!(JsonCodeGenInclude::Ignore.get_header_file("a.hpp"), "");
    assert_eq!(JsonCodeGenInclude::Local.get_header_file("a.hpp"), "#include \"a.hpp\"\n");
    assert_eq!(JsonCodeGenInclude::System.get_header_file("a.hpp"), "#include <a.hpp>\n");
    assert_eq!(
        JsonCodeGenInclude::Path("where/it/is".to_string()).get_header_file("a.hpp"),
        "#include where/it/is\n"
    );
}

#[test]
fn output_directions() {
    assert_eq!(Output::Deserialize.deserialize(), true);
    assert_eq!(Output::Deserialize.serialize(), false);
    assert_eq!(Output::Serialize.deserialize(), false);
    assert_eq!(Output::Serialize.serialize(), true);
    assert_eq!(Output::Both.deserialize(), true);
    assert_eq!(Output::Both.serialize(), true);
}

#[test]
fn codegen_includes_follow_output() {
    let mut props = plain();
    props.include_reader = JsonCodeGenInclude::Local;
    props.include_writer = JsonCodeGenInclude::Path("\"w.hpp\"".to_string());
    assert_eq!(
        props.get_codegen_includes(),
        "#include <json_data.hpp>\n#include \"json_reader.hpp\"\n#include \"w.hpp\"\n"
    );
    props.output = Output::Deserialize;
    assert_eq!(
        props.get_codegen_includes(),
        "#include <json_data.hpp>\n#include \"json_reader.hpp\"\n"
    );
    props.output = Output::Serialize;
    assert_eq!(props.get_codegen_includes(), "#include <json_data.hpp>\n#include \"w.hpp\"\n");
}

#[test]
fn codegen_src_includes_follow_output() {
    let mut props = plain();
    assert_eq!(
        props.get_codegen_src_includes(),
        "#include <deserialize.hpp>\n#include <serialize.hpp>\n"
    );
    props.output = Output::Deserialize;
    assert_eq!(props.get_codegen_src_includes(), "#include <deserialize.hpp>\n");
    props.output = Output::Serialize;
    props.include_data = JsonCodeGenInclude::Local;
    assert_eq!(props.get_codegen_src_includes(), "#include \"serialize.hpp\"\n");
    props.include_data = JsonCodeGenInclude::Ignore;
    assert_eq!(props.get_codegen_src_includes(), "");
}

#[test]
fn dictionary_info() {
    let mut props = plain();
    assert_eq!(
        props.get_dictionary_info("int32_t"),
        ("<unordered_map>", "std::unordered_map<std::string, int32_t>".to_string())
    );
    assert_eq!(
        props.get_dictionary_info(""),
        ("<unordered_set>", "std::unordered_set<std::string>".to_string())
    );
    assert_eq!(props.get_map_template(), "std::unordered_map");
    props.dictionary = Dictionary::Ordered;
    assert_eq!(
        props.get_dictionary_info("int32_t"),
        ("<map>", "std::map<std::string, int32_t>".to_string())
    );
    assert_eq!(props.get_dictionary_info(""), ("<set>", "std::set<std::string>".to_string()));
    assert_eq!(props.get_map_template(), "std::map");
}
