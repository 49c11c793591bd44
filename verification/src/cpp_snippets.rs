//! The fixed C++ text of the generated files: the shared routines, and the
//! frames into which the renderers of the single shapes put their parts.

use vstd::prelude::*;

verus! {

/// Opens the block that holds every conversion routine of the generated
/// source file.
pub const INTERNAL_CODE_HEADER: &'static str = r#"
namespace JsonTypedefCodeGen::Deserialize {

  using namespace std::string_view_literals;
"#;

/// Closes the block of conversion routines.
pub const INTERNAL_CODE_FOOTER: &'static str = "\n} // namespace JsonTypedefCodeGen::Deserialize\n";

/// Shared routine: the position of a string among the literals of an
/// enumeration, by exact match.
pub const ENUM_INDEX_CODE: &'static str = r#"
  inline ExpType<int> get_enum_index(std::span<const std::string_view> entries,
                                     std::string_view value, std::string_view name) {
    for (std::size_t idx = 0; idx < entries.size(); ++idx) {
      if (entries[idx] == value) {
        return static_cast<int>(idx);
      }
    }
    return makeJsonError(JsonErrorTypes::InvalidValue,
                         std::format("invalid value \"{}\" for {}", value, name));
  }
"#;

/// Shared routines of the struct-like shapes: the position of an object key
/// in a table of expected keys, the position of a tag among the known tags,
/// the record of the keys seen, which refuses a repeated key, and the check
/// that every mandatory key was seen.
pub const VALUE_INDEX_CODE: &'static str = r#"
  inline ExpType<int> get_value_index(std::span<const std::string_view> entries,
                                      std::string_view key, std::string_view name) {
    for (std::size_t idx = 0; idx < entries.size(); ++idx) {
      if (entries[idx] == key) {
        return static_cast<int>(idx);
      }
    }
    return makeJsonError(JsonErrorTypes::InvalidKey,
                         std::format("invalid key \"{}\" in {}", key, name));
  }

  inline ExpType<int> get_tag_index(std::span<const std::string_view> entries,
                                    std::string_view tag, std::string_view name) {
    for (std::size_t idx = 0; idx < entries.size(); ++idx) {
      if (entries[idx] == tag) {
        return static_cast<int>(idx);
      }
    }
    return makeJsonError(JsonErrorTypes::InvalidValue,
                         std::format("unknown variant \"{}\" of {}", tag, name));
  }

  template<std::size_t N>
  inline ExpType<void> mark_visited(std::array<bool, N>& visited, int idx,
                                    std::string_view key, std::string_view name) {
    if (visited[idx]) {
      return makeJsonError(JsonErrorTypes::DuplicateKey,
                           std::format("duplicate key \"{}\" in {}", key, name));
    }
    visited[idx] = true;
    return {};
  }

  template<std::size_t N, std::size_t M>
  inline ExpType<void> check_mandatory(const std::array<bool, N>& visited,
                                       const std::array<int, M>& mandatory,
                                       std::span<const std::string_view> entries,
                                       std::string_view name) {
    for (int idx : mandatory) {
      if (!visited[idx]) {
        return makeJsonError(JsonErrorTypes::MissingRequiredField,
                             std::format("missing key \"{}\" in {}", entries[idx], name));
      }
    }
    return {};
  }
"#;

/// Shared routine: converts the elements of an array in order and stops at
/// the first failure.
pub const ARRAY_CODE: &'static str = r#"
  template<typename T> struct Json<std::vector<T>> {
    static ExpType<std::vector<T>> deserialize(const Reader::JsonValue& value) {
      std::vector<T> result;
      auto status = value.read_array([&](const Reader::JsonValue& item) -> ExpType<void> {
        return Json<T>::deserialize(item).transform([&](T&& element) {
          result.push_back(std::move(element));
        });
      });
      if (!status) {
        return std::unexpected(status.error());
      }
      return result;
    }
  };
"#;

/// Shared routine: converts the wrapped value and hands it over to a single
/// owner.
pub const NULLABLE_CODE: &'static str = r#"
  template<typename T> struct Json<std::unique_ptr<T>> {
    static ExpType<std::unique_ptr<T>> deserialize(const Reader::JsonValue& value) {
      return Json<T>::deserialize(value).transform([](T&& inner) {
        return std::make_unique<T>(std::move(inner));
      });
    }
  };
"#;

/// Shared routine: keeps an untyped value as it was read.
pub const RAW_VALUE_CODE: &'static str = r#"
  template<> struct Json<JsonTypedefCodeGen::Data::JsonValue> {
    static ExpType<JsonTypedefCodeGen::Data::JsonValue> deserialize(const Reader::JsonValue& value) {
      return value.clone();
    }
  };
"#;

/// The table of JSON names of a shape: `size` entries, already laid out in
/// `entries`.
pub open spec fn entries_array_text(size: Seq<char>, entries: Seq<char>) -> Seq<char> {
    "static constexpr std::array<std::string_view, "@
        + size
        + "> entries = {{\n        "@
        + entries
        + "\n      }};"@
}

pub fn entries_array(size: &str, entries: &str) -> (r: String)
    ensures
        r@ == entries_array_text(size@, entries@),
{
    let mut r = String::new();
    r.append("static constexpr std::array<std::string_view, ");
    r.append(size);
    r.append("> entries = {{\n        ");
    r.append(entries);
    r.append("\n      }};");
    assert(r@ =~= entries_array_text(size@, entries@));
    r
}

/// The data that both directions of conversion of `full_name` share: its
/// table of JSON names.
pub open spec fn common_code_text(full_name: Seq<char>, entries: Seq<char>) -> Seq<char> {
    "\n  template<> struct Common<"@
        + full_name
        + "> {\n    "@
        + entries
        + "\n  };\n"@
}

pub fn common_code(full_name: &str, entries: &str) -> (r: String)
    ensures
        r@ == common_code_text(full_name@, entries@),
{
    let mut r = String::new();
    r.append("\n  template<> struct Common<");
    r.append(full_name);
    r.append("> {\n    ");
    r.append(entries);
    r.append("\n  };\n");
    assert(r@ =~= common_code_text(full_name@, entries@));
    r
}

/// Shared routine: converts the values of an object into the container
/// `map_type` and fails on a repeated key.
pub open spec fn map_code_text(map_type: Seq<char>) -> Seq<char> {
    "\n  template<typename T> struct Json<"@
        + map_type
        + "<std::string, T>> {\n    static ExpType<"@
        + map_type
        + r#"<std::string, T>> deserialize(const Reader::JsonValue& value) {
      "#@
        + map_type
        + r#"<std::string, T> result;
      auto status = value.read_object([&](std::string_view key, const Reader::JsonValue& val) -> ExpType<void> {
        return Json<T>::deserialize(val).and_then([&](T&& item) -> ExpType<void> {
          if (!result.emplace(std::string(key), std::move(item)).second) {
            return makeJsonError(JsonErrorTypes::DuplicateKey, std::format("duplicate key \"{}\"", key));
          }
          return {};
        });
      });
      if (!status) {
        return std::unexpected(status.error());
      }
      return result;
    }
  };
"#@
}

pub fn map_code(map_type: &str) -> (r: String)
    ensures
        r@ == map_code_text(map_type@),
{
    let mut r = String::new();
    r.append("\n  template<typename T> struct Json<");
    r.append(map_type);
    r.append("<std::string, T>> {\n    static ExpType<");
    r.append(map_type);
    r.append(r#"<std::string, T>> deserialize(const Reader::JsonValue& value) {
      "#);
    r.append(map_type);
    r.append(r#"<std::string, T> result;
      auto status = value.read_object([&](std::string_view key, const Reader::JsonValue& val) -> ExpType<void> {
        return Json<T>::deserialize(val).and_then([&](T&& item) -> ExpType<void> {
          if (!result.emplace(std::string(key), std::move(item)).second) {
            return makeJsonError(JsonErrorTypes::DuplicateKey, std::format("duplicate key \"{}\"", key));
          }
          return {};
        });
      });
      if (!status) {
        return std::unexpected(status.error());
      }
      return result;
    }
  };
"#);
    assert(r@ =~= map_code_text(map_type@));
    r
}

/// Shared routine for a set of keys `set_type`: it always fails, the
/// conversion is not available.
pub open spec fn set_code_text(set_type: Seq<char>) -> Seq<char> {
    "\n  template<> struct Json<"@
        + set_type
        + "> {\n    static ExpType<"@
        + set_type
        + r#"> deserialize(const Reader::JsonValue& value) {
      return makeJsonError(JsonErrorTypes::Unimplemented, "not ready yet"sv);
    }
  };
"#@
}

pub fn set_code(set_type: &str) -> (r: String)
    ensures
        r@ == set_code_text(set_type@),
{
    let mut r = String::new();
    r.append("\n  template<> struct Json<");
    r.append(set_type);
    r.append("> {\n    static ExpType<");
    r.append(set_type);
    r.append(r#"> deserialize(const Reader::JsonValue& value) {
      return makeJsonError(JsonErrorTypes::Unimplemented, "not ready yet"sv);
    }
  };
"#);
    assert(r@ =~= set_code_text(set_type@));
    r
}

/// The routine that reads an enumeration: the string is looked up among the
/// literals and the member at the same position is returned.
pub open spec fn enum_des_text(full_name: Seq<char>, enum_name: Seq<char>) -> Seq<char> {
    "\n  template<> struct Json<"@
        + full_name
        + "> {\n    static ExpType<"@
        + full_name
        + r#"> deserialize(const Reader::JsonValue& value) {
      return value.read_str().and_then([](std::string_view text) {
        return get_enum_index(Common<"#@
        + full_name
        + ">::entries, text, \""@
        + enum_name
        + r#""sv);
      }).transform([](int idx) {
        return static_cast<"#@
        + full_name
        + ">(idx);\n      });\n    }\n  };\n"@
}

pub fn enum_des(full_name: &str, enum_name: &str) -> (r: String)
    ensures
        r@ == enum_des_text(full_name@, enum_name@),
{
    let mut r = String::new();
    r.append("\n  template<> struct Json<");
    r.append(full_name);
    r.append("> {\n    static ExpType<");
    r.append(full_name);
    r.append(r#"> deserialize(const Reader::JsonValue& value) {
      return value.read_str().and_then([](std::string_view text) {
        return get_enum_index(Common<"#);
    r.append(full_name);
    r.append(">::entries, text, \"");
    r.append(enum_name);
    r.append(r#""sv);
      }).transform([](int idx) {
        return static_cast<"#);
    r.append(full_name);
    r.append(">(idx);\n      });\n    }\n  };\n");
    assert(r@ =~= enum_des_text(full_name@, enum_name@));
    r
}

/// The routine that writes an enumeration as the literal at the member's
/// position.
pub open spec fn enum_ser_text(full_name: Seq<char>) -> Seq<char> {
    "\n  template<> struct Serialize<"@
        + full_name
        + r#"> {
    static ExpType<void> serialize(Writer::Serializer& serializer, const "#@
        + full_name
        + "& value) {\n      return serializer.write_str(Common<"@
        + full_name
        + ">::entries[static_cast<int>(value)]);\n    }\n  };\n"@
}

pub fn enum_ser(full_name: &str) -> (r: String)
    ensures
        r@ == enum_ser_text(full_name@),
{
    let mut r = String::new();
    r.append("\n  template<> struct Serialize<");
    r.append(full_name);
    r.append(r#"> {
    static ExpType<void> serialize(Writer::Serializer& serializer, const "#);
    r.append(full_name);
    r.append("& value) {\n      return serializer.write_str(Common<");
    r.append(full_name);
    r.append(">::entries[static_cast<int>(value)]);\n    }\n  };\n");
    assert(r@ =~= enum_ser_text(full_name@));
    r
}

/// The routine that reads a struct: every key is looked up in the table of
/// names, a repeated key fails, the value is converted into the field at
/// that position, and at the end every mandatory position must have been
/// visited.
pub open spec fn struct_des_text(
    full_name: Seq<char>,
    mandatory: Seq<char>,
    visited: Seq<char>,
    struct_name: Seq<char>,
    clauses: Seq<char>,
) -> Seq<char> {
    "\n  template<> struct Json<"@
        + full_name
        + "> {\n    "@
        + mandatory
        + "\n\n    static ExpType<"@
        + full_name
        + r#"> deserialize(const Reader::JsonValue& value) {
      using Entries = Common<"#@
        + full_name
        + ">;\n      "@
        + full_name
        + " result;\n      "@
        + visited
        + r#"
      auto status = value.read_object([&](std::string_view key, const Reader::JsonValue& val) -> ExpType<void> {
        return get_value_index(Entries::entries, key, ""#@
        + struct_name
        + r#""sv).and_then([&](int idx) -> ExpType<void> {
          SHORT_EXP(mark_visited(visited, idx, key, ""#@
        + struct_name
        + "\"sv));\n          switch (idx) {"@
        + clauses
        + r#"
          }
          return {};
        });
      });
      if (!status) {
        return std::unexpected(status.error());
      }
      SHORT_EXP(check_mandatory(visited, mandatory_indices, Entries::entries, ""#@
        + struct_name
        + "\"sv));\n      return result;\n    }\n  };\n"@
}

pub fn struct_des(
    full_name: &str,
    mandatory: &str,
    visited: &str,
    struct_name: &str,
    clauses: &str,
) -> (r: String)
    ensures
        r@ == struct_des_text(full_name@, mandatory@, visited@, struct_name@, clauses@),
{
    let mut r = String::new();
    r.append("\n  template<> struct Json<");
    r.append(full_name);
    r.append("> {\n    ");
    r.append(mandatory);
    r.append("\n\n    static ExpType<");
    r.append(full_name);
    r.append(r#"> deserialize(const Reader::JsonValue& value) {
      using Entries = Common<"#);
    r.append(full_name);
    r.append(">;\n      ");
    r.append(full_name);
    r.append(" result;\n      ");
    r.append(visited);
    r.append(r#"
      auto status = value.read_object([&](std::string_view key, const Reader::JsonValue& val) -> ExpType<void> {
        return get_value_index(Entries::entries, key, ""#);
    r.append(struct_name);
    r.append(r#""sv).and_then([&](int idx) -> ExpType<void> {
          SHORT_EXP(mark_visited(visited, idx, key, ""#);
    r.append(struct_name);
    r.append("\"sv));\n          switch (idx) {");
    r.append(clauses);
    r.append(r#"
          }
          return {};
        });
      });
      if (!status) {
        return std::unexpected(status.error());
      }
      SHORT_EXP(check_mandatory(visited, mandatory_indices, Entries::entries, ""#);
    r.append(struct_name);
    r.append("\"sv));\n      return result;\n    }\n  };\n");
    assert(r@ =~= struct_des_text(full_name@, mandatory@, visited@, struct_name@, clauses@));
    r
}

/// The routine that writes a struct, field by field.
pub open spec fn struct_ser_text(full_name: Seq<char>, write_props: Seq<char>) -> Seq<char> {
    "\n  template<> struct Serialize<"@
        + full_name
        + r#"> {
    static ExpType<void> serialize(Writer::Serializer& serializer, const "#@
        + full_name
        + "& value) {\n      SHORT_EXP(serializer.start_object());\n"@
        + write_props
        + "      return serializer.end_object();\n    }\n  };\n"@
}

pub fn struct_ser(full_name: &str, write_props: &str) -> (r: String)
    ensures
        r@ == struct_ser_text(full_name@, write_props@),
{
    let mut r = String::new();
    r.append("\n  template<> struct Serialize<");
    r.append(full_name);
    r.append(r#"> {
    static ExpType<void> serialize(Writer::Serializer& serializer, const "#);
    r.append(full_name);
    r.append("& value) {\n      SHORT_EXP(serializer.start_object());\n");
    r.append(write_props);
    r.append("      return serializer.end_object();\n    }\n  };\n");
    assert(r@ =~= struct_ser_text(full_name@, write_props@));
    r
}

/// The routine that reads a discriminator: the tag is read as a string and
/// looked up among the known tags, and the whole object goes to the variant
/// at that position.
pub open spec fn disc_des_text(
    full_name: Seq<char>,
    entries: Seq<char>,
    tag_key: Seq<char>,
    disc_name: Seq<char>,
    clauses: Seq<char>,
) -> Seq<char> {
    "\n  template<> struct Json<"@
        + full_name
        + "> {\n    static ExpType<"@
        + full_name
        + "> deserialize(const Reader::JsonValue& object) {\n      "@
        + entries
        + r#"
      const auto cast = [](auto&& variant) {
        return "#@
        + full_name
        + r#"(std::move(variant));
      };
      return object.read_key(""#@
        + tag_key
        + r#""sv).and_then([](const Reader::JsonValue& tag) {
        return tag.read_str();
      }).and_then([](std::string_view text) {
        return get_tag_index(entries, text, ""#@
        + disc_name
        + "\"sv);\n      }).and_then([&](int idx) -> ExpType<"@
        + full_name
        + "> {\n        switch (idx) {"@
        + clauses
        + r#"
        }
        return makeJsonError(JsonErrorTypes::InvalidValue, ""#@
        + disc_name
        + "\"sv);\n      });\n    }\n  };\n"@
}

pub fn disc_des(
    full_name: &str,
    entries: &str,
    tag_key: &str,
    disc_name: &str,
    clauses: &str,
) -> (r: String)
    ensures
        r@ == disc_des_text(full_name@, entries@, tag_key@, disc_name@, clauses@),
{
    let mut r = String::new();
    r.append("\n  template<> struct Json<");
    r.append(full_name);
    r.append("> {\n    static ExpType<");
    r.append(full_name);
    r.append("> deserialize(const Reader::JsonValue& object) {\n      ");
    r.append(entries);
    r.append(r#"
      const auto cast = [](auto&& variant) {
        return "#);
    r.append(full_name);
    r.append(r#"(std::move(variant));
      };
      return object.read_key(""#);
    r.append(tag_key);
    r.append(r#""sv).and_then([](const Reader::JsonValue& tag) {
        return tag.read_str();
      }).and_then([](std::string_view text) {
        return get_tag_index(entries, text, ""#);
    r.append(disc_name);
    r.append("\"sv);\n      }).and_then([&](int idx) -> ExpType<");
    r.append(full_name);
    r.append("> {\n        switch (idx) {");
    r.append(clauses);
    r.append(r#"
        }
        return makeJsonError(JsonErrorTypes::InvalidValue, ""#);
    r.append(disc_name);
    r.append("\"sv);\n      });\n    }\n  };\n");
    assert(r@ =~= disc_des_text(full_name@, entries@, tag_key@, disc_name@, clauses@));
    r
}

/// The routine that writes a discriminator: the tag first, then the fields
/// of the active variant.
pub open spec fn disc_ser_text(
    full_name: Seq<char>,
    tag_key: Seq<char>,
    clauses: Seq<char>,
) -> Seq<char> {
    "\n  template<> struct Serialize<"@
        + full_name
        + r#"> {
    static ExpType<void> serialize(Writer::Serializer& serializer, const "#@
        + full_name
        + "& value) {\n      using Types = "@
        + full_name
        + r#"::Types;
      SHORT_EXP(serializer.start_object());
      SHORT_KEY_VAL(""#@
        + tag_key
        + "\"sv, Common<"@
        + full_name
        + r#">::entries[static_cast<int>(value.type())]);
      switch (value.type()) {
"#@
        + clauses
        + "      }\n      return serializer.end_object();\n    }\n  };\n"@
}

pub fn disc_ser(full_name: &str, tag_key: &str, clauses: &str) -> (r: String)
    ensures
        r@ == disc_ser_text(full_name@, tag_key@, clauses@),
{
    let mut r = String::new();
    r.append("\n  template<> struct Serialize<");
    r.append(full_name);
    r.append(r#"> {
    static ExpType<void> serialize(Writer::Serializer& serializer, const "#);
    r.append(full_name);
    r.append("& value) {\n      using Types = ");
    r.append(full_name);
    r.append(r#"::Types;
      SHORT_EXP(serializer.start_object());
      SHORT_KEY_VAL(""#);
    r.append(tag_key);
    r.append("\"sv, Common<");
    r.append(full_name);
    r.append(r#">::entries[static_cast<int>(value.type())]);
      switch (value.type()) {
"#);
    r.append(clauses);
    r.append("      }\n      return serializer.end_object();\n    }\n  };\n");
    assert(r@ =~= disc_ser_text(full_name@, tag_key@, clauses@));
    r
}

/// The routine that reads one variant of a discriminator. Position 0 of its
/// table is the tag, which is only marked as seen; the variant's own fields
/// follow from position 1.
pub open spec fn vary_des_text(
    full_name: Seq<char>,
    mandatory: Seq<char>,
    visited: Seq<char>,
    vary_name: Seq<char>,
    clauses: Seq<char>,
) -> Seq<char> {
    "\n  template<> struct Json<"@
        + full_name
        + "> {\n    "@
        + mandatory
        + "\n\n    static ExpType<"@
        + full_name
        + r#"> deserialize(const Reader::JsonValue& value) {
      using Entries = Common<"#@
        + full_name
        + ">;\n      "@
        + full_name
        + " result;\n      "@
        + visited
        + r#"
      auto status = value.read_object([&](std::string_view key, const Reader::JsonValue& val) -> ExpType<void> {
        return get_value_index(Entries::entries, key, ""#@
        + vary_name
        + r#""sv).and_then([&](int idx) -> ExpType<void> {
          SHORT_EXP(mark_visited(visited, idx, key, ""#@
        + vary_name
        + r#""sv));
          switch (idx) {
                  case 0: return {};"#@
        + clauses
        + r#"
          }
          return {};
        });
      });
      if (!status) {
        return std::unexpected(status.error());
      }
      SHORT_EXP(check_mandatory(visited, mandatory_indices, Entries::entries, ""#@
        + vary_name
        + "\"sv));\n      return result;\n    }\n  };\n"@
}

pub fn vary_des(
    full_name: &str,
    mandatory: &str,
    visited: &str,
    vary_name: &str,
    clauses: &str,
) -> (r: String)
    ensures
        r@ == vary_des_text(full_name@, mandatory@, visited@, vary_name@, clauses@),
{
    let mut r = String::new();
    r.append("\n  template<> struct Json<");
    r.append(full_name);
    r.append("> {\n    ");
    r.append(mandatory);
    r.append("\n\n    static ExpType<");
    r.append(full_name);
    r.append(r#"> deserialize(const Reader::JsonValue& value) {
      using Entries = Common<"#);
    r.append(full_name);
    r.append(">;\n      ");
    r.append(full_name);
    r.append(" result;\n      ");
    r.append(visited);
    r.append(r#"
      auto status = value.read_object([&](std::string_view key, const Reader::JsonValue& val) -> ExpType<void> {
        return get_value_index(Entries::entries, key, ""#);
    r.append(vary_name);
    r.append(r#""sv).and_then([&](int idx) -> ExpType<void> {
          SHORT_EXP(mark_visited(visited, idx, key, ""#);
    r.append(vary_name);
    r.append(r#""sv));
          switch (idx) {
                  case 0: return {};"#);
    r.append(clauses);
    r.append(r#"
          }
          return {};
        });
      });
      if (!status) {
        return std::unexpected(status.error());
      }
      SHORT_EXP(check_mandatory(visited, mandatory_indices, Entries::entries, ""#);
    r.append(vary_name);
    r.append("\"sv));\n      return result;\n    }\n  };\n");
    assert(r@ =~= vary_des_text(full_name@, mandatory@, visited@, vary_name@, clauses@));
    r
}

/// The routine that writes the fields of one variant; its parent has
/// already written the tag.
pub open spec fn vary_ser_text(full_name: Seq<char>, write_props: Seq<char>) -> Seq<char> {
    "\n  template<> struct Serialize<"@
        + full_name
        + r#"> {
    static ExpType<void> serialize(Writer::Serializer& serializer, const "#@
        + full_name
        + "& value) {\n"@
        + write_props
        + "      return {};\n    }\n  };\n"@
}

pub fn vary_ser(full_name: &str, write_props: &str) -> (r: String)
    ensures
        r@ == vary_ser_text(full_name@, write_props@),
{
    let mut r = String::new();
    r.append("\n  template<> struct Serialize<");
    r.append(full_name);
    r.append(r#"> {
    static ExpType<void> serialize(Writer::Serializer& serializer, const "#);
    r.append(full_name);
    r.append("& value) {\n");
    r.append(write_props);
    r.append("      return {};\n    }\n  };\n");
    assert(r@ =~= vary_ser_text(full_name@, write_props@));
    r
}

/// The declaration of a discriminator: a closed sum over its variants, with
/// the active variant's position, a getter per variant that answers only
/// for the active one, and construction from any variant.
pub open spec fn disc_declare_text(
    discriminator_name: Seq<char>,
    variant_names: Seq<char>,
    type_values: Seq<char>,
) -> Seq<char> {
    "\nstruct "@
        + discriminator_name
        + " {\n  using Variants = std::variant<"@
        + variant_names
        + ">;\n\n  enum class Types : int {\n    "@
        + type_values
        + "\n  };\n\n  template<typename T> "@
        + discriminator_name
        + r#"(T&& variant) : value_(std::forward<T>(variant)) {}

  template<typename T> "#@
        + discriminator_name
        + r#"& operator=(T&& variant) {
    value_ = std::forward<T>(variant);
    return *this;
  }

  Types type() const {
    return static_cast<Types>(value_.index());
  }

  template<Types Index> const auto* get() const {
    return std::get_if<static_cast<std::size_t>(Index)>(&value_);
  }

private:
  Variants value_;
};
"#@
}

pub fn disc_declare(discriminator_name: &str, variant_names: &str, type_values: &str) -> (r: String)
    ensures
        r@ == disc_declare_text(discriminator_name@, variant_names@, type_values@),
{
    let mut r = String::new();
    r.append("\nstruct ");
    r.append(discriminator_name);
    r.append(" {\n  using Variants = std::variant<");
    r.append(variant_names);
    r.append(">;\n\n  enum class Types : int {\n    ");
    r.append(type_values);
    r.append("\n  };\n\n  template<typename T> ");
    r.append(discriminator_name);
    r.append(r#"(T&& variant) : value_(std::forward<T>(variant)) {}

  template<typename T> "#);
    r.append(discriminator_name);
    r.append(r#"& operator=(T&& variant) {
    value_ = std::forward<T>(variant);
    return *this;
  }

  Types type() const {
    return static_cast<Types>(value_.index());
  }

  template<Types Index> const auto* get() const {
    return std::get_if<static_cast<std::size_t>(Index)>(&value_);
  }

private:
  Variants value_;
};
"#);
    assert(r@ =~= disc_declare_text(discriminator_name@, variant_names@, type_values@));
    r
}

/// The routine that reads a scalar: `read_value` reads it, `reader_xform`
/// narrows it to `full_name` where the reader's type is wider, `data_xform`
/// makes it an owned value where the reader lends it.
pub open spec fn prim_des_text(
    full_name: Seq<char>,
    read_value: Seq<char>,
    reader_xform: Seq<char>,
    data_xform: Seq<char>,
) -> Seq<char> {
    "\n  template<> struct Json<"@
        + full_name
        + "> {\n    static ExpType<"@
        + full_name
        + r#"> deserialize(const Reader::JsonValue& value) {
      return "#@
        + read_value
        + reader_xform
        + data_xform
        + ";\n    }\n  };\n"@
}

pub fn prim_des(
    full_name: &str,
    read_value: &str,
    reader_xform: &str,
    data_xform: &str,
) -> (r: String)
    ensures
        r@ == prim_des_text(full_name@, read_value@, reader_xform@, data_xform@),
{
    let mut r = String::new();
    r.append("\n  template<> struct Json<");
    r.append(full_name);
    r.append("> {\n    static ExpType<");
    r.append(full_name);
    r.append(r#"> deserialize(const Reader::JsonValue& value) {
      return "#);
    r.append(read_value);
    r.append(reader_xform);
    r.append(data_xform);
    r.append(";\n    }\n  };\n");
    assert(r@ =~= prim_des_text(full_name@, read_value@, reader_xform@, data_xform@));
    r
}

} // verus!
