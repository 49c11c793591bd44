//! Rendering options: include guard, namespace, where the support headers
//! live, which dictionary container to use and which routines to emit.

use vstd::prelude::*;

verus! {

/// How the generated header protects itself against double inclusion.
#[derive(Debug)]
pub enum Guard {
    Pragma,
    Name(String),
}

pub enum GuardView {
    Pragma,
    Name(Seq<char>),
}

impl View for Guard {
    type V = GuardView;

    open spec fn view(&self) -> GuardView {
        match self {
            Guard::Pragma => GuardView::Pragma,
            Guard::Name(n) => GuardView::Name(n@),
        }
    }
}

impl GuardView {
    /// The lines that open the guard.
    pub open spec fn guard_text(self) -> Seq<char> {
        match self {
            GuardView::Pragma => "#pragma once\n\n"@,
            GuardView::Name(n) => "#ifndef "@ + n + "\n#define "@ + n + "\n\n"@,
        }
    }

    /// The lines that close the guard.
    pub open spec fn footer_text(self) -> Seq<char> {
        match self {
            GuardView::Pragma => Seq::empty(),
            GuardView::Name(_) => "\n#endif\n"@,
        }
    }
}

impl Guard {
    pub fn get_guard(&self) -> (r: String)
        ensures
            r@ == self@.guard_text(),
    {
        match self {
            Guard::Pragma => "#pragma once\n\n".to_owned(),
            Guard::Name(n) => {
                let mut r = String::new();
                r.append("#ifndef ");
                r.append(n.as_str());
                r.append("\n#define ");
                r.append(n.as_str());
                r.append("\n\n");
                assert(r@ =~= self@.guard_text());
                r
            },
        }
    }

    pub fn get_footer(&self) -> (r: String)
        ensures
            r@ == self@.footer_text(),
    {
        match self {
            Guard::Pragma => String::new(),
            Guard::Name(_) => "\n#endif\n".to_owned(),
        }
    }
}

/// Where one of the support headers is found.
#[derive(Debug)]
pub enum JsonCodeGenInclude {
    Ignore,
    Local,
    System,
    Path(String),
}

pub enum IncludeView {
    Ignore,
    Local,
    System,
    Path(Seq<char>),
}

impl View for JsonCodeGenInclude {
    type V = IncludeView;

    open spec fn view(&self) -> IncludeView {
        match self {
            JsonCodeGenInclude::Ignore => IncludeView::Ignore,
            JsonCodeGenInclude::Local => IncludeView::Local,
            JsonCodeGenInclude::System => IncludeView::System,
            JsonCodeGenInclude::Path(p) => IncludeView::Path(p@),
        }
    }
}

impl IncludeView {
    /// The include line for the header `basename`, or nothing when ignored.
    pub open spec fn header_text(self, basename: Seq<char>) -> Seq<char> {
        match self {
            IncludeView::Ignore => Seq::empty(),
            IncludeView::Local => "#include "@ + "\""@ + basename + "\""@ + "\n"@,
            IncludeView::System => "#include "@ + "<"@ + basename + ">"@ + "\n"@,
            IncludeView::Path(p) => "#include "@ + p + "\n"@,
        }
    }
}

impl Default for JsonCodeGenInclude {
    fn default() -> (r: JsonCodeGenInclude)
        ensures
            r@ == IncludeView::System,
    {
        JsonCodeGenInclude::System
    }
}

impl JsonCodeGenInclude {
    pub fn get_header_file(&self, basename: &str) -> (r: String)
        ensures
            r@ == self@.header_text(basename@),
    {
        let mut r = String::new();
        match self {
            JsonCodeGenInclude::Ignore => {},
            JsonCodeGenInclude::Local => {
                r.append("#include ");
                r.append("\"");
                r.append(basename);
                r.append("\"");
                r.append("\n");
            },
            JsonCodeGenInclude::System => {
                r.append("#include ");
                r.append("<");
                r.append(basename);
                r.append(">");
                r.append("\n");
            },
            JsonCodeGenInclude::Path(p) => {
                r.append("#include ");
                r.append(p.as_str());
                r.append("\n");
            },
        }
        assert(r@ =~= self@.header_text(basename@));
        r
    }
}

/// Which conversion routines are emitted.
#[derive(Clone, Copy, Debug, PartialEq, Eq, Structural)]
pub enum Output {
    Deserialize,
    Serialize,
    Both,
}

impl Default for Output {
    fn default() -> (r: Output)
        ensures
            r == Output::Both,
    {
        Output::Both
    }
}

impl Output {
    pub open spec fn spec_deserialize(&self) -> bool {
        !(self is Serialize)
    }

    pub open spec fn spec_serialize(&self) -> bool {
        !(self is Deserialize)
    }

    #[verifier::when_used_as_spec(spec_deserialize)]
    pub fn deserialize(&self) -> (r: bool)
        ensures
            r == self.spec_deserialize(),
    {
        match self {
            Output::Deserialize | Output::Both => true,
            Output::Serialize => false,
        }
    }

    #[verifier::when_used_as_spec(spec_serialize)]
    pub fn serialize(&self) -> (r: bool)
        ensures
            r == self.spec_serialize(),
    {
        match self {
            Output::Deserialize => false,
            Output::Serialize | Output::Both => true,
        }
    }
}

/// Whether dictionaries keep their keys sorted.
#[derive(Clone, Copy, Debug, PartialEq, Eq, Structural)]
pub enum Dictionary {
    Ordered,
    Unordered,
}

impl Default for Dictionary {
    fn default() -> (r: Dictionary)
        ensures
            r == Dictionary::Unordered,
    {
        Dictionary::Unordered
    }
}

impl Dictionary {
    /// The standard header that declares the container for values of
    /// `sub_type`; an empty `sub_type` asks for the set of keys.
    pub open spec fn header(self, sub_type: Seq<char>) -> Seq<char> {
        match self {
            Dictionary::Ordered => if sub_type.len() == 0 {
                "<set>"@
            } else {
                "<map>"@
            },
            Dictionary::Unordered => if sub_type.len() == 0 {
                "<unordered_set>"@
            } else {
                "<unordered_map>"@
            },
        }
    }

    /// The class template of the map container.
    pub open spec fn map_template(self) -> Seq<char> {
        match self {
            Dictionary::Ordered => "std::map"@,
            Dictionary::Unordered => "std::unordered_map"@,
        }
    }

    /// The container type for values of `sub_type`, keyed by string.
    pub open spec fn container(self, sub_type: Seq<char>) -> Seq<char> {
        match self {
            Dictionary::Ordered => if sub_type.len() == 0 {
                "std::set<std::string>"@
            } else {
                "std::map<std::string, "@ + sub_type + ">"@
            },
            Dictionary::Unordered => if sub_type.len() == 0 {
                "std::unordered_set<std::string>"@
            } else {
                "std::unordered_map<std::string, "@ + sub_type + ">"@
            },
        }
    }
}

pub struct CppProps {
    pub guard: Option<Guard>,
    pub namespace: Option<String>,
    pub include_reader: JsonCodeGenInclude,
    pub include_data: JsonCodeGenInclude,
    pub include_writer: JsonCodeGenInclude,
    pub dictionary: Dictionary,
    pub output: Output,
}

pub struct PropsView {
    pub guard: Option<GuardView>,
    pub namespace: Option<Seq<char>>,
    pub include_reader: IncludeView,
    pub include_data: IncludeView,
    pub include_writer: IncludeView,
    pub dictionary: Dictionary,
    pub output: Output,
}

impl View for CppProps {
    type V = PropsView;

    open spec fn view(&self) -> PropsView {
        PropsView {
            guard: match self.guard {
                Some(g) => Some(g@),
                None => None,
            },
            namespace: match self.namespace {
                Some(ns) => Some(ns@),
                None => None,
            },
            include_reader: self.include_reader@,
            include_data: self.include_data@,
            include_writer: self.include_writer@,
            dictionary: self.dictionary,
            output: self.output,
        }
    }
}

impl PropsView {
    /// What a default-built configuration holds: no guard, no namespace,
    /// every support header in the system path, unordered dictionaries and
    /// both directions of conversion.
    pub open spec fn initial() -> PropsView {
        PropsView {
            guard: None,
            namespace: None,
            include_reader: IncludeView::System,
            include_data: IncludeView::System,
            include_writer: IncludeView::System,
            dictionary: Dictionary::Unordered,
            output: Output::Both,
        }
    }

    pub open spec fn guard_text(self) -> Seq<char> {
        match self.guard {
            Some(g) => g.guard_text(),
            None => Seq::empty(),
        }
    }

    pub open spec fn footer_text(self) -> Seq<char> {
        match self.guard {
            Some(g) => g.footer_text(),
            None => Seq::empty(),
        }
    }

    pub open spec fn open_namespace_text(self) -> Seq<char> {
        match self.namespace {
            Some(ns) => "namespace "@ + ns + " {\n"@,
            None => Seq::empty(),
        }
    }

    pub open spec fn close_namespace_text(self) -> Seq<char> {
        match self.namespace {
            Some(ns) => "\n} // namespace "@ + ns + "\n"@,
            None => Seq::empty(),
        }
    }

    /// `name` qualified by the configured namespace, if there is one.
    pub open spec fn namespaced(self, name: Seq<char>) -> Seq<char> {
        match self.namespace {
            Some(ns) => ns + "::"@ + name,
            None => name,
        }
    }

    /// Include lines of the generated header: the data header always, the
    /// reader when deserializing, the writer when serializing.
    pub open spec fn codegen_includes(self) -> Seq<char> {
        self.include_data.header_text("json_data.hpp"@) + (if self.output.spec_deserialize() {
            self.include_reader.header_text("json_reader.hpp"@)
        } else {
            Seq::empty()
        }) + (if self.output.spec_serialize() {
            self.include_writer.header_text("json_writer.hpp"@)
        } else {
            Seq::empty()
        })
    }

    /// Include lines of the generated source file. Both support headers are
    /// located the way the data header is.
    pub open spec fn codegen_src_includes(self) -> Seq<char> {
        (if self.output.spec_deserialize() {
            self.include_data.header_text("deserialize.hpp"@)
        } else {
            Seq::empty()
        }) + (if self.output.spec_serialize() {
            self.include_data.header_text("serialize.hpp"@)
        } else {
            Seq::empty()
        })
    }
}

impl Default for CppProps {
    fn default() -> (r: CppProps)
        ensures
            r@ == PropsView::initial(),
    {
        CppProps {
            guard: None,
            namespace: None,
            include_reader: JsonCodeGenInclude::System,
            include_data: JsonCodeGenInclude::System,
            include_writer: JsonCodeGenInclude::System,
            dictionary: Dictionary::Unordered,
            output: Output::Both,
        }
    }
}

impl CppProps {
    pub fn get_output(&self) -> (r: Output)
        ensures
            r == self@.output,
    {
        self.output
    }

    pub fn get_guard(&self) -> (r: String)
        ensures
            r@ == self@.guard_text(),
    {
        match &self.guard {
            Some(head) => head.get_guard(),
            None => String::new(),
        }
    }

    pub fn get_footer(&self) -> (r: String)
        ensures
            r@ == self@.footer_text(),
    {
        match &self.guard {
            Some(head) => head.get_footer(),
            None => String::new(),
        }
    }

    pub fn open_namespace(&self) -> (r: String)
        ensures
            r@ == self@.open_namespace_text(),
    {
        let mut r = String::new();
        match &self.namespace {
            Some(ns) => {
                r.append("namespace ");
                r.append(ns.as_str());
                r.append(" {\n");
            },
            None => {},
        }
        assert(r@ =~= self@.open_namespace_text());
        r
    }

    pub fn close_namespace(&self) -> (r: String)
        ensures
            r@ == self@.close_namespace_text(),
    {
        let mut r = String::new();
        match &self.namespace {
            Some(ns) => {
                r.append("\n} // namespace ");
                r.append(ns.as_str());
                r.append("\n");
            },
            None => {},
        }
        assert(r@ =~= self@.close_namespace_text());
        r
    }

    pub fn get_namespaced_name(&self, name: &str) -> (r: String)
        ensures
            r@ == self@.namespaced(name@),
    {
        let mut r = String::new();
        match &self.namespace {
            Some(ns) => {
                r.append(ns.as_str());
                r.append("::");
            },
            None => {},
        }
        r.append(name);
        assert(r@ =~= self@.namespaced(name@));
        r
    }

    pub fn get_codegen_includes(&self) -> (r: String)
        ensures
            r@ == self@.codegen_includes(),
    {
        let mut r = self.include_data.get_header_file("json_data.hpp");
        if self.output.deserialize() {
            let h = self.include_reader.get_header_file("json_reader.hpp");
            r.append(h.as_str());
        }
        if self.output.serialize() {
            let h = self.include_writer.get_header_file("json_writer.hpp");
            r.append(h.as_str());
        }
        assert(r@ =~= self@.codegen_includes());
        r
    }

    pub fn get_codegen_src_includes(&self) -> (r: String)
        ensures
            r@ == self@.codegen_src_includes(),
    {
        let mut r = String::new();
        if self.output.deserialize() {
            let h = self.include_data.get_header_file("deserialize.hpp");
            r.append(h.as_str());
        }
        if self.output.serialize() {
            let h = self.include_data.get_header_file("serialize.hpp");
            r.append(h.as_str());
        }
        assert(r@ =~= self@.codegen_src_includes());
        r
    }

    /// The class template of the configured map container.
    pub fn get_map_template(&self) -> (r: &'static str)
        ensures
            r@ == self@.dictionary.map_template(),
    {
        match self.dictionary {
            Dictionary::Ordered => "std::map",
            Dictionary::Unordered => "std::unordered_map",
        }
    }

    /// The header to include and the container type to name for a dictionary
    /// with values of `sub_type`; an empty `sub_type` asks for a set of keys.
    pub fn get_dictionary_info(&self, sub_type: &str) -> (r: (&'static str, String))
        ensures
            r.0@ == self@.dictionary.header(sub_type@),
            r.1@ == self@.dictionary.container(sub_type@),
    {
        let is_set = sub_type.unicode_len() == 0;
        let mut name = String::new();
        match self.dictionary {
            Dictionary::Ordered => {
                if is_set {
                    name.append("std::set<std::string>");
                    assert(name@ =~= self@.dictionary.container(sub_type@));
                    ("<set>", name)
                } else {
                    name.append("std::map<std::string, ");
                    name.append(sub_type);
                    name.append(">");
                    assert(name@ =~= self@.dictionary.container(sub_type@));
                    ("<map>", name)
                }
            },
            Dictionary::Unordered => {
                if is_set {
                    name.append("std::unordered_set<std::string>");
                    assert(name@ =~= self@.dictionary.container(sub_type@));
                    ("<unordered_set>", name)
                } else {
                    name.append("std::unordered_map<std::string, ");
                    name.append(sub_type);
                    name.append(">");
                    assert(name@ =~= self@.dictionary.container(sub_type@));
                    ("<unordered_map>", name)
                }
            },
        }
    }
}

} // verus!
