//! Emission: the output streams rendered from the finished registry.

use vstd::prelude::*;
use crate::cpp_snippets::{
    map_code,
    map_code_text,
    ARRAY_CODE,
    ENUM_INDEX_CODE,
    INTERNAL_CODE_FOOTER,
    INTERNAL_CODE_HEADER,
    NULLABLE_CODE,
    RAW_VALUE_CODE,
    VALUE_INDEX_CODE,
};
use crate::cpp_types::containers::set_function_text;
use crate::cpp_types::{aliased_name, CppDict, CppTypes, ShapeView};
use crate::props::{CppProps, PropsView};
use crate::state::{lemma_position, CppState, HelperNeeds, StateView};
use crate::text::{same_text, views};

verus! {

impl CppState {
    /// The name that stands for the type expression `name`: that of the
    /// first alias declared for it, or `name` itself.
    pub fn get_aliased_name<'a>(&'a self, name: &'a str) -> (r: &'a str)
        ensures
            r@ == aliased_name(self@.types, name@),
    {
        let mut i: usize = 0;
        assert(self@.types.skip(0) =~= self@.types);
        while i < self.cpp_types.len()
            invariant
                i <= self.cpp_types@.len(),
                aliased_name(self@.types, name@) == aliased_name(
                    self@.types.skip(i as int),
                    name@,
                ),
            decreases self.cpp_types@.len() - i,
        {
            assert(self@.types.skip(i as int)[0] == self.cpp_types@[i as int]@);
            assert(self@.types.skip(i as int).drop_first() =~= self@.types.skip(i + 1));
            match &self.cpp_types[i] {
                CppTypes::Alias(alias) => {
                    if alias.sub_matches(name) {
                        return alias.get_name();
                    }
                },
                _ => {},
            }
            i += 1;
        }
        name
    }
}

/// One include line per header, in order.
pub open spec fn include_lines(files: Seq<Seq<char>>) -> Seq<char>
    decreases files.len(),
{
    if files.len() == 0 {
        Seq::empty()
    } else {
        include_lines(files.drop_last()) + "#include "@ + files.last() + "\n"@
    }
}

/// One include line per header of `files` that is not among `known`, in
/// order.
pub open spec fn new_include_lines(files: Seq<Seq<char>>, known: Seq<Seq<char>>) -> Seq<char>
    decreases files.len(),
{
    if files.len() == 0 {
        Seq::empty()
    } else {
        new_include_lines(files.drop_last(), known) + (if known.contains(files.last()) {
            Seq::<char>::empty()
        } else {
            "#include "@ + files.last() + "\n"@
        })
    }
}

/// One forward declaration per shape that needs one, in registry order.
pub open spec fn forward_lines(names: Seq<Seq<char>>, types: Seq<ShapeView>) -> Seq<char>
    decreases types.len(),
{
    if types.len() == 0 || names.len() != types.len() {
        Seq::empty()
    } else {
        forward_lines(names.drop_last(), types.drop_last()) + (match types.last().prefix() {
            Some(prefix) => prefix + " "@ + names.last() + ";\n"@,
            None => Seq::<char>::empty(),
        })
    }
}

/// The declaration of every alias, in registry order.
pub open spec fn alias_lines(types: Seq<ShapeView>) -> Seq<char>
    decreases types.len(),
{
    if types.len() == 0 {
        Seq::empty()
    } else {
        alias_lines(types.drop_last()) + (match types.last() {
            ShapeView::Alias(a) => a.format_text(),
            _ => Seq::<char>::empty(),
        })
    }
}

/// The declaration of every shape that has one, in registry order.
pub open spec fn declaration_texts(types: Seq<ShapeView>) -> Seq<char>
    decreases types.len(),
{
    if types.len() == 0 {
        Seq::empty()
    } else {
        declaration_texts(types.drop_last()) + (match types.last().declare_text() {
            Some(text) => text,
            None => Seq::<char>::empty(),
        })
    }
}

/// The conversion routines of every shape that has some, in registry
/// order.
pub open spec fn internal_codes(types: Seq<ShapeView>, props: PropsView) -> Seq<char>
    decreases types.len(),
{
    if types.len() == 0 {
        Seq::empty()
    } else {
        internal_codes(types.drop_last(), props) + (match types.last().internal_code_text(props) {
            Some(text) => text,
            None => Seq::<char>::empty(),
        })
    }
}

/// The shared routines that were asked for, each once, in a fixed order.
pub open spec fn helper_texts(needs: HelperNeeds, props: PropsView) -> Seq<char> {
    (if needs.enum_index {
        ENUM_INDEX_CODE@
    } else {
        Seq::empty()
    }) + (if needs.value_index {
        VALUE_INDEX_CODE@
    } else {
        Seq::empty()
    }) + (if needs.array {
        ARRAY_CODE@
    } else {
        Seq::empty()
    }) + (if needs.map {
        map_code_text(props.dictionary.map_template())
    } else {
        Seq::empty()
    }) + (if needs.set {
        set_function_text(props)
    } else {
        Seq::empty()
    }) + (if needs.raw_value {
        RAW_VALUE_CODE@
    } else {
        Seq::empty()
    }) + (if needs.nullable {
        NULLABLE_CODE@
    } else {
        Seq::empty()
    })
}

/// `lines` under `heading`, or nothing where there are no lines.
pub open spec fn headed(heading: Seq<char>, lines: Seq<char>) -> Seq<char> {
    if lines.len() == 0 {
        lines
    } else {
        heading + lines
    }
}

impl StateView {
    /// Whether every declaration can be rendered.
    pub open spec fn declarable(self) -> bool {
        forall|i: int| 0 <= i < self.types.len() ==> (#[trigger] self.types[i]).nameable()
    }

    pub open spec fn include_files_text(self, props: PropsView) -> Seq<char> {
        props.codegen_includes() + include_lines(self.include_files)
    }

    pub open spec fn src_include_files_text(self, props: PropsView) -> Seq<char> {
        "#define IMPL_DESERIALIZE\n"@ + props.codegen_src_includes() + new_include_lines(
            self.src_include_files,
            self.include_files,
        )
    }

    /// The one block of conversion routines: the shared routines that
    /// were asked for, then the routines of the shapes.
    pub open spec fn internal_code_text(self, props: PropsView) -> Seq<char> {
        INTERNAL_CODE_HEADER@ + helper_texts(self.needs, props) + internal_codes(
            self.types,
            props,
        ) + INTERNAL_CODE_FOOTER@
    }

    pub open spec fn forward_declarations_text(self) -> Seq<char> {
        headed("\n// forward declarations\n"@, forward_lines(self.names, self.types))
    }

    pub open spec fn alias_text(self) -> Seq<char> {
        headed("\n// aliases\n"@, alias_lines(self.types))
    }

    pub open spec fn declare_text(self) -> Seq<char> {
        headed("\n// declarations"@, declaration_texts(self.types))
    }

    /// The shape registered under the root's name.
    pub open spec fn root_shape(self) -> ShapeView {
        self.types[self.index_of(self.root_type->0)->0]
    }

    /// The public prototypes: those of the root and of no other shape.
    pub open spec fn prototype_text(self, props: PropsView) -> Seq<char> {
        match self.root_shape().prototype_text(self.types, props) {
            Some(text) => "\n// prototypes"@ + text,
            None => Seq::empty(),
        }
    }

    /// The public definitions: those of the root and of no other shape.
    pub open spec fn define_text(self, props: PropsView) -> Seq<char> {
        match self.root_shape().define_text(self.types, props) {
            Some(text) => text,
            None => Seq::empty(),
        }
    }

    /// The generated header file: guard, includes, then inside the
    /// namespace the forward declarations, the aliases, the declarations
    /// and the prototypes, in this order.
    pub open spec fn header_text(self, props: PropsView) -> Seq<char> {
        props.guard_text() + self.include_files_text(props) + props.open_namespace_text()
            + self.forward_declarations_text() + self.alias_text() + self.declare_text()
            + self.prototype_text(props) + props.close_namespace_text() + props.footer_text()
    }

    /// The generated source file: includes, the block of conversion
    /// routines, then the public definitions inside the namespace.
    pub open spec fn source_text(self, props: PropsView) -> Seq<char> {
        self.src_include_files_text(props) + self.internal_code_text(props)
            + props.open_namespace_text() + self.define_text(props) + props.close_namespace_text()
    }
}

/// Whether `file` is among `files`.
fn has_file(files: &Vec<String>, file: &str) -> (r: bool)
    ensures
        r == views(files@).contains(file@),
{
    let mut i: usize = 0;
    while i < files.len()
        invariant
            i <= files@.len(),
            forall|k: int| 0 <= k < i ==> views(files@)[k] != file@,
        decreases files@.len() - i,
    {
        if same_text(files[i].as_str(), file) {
            assert(views(files@)[i as int] == file@);
            return true;
        }
        i += 1;
    }
    false
}

impl CppState {
    /// Which shared routines the shapes seen so far rely on.
    pub fn get_needs(&self) -> (r: HelperNeeds)
        ensures
            r == self@.needs,
    {
        self.needs
    }

    /// Whether a root was chosen.
    pub fn has_root(&self) -> (r: bool)
        ensures
            r == (self@.root_type is Some),
    {
        self.root_type.is_some()
    }

    /// Whether every declaration can be rendered.
    pub fn is_declarable(&self) -> (r: bool)
        ensures
            r == self@.declarable(),
    {
        let mut i: usize = 0;
        while i < self.cpp_types.len()
            invariant
                i <= self.cpp_types@.len(),
                forall|k: int| 0 <= k < i ==> (#[trigger] self@.types[k]).nameable(),
            decreases self.cpp_types@.len() - i,
        {
            assert(self@.types[i as int] == self.cpp_types@[i as int]@);
            let ok = match &self.cpp_types[i] {
                CppTypes::Discriminator(d) => d.is_nameable(),
                _ => true,
            };
            if !ok {
                return false;
            }
            i += 1;
        }
        true
    }

    pub fn write_include_files(&self, cpp_props: &CppProps) -> (r: String)
        ensures
            r@ == self@.include_files_text(cpp_props@),
    {
        let mut r = cpp_props.get_codegen_includes();
        let ghost head = r@;
        let ghost files = views(self.include_files@);
        let mut i: usize = 0;
        while i < self.include_files.len()
            invariant
                i <= self.include_files@.len(),
                files == views(self.include_files@),
                r@ == head + include_lines(files.take(i as int)),
            decreases self.include_files@.len() - i,
        {
            assert(files.take(i + 1).drop_last() =~= files.take(i as int));
            r.append("#include ");
            r.append(self.include_files[i].as_str());
            r.append("\n");
            i += 1;
            assert(r@ =~= head + include_lines(files.take(i as int)));
        }
        assert(files.take(i as int) =~= files);
        r
    }

    pub fn write_src_include_files(&self, cpp_props: &CppProps) -> (r: String)
        ensures
            r@ == self@.src_include_files_text(cpp_props@),
    {
        let mut r = "#define IMPL_DESERIALIZE\n".to_owned();
        r.append(cpp_props.get_codegen_src_includes().as_str());
        let ghost head = r@;
        let ghost files = views(self.src_include_files@);
        let ghost known = views(self.include_files@);
        let mut i: usize = 0;
        while i < self.src_include_files.len()
            invariant
                i <= self.src_include_files@.len(),
                files == views(self.src_include_files@),
                known == views(self.include_files@),
                r@ == head + new_include_lines(files.take(i as int), known),
            decreases self.src_include_files@.len() - i,
        {
            assert(files.take(i + 1).drop_last() =~= files.take(i as int));
            let h = self.src_include_files[i].as_str();
            if !has_file(&self.include_files, h) {
                r.append("#include ");
                r.append(h);
                r.append("\n");
            }
            i += 1;
            assert(r@ =~= head + new_include_lines(files.take(i as int), known));
        }
        assert(files.take(i as int) =~= files);
        r
    }

    fn write_helpers(&self, cpp_props: &CppProps) -> (r: String)
        ensures
            r@ == helper_texts(self@.needs, cpp_props@),
    {
        let mut r = String::new();
        if self.needs.enum_index {
            r.append(ENUM_INDEX_CODE);
        }
        if self.needs.value_index {
            r.append(VALUE_INDEX_CODE);
        }
        if self.needs.array {
            r.append(ARRAY_CODE);
        }
        if self.needs.map {
            r.append(map_code(cpp_props.get_map_template()).as_str());
        }
        if self.needs.set {
            r.append(CppDict::get_set_internal_function(cpp_props).as_str());
        }
        if self.needs.raw_value {
            r.append(RAW_VALUE_CODE);
        }
        if self.needs.nullable {
            r.append(NULLABLE_CODE);
        }
        assert(r@ =~= helper_texts(self@.needs, cpp_props@));
        r
    }

    pub fn write_internal_code(&self, cpp_props: &CppProps) -> (r: String)
        requires
            self@.wf_registry(),
            cpp_props@.output.spec_serialize() ==> self@.declarable(),
        ensures
            r@ == self@.internal_code_text(cpp_props@),
    {
        let mut codes = String::new();
        let mut i: usize = 0;
        while i < self.cpp_types.len()
            invariant
                i <= self.cpp_types@.len(),
                self@.wf_registry(),
                cpp_props@.output.spec_serialize() ==> self@.declarable(),
                codes@ == internal_codes(self@.types.take(i as int), cpp_props@),
            decreases self.cpp_types@.len() - i,
        {
            assert(self@.types.take(i + 1).drop_last() =~= self@.types.take(i as int));
            assert(self@.types[i as int] == self.cpp_types@[i as int]@);
            match self.cpp_types[i].get_internal_code(self, cpp_props) {
                Some(text) => {
                    codes.append(text.as_str());
                },
                None => {},
            }
            i += 1;
            assert(codes@ =~= internal_codes(self@.types.take(i as int), cpp_props@));
        }
        assert(self@.types.take(i as int) =~= self@.types);
        let mut r = INTERNAL_CODE_HEADER.to_owned();
        r.append(self.write_helpers(cpp_props).as_str());
        r.append(codes.as_str());
        r.append(INTERNAL_CODE_FOOTER);
        assert(r@ =~= self@.internal_code_text(cpp_props@));
        r
    }

    pub fn write_forward_declarations(&self) -> (r: String)
        requires
            self@.wf_registry(),
        ensures
            r@ == self@.forward_declarations_text(),
    {
        let mut forward = String::new();
        let mut i: usize = 0;
        while i < self.cpp_types.len()
            invariant
                i <= self.cpp_types@.len(),
                self@.names.len() == self@.types.len(),
                forward@ == forward_lines(self@.names.take(i as int), self@.types.take(i as int)),
            decreases self.cpp_types@.len() - i,
        {
            assert(self@.types.take(i + 1).drop_last() =~= self@.types.take(i as int));
            assert(self@.names.take(i + 1).drop_last() =~= self@.names.take(i as int));
            assert(self@.types[i as int] == self.cpp_types@[i as int]@);
            assert(self@.names[i as int] == self.names@[i as int]@);
            match self.cpp_types[i].type_prefix() {
                Some(pf) => {
                    forward.append(pf);
                    forward.append(" ");
                    forward.append(self.names[i].as_str());
                    forward.append(";\n");
                },
                None => {},
            }
            i += 1;
            assert(forward@ =~= forward_lines(
                self@.names.take(i as int),
                self@.types.take(i as int),
            ));
        }
        assert(self@.types.take(i as int) =~= self@.types);
        assert(self@.names.take(i as int) =~= self@.names);
        with_heading("\n// forward declarations\n", forward)
    }

    pub fn write_alias(&self) -> (r: String)
        ensures
            r@ == self@.alias_text(),
    {
        let mut aliases = String::new();
        let mut i: usize = 0;
        while i < self.cpp_types.len()
            invariant
                i <= self.cpp_types@.len(),
                aliases@ == alias_lines(self@.types.take(i as int)),
            decreases self.cpp_types@.len() - i,
        {
            assert(self@.types.take(i + 1).drop_last() =~= self@.types.take(i as int));
            assert(self@.types[i as int] == self.cpp_types@[i as int]@);
            match &self.cpp_types[i] {
                CppTypes::Alias(a) => {
                    aliases.append(a.format().as_str());
                },
                _ => {},
            }
            i += 1;
            assert(aliases@ =~= alias_lines(self@.types.take(i as int)));
        }
        assert(self@.types.take(i as int) =~= self@.types);
        with_heading("\n// aliases\n", aliases)
    }

    /// Ends the ingestion. Nothing is left to do: the state is ready to be
    /// rendered after every declaration.
    pub fn conclude(&mut self)
        ensures
            *final(self) == *old(self),
    {
    }

    pub fn declare(&self, cpp_props: &CppProps) -> (r: String)
        requires
            self@.declarable(),
        ensures
            r@ == self@.declare_text(),
    {
        let mut declares = String::new();
        let mut i: usize = 0;
        while i < self.cpp_types.len()
            invariant
                i <= self.cpp_types@.len(),
                self@.declarable(),
                declares@ == declaration_texts(self@.types.take(i as int)),
            decreases self.cpp_types@.len() - i,
        {
            assert(self@.types.take(i + 1).drop_last() =~= self@.types.take(i as int));
            assert(self@.types[i as int] == self.cpp_types@[i as int]@);
            match self.cpp_types[i].declare(self, cpp_props) {
                Some(text) => {
                    declares.append(text.as_str());
                },
                None => {},
            }
            i += 1;
            assert(declares@ =~= declaration_texts(self@.types.take(i as int)));
        }
        assert(self@.types.take(i as int) =~= self@.types);
        with_heading("\n// declarations", declares)
    }

    fn get_root_type(&self) -> (r: &CppTypes)
        requires
            self@.wf(),
            self@.root_type is Some,
        ensures
            r@ == self@.root_shape(),
    {
        proof {
            lemma_position(self@.names, self@.root_type->0);
        }
        match &self.root_type {
            Some(name) => match self.get_index_from_name(name.as_str()) {
                Some(idx) => {
                    assert(self@.types[idx as int] == self.cpp_types@[idx as int]@);
                    &self.cpp_types[idx]
                },
                None => {
                    proof {
                        assert(false);
                    }
                    &self.cpp_types[0]
                },
            },
            None => {
                proof {
                    assert(false);
                }
                &self.cpp_types[0]
            },
        }
    }

    /// The public prototypes: those of the root shape.
    pub fn prototype(&self, cpp_props: &CppProps) -> (r: String)
        requires
            self@.wf(),
            self@.root_type is Some,
        ensures
            r@ == self@.prototype_text(cpp_props@),
    {
        match self.get_root_type().prototype(self, cpp_props) {
            Some(proto) => {
                let mut r = "\n// prototypes".to_owned();
                r.append(proto.as_str());
                r
            },
            None => String::new(),
        }
    }

    /// The public definitions: those of the root shape.
    pub fn define(&self, cpp_props: &CppProps) -> (r: String)
        requires
            self@.wf(),
            self@.root_type is Some,
        ensures
            r@ == self@.define_text(cpp_props@),
    {
        match self.get_root_type().define(self, cpp_props) {
            Some(proto) => proto,
            None => String::new(),
        }
    }

    /// Renders the generated header file.
    pub fn write_header(&self, cpp_props: &CppProps) -> (r: String)
        requires
            self@.wf(),
            self@.root_type is Some,
            self@.declarable(),
        ensures
            r@ == self@.header_text(cpp_props@),
    {
        let mut r = cpp_props.get_guard();
        r.append(self.write_include_files(cpp_props).as_str());
        r.append(cpp_props.open_namespace().as_str());
        r.append(self.write_forward_declarations().as_str());
        r.append(self.write_alias().as_str());
        r.append(self.declare(cpp_props).as_str());
        r.append(self.prototype(cpp_props).as_str());
        r.append(cpp_props.close_namespace().as_str());
        r.append(cpp_props.get_footer().as_str());
        assert(r@ =~= self@.header_text(cpp_props@));
        r
    }

    /// Renders the generated source file.
    pub fn write_source(&self, cpp_props: &CppProps) -> (r: String)
        requires
            self@.wf(),
            self@.root_type is Some,
            cpp_props@.output.spec_serialize() ==> self@.declarable(),
        ensures
            r@ == self@.source_text(cpp_props@),
    {
        let mut r = self.write_src_include_files(cpp_props);
        r.append(self.write_internal_code(cpp_props).as_str());
        r.append(cpp_props.open_namespace().as_str());
        r.append(self.define(cpp_props).as_str());
        r.append(cpp_props.close_namespace().as_str());
        assert(r@ =~= self@.source_text(cpp_props@));
        r
    }
}

/// `lines` under `heading`, or nothing where there are no lines.
fn with_heading(heading: &str, lines: String) -> (r: String)
    ensures
        r@ == headed(heading@, lines@),
{
    if lines.as_str().unicode_len() == 0 {
        lines
    } else {
        let mut r = heading.to_owned();
        r.append(lines.as_str());
        r
    }
}

} // verus!
