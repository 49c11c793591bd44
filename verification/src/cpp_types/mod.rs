//! The shapes of a schema's type graph and how each is rendered.

pub mod alias;
pub mod containers;
pub mod cpp_enum;
pub mod cpp_struct;
pub mod disc;
pub mod primitives;
pub mod shared;

use vstd::prelude::*;

use crate::props::{CppProps, PropsView};
use crate::state::CppState;
use containers::{nullable_definition_text, nullable_prototype_text};
use shared::{definition_text, get_complete_definition, prototype_name, prototype_text};

pub use alias::{AliasView, CppAlias};
pub use containers::{ArrayView, CppArray, CppDict, CppNullable, DictView, NullableView};
pub use cpp_enum::{CppEnum, EnumView};
pub use cpp_struct::{CppStruct, StructView};
pub use disc::{CppDiscriminator, CppDiscriminatorVariant, DiscriminatorView, VariantView};
pub use primitives::Primitives;
pub use shared::TypeIndex;

verus! {

/// One node of the type graph.
#[derive(Debug)]
pub enum CppTypes {
    /// A name that was referred to before its definition arrived.
    Incomplete,
    Primitive(Primitives),
    Array(CppArray),
    Dictionary(CppDict),
    Nullable(CppNullable),
    Alias(CppAlias),
    Enum(CppEnum),
    Struct(CppStruct),
    DiscriminatorVariant(CppDiscriminatorVariant),
    Discriminator(CppDiscriminator),
}

pub enum ShapeView {
    Incomplete,
    Primitive(Primitives),
    Array(ArrayView),
    Dictionary(DictView),
    Nullable(NullableView),
    Alias(AliasView),
    Enum(EnumView),
    Struct(StructView),
    DiscriminatorVariant(VariantView),
    Discriminator(DiscriminatorView),
}

impl View for CppTypes {
    type V = ShapeView;

    open spec fn view(&self) -> ShapeView {
        match self {
            CppTypes::Incomplete => ShapeView::Incomplete,
            CppTypes::Primitive(p) => ShapeView::Primitive(*p),
            CppTypes::Array(a) => ShapeView::Array(a@),
            CppTypes::Dictionary(d) => ShapeView::Dictionary(d@),
            CppTypes::Nullable(n) => ShapeView::Nullable(n@),
            CppTypes::Alias(a) => ShapeView::Alias(a@),
            CppTypes::Enum(e) => ShapeView::Enum(e@),
            CppTypes::Struct(s) => ShapeView::Struct(s@),
            CppTypes::DiscriminatorVariant(v) => ShapeView::DiscriminatorVariant(v@),
            CppTypes::Discriminator(d) => ShapeView::Discriminator(d@),
        }
    }
}

impl ShapeView {
    /// A struct-like shape has one type position per field or variant, and
    /// a variant's table of names can be counted.
    pub open spec fn wf(self) -> bool {
        match self {
            ShapeView::Struct(s) => s.wf(),
            ShapeView::DiscriminatorVariant(v) => v.wf(),
            ShapeView::Discriminator(d) => d.wf(),
            _ => true,
        }
    }

    /// Whether the shape's tables can be counted.
    pub open spec fn countable(self) -> bool {
        match self {
            ShapeView::DiscriminatorVariant(v) => v.countable(),
            _ => true,
        }
    }

    /// Whether every position that the shape refers to lies below `bound`.
    pub open spec fn refers_below(self, bound: int) -> bool {
        match self {
            ShapeView::Array(a) => a.idx < bound,
            ShapeView::Dictionary(d) => d.opt_idx is Some ==> d.opt_idx->0 < bound,
            ShapeView::Nullable(n) => n.idx < bound,
            ShapeView::Struct(s) => forall|j: int|
                0 <= j < s.indices.len() ==> #[trigger] s.indices[j] < bound,
            ShapeView::DiscriminatorVariant(v) => forall|j: int|
                0 <= j < v.indices.len() ==> #[trigger] v.indices[j] < bound,
            ShapeView::Discriminator(d) => forall|j: int|
                0 <= j < d.indices.len() ==> #[trigger] d.indices[j] < bound,
            _ => true,
        }
    }

    /// Whether the shape's declaration can be rendered: the enumerators of
    /// a discriminator must be nameable.
    pub open spec fn nameable(self) -> bool {
        match self {
            ShapeView::Discriminator(d) => d.nameable(),
            _ => true,
        }
    }

    /// Shapes that may take part in a cycle of references are declared
    /// ahead of their definition.
    pub open spec fn needs_forward_declaration(self) -> bool {
        self is Enum || self is Struct || self is Discriminator || self is DiscriminatorVariant
    }

    /// The keyword that introduces the shape's forward declaration.
    pub open spec fn prefix(self) -> Option<Seq<char>> {
        match self {
            ShapeView::Enum(_) => Some("enum class"@),
            ShapeView::Struct(_) => Some("struct"@),
            ShapeView::Discriminator(_) => Some("struct"@),
            ShapeView::DiscriminatorVariant(_) => Some("struct"@),
            _ => None,
        }
    }
}

/// The name that stands for the type expression `name`: that of the first
/// alias declared for it, or `name` itself where there is none.
pub open spec fn aliased_name(types: Seq<ShapeView>, name: Seq<char>) -> Seq<char>
    decreases types.len(),
{
    if types.len() == 0 {
        name
    } else {
        match types[0] {
            ShapeView::Alias(a) => if a.sub_type == name {
                a.name
            } else {
                aliased_name(types.drop_first(), name)
            },
            _ => aliased_name(types.drop_first(), name),
        }
    }
}

impl ShapeView {
    /// The declaration of the shape, for the shapes that have one.
    pub open spec fn declare_text(self) -> Option<Seq<char>> {
        match self {
            ShapeView::Enum(e) => Some(e.declare_text()),
            ShapeView::Struct(s) => Some(s.declare_text()),
            ShapeView::Discriminator(d) => Some(d.declare_text()),
            ShapeView::DiscriminatorVariant(v) => Some(v.declare_text()),
            _ => None,
        }
    }

    /// The name under which the public routines of the shape are emitted,
    /// for the shapes that can be a root. `types` are the shapes of the
    /// registry, which hold the aliases.
    pub open spec fn public_name(self, types: Seq<ShapeView>) -> Option<Seq<char>> {
        match self {
            ShapeView::Enum(e) => Some(e.name),
            ShapeView::Struct(s) => Some(s.name),
            ShapeView::Discriminator(d) => Some(d.name),
            ShapeView::DiscriminatorVariant(v) => Some(v.name),
            ShapeView::Nullable(n) => Some(aliased_name(types, n.pointer_text())),
            ShapeView::Alias(a) => Some(a.name),
            _ => None,
        }
    }

    /// The prototypes of the public routines of the shape.
    pub open spec fn prototype_text(self, types: Seq<ShapeView>, props: PropsView) -> Option<
        Seq<char>,
    > {
        match self {
            ShapeView::Nullable(n) => Some(
                nullable_prototype_text(aliased_name(types, n.pointer_text())),
            ),
            _ => match self.public_name(types) {
                Some(name) => Some(prototype_text(name, props)),
                None => None,
            },
        }
    }

    /// The definitions of the public routines of the shape.
    pub open spec fn define_text(self, types: Seq<ShapeView>, props: PropsView) -> Option<
        Seq<char>,
    > {
        match self {
            ShapeView::Nullable(n) => Some(
                nullable_definition_text(aliased_name(types, n.pointer_text())),
            ),
            _ => match self.public_name(types) {
                Some(name) => Some(definition_text(name, props)),
                None => None,
            },
        }
    }

    /// The table of JSON names of the shape.
    pub open spec fn common_text(self, props: PropsView) -> Option<Seq<char>> {
        match self {
            ShapeView::Enum(e) => Some(e.common_text(props)),
            ShapeView::Struct(s) => Some(s.common_text(props)),
            ShapeView::Discriminator(d) => Some(d.common_text(props)),
            ShapeView::DiscriminatorVariant(v) => Some(v.common_text(props)),
            _ => None,
        }
    }

    /// The routine that reads the shape.
    pub open spec fn des_text(self, props: PropsView) -> Option<Seq<char>> {
        match self {
            ShapeView::Enum(e) => Some(e.des_text(props)),
            ShapeView::Struct(s) => Some(s.des_text(props)),
            ShapeView::Discriminator(d) => Some(d.des_text(props)),
            ShapeView::DiscriminatorVariant(v) => Some(v.des_text(props)),
            _ => None,
        }
    }

    /// The routine that writes the shape.
    pub open spec fn ser_text(self, props: PropsView) -> Option<Seq<char>> {
        match self {
            ShapeView::Enum(e) => Some(e.ser_text(props)),
            ShapeView::Struct(s) => Some(s.ser_text(props)),
            ShapeView::Discriminator(d) => Some(d.ser_text(props)),
            ShapeView::DiscriminatorVariant(v) => Some(v.ser_text(props)),
            _ => None,
        }
    }

    /// Everything that the shape contributes to the block of conversion
    /// routines: a scalar its reader, where reading is asked for; a
    /// struct-like shape its table of names, then its reader and its
    /// writer, each where it is asked for.
    pub open spec fn internal_code_text(self, props: PropsView) -> Option<Seq<char>> {
        match self {
            ShapeView::Primitive(p) => if props.output.spec_deserialize() {
                Some(p.internal_function_text())
            } else {
                None
            },
            _ => match self.common_text(props) {
                Some(common) => Some(
                    common + (if props.output.spec_deserialize() {
                        self.des_text(props)->0
                    } else {
                        Seq::empty()
                    }) + (if props.output.spec_serialize() {
                        self.ser_text(props)->0
                    } else {
                        Seq::empty()
                    }),
                ),
                None => None,
            },
        }
    }
}

/// The model of an optional text.
pub open spec fn text_view(text: Option<String>) -> Option<Seq<char>> {
    match text {
        Some(t) => Some(t@),
        None => None,
    }
}

/// The model of an optional fixed text.
pub open spec fn str_view(text: Option<&'static str>) -> Option<Seq<char>> {
    match text {
        Some(t) => Some(t@),
        None => None,
    }
}

impl CppTypes {
    pub fn needs_forward_declaration(&self) -> (r: bool)
        ensures
            r == self@.needs_forward_declaration(),
    {
        match self {
            CppTypes::Enum(_)
            | CppTypes::Struct(_)
            | CppTypes::Discriminator(_)
            | CppTypes::DiscriminatorVariant(_) => true,
            _ => false,
        }
    }

    pub fn type_prefix(&self) -> (r: Option<&'static str>)
        ensures
            str_view(r) == self@.prefix(),
            r is Some <==> self@.needs_forward_declaration(),
    {
        match self {
            CppTypes::Enum(_) => Some(CppEnum::get_prefix()),
            CppTypes::Struct(_) => Some(CppStruct::get_prefix()),
            CppTypes::Discriminator(_) => Some(CppDiscriminator::get_prefix()),
            CppTypes::DiscriminatorVariant(_) => Some(CppDiscriminatorVariant::get_prefix()),
            _ => None,
        }
    }

    pub fn declare(&self, _cpp_state: &CppState, _cpp_props: &CppProps) -> (r: Option<String>)
        requires
            self@.nameable(),
        ensures
            text_view(r) == self@.declare_text(),
    {
        match self {
            CppTypes::Enum(_enum) => Some(_enum.declare()),
            CppTypes::Struct(_struct) => Some(_struct.declare()),
            CppTypes::Discriminator(disc) => Some(disc.declare()),
            CppTypes::DiscriminatorVariant(vary) => Some(vary.declare()),
            _ => None,
        }
    }

    pub fn prototype(&self, cpp_state: &CppState, cpp_props: &CppProps) -> (r: Option<String>)
        ensures
            text_view(r) == self@.prototype_text(cpp_state@.types, cpp_props@),
    {
        match self {
            CppTypes::Enum(_enum) => Some(_enum.prototype(cpp_props)),
            CppTypes::Struct(_struct) => Some(_struct.prototype(cpp_props)),
            CppTypes::Discriminator(disc) => Some(disc.prototype(cpp_props)),
            CppTypes::DiscriminatorVariant(vary) => Some(vary.prototype(cpp_props)),
            CppTypes::Nullable(null) => Some(null.prototype(cpp_state)),
            CppTypes::Alias(alias) => Some(prototype_name(alias.get_name(), cpp_props)),
            _ => None,
        }
    }

    pub fn define(&self, cpp_state: &CppState, cpp_props: &CppProps) -> (r: Option<String>)
        ensures
            text_view(r) == self@.define_text(cpp_state@.types, cpp_props@),
    {
        match self {
            CppTypes::Enum(_enum) => Some(get_complete_definition(_enum.get_name(), cpp_props)),
            CppTypes::Struct(_struct) => Some(
                get_complete_definition(_struct.get_name(), cpp_props),
            ),
            CppTypes::Discriminator(disc) => Some(
                get_complete_definition(disc.get_name(), cpp_props),
            ),
            CppTypes::DiscriminatorVariant(vary) => Some(
                get_complete_definition(vary.get_name(), cpp_props),
            ),
            CppTypes::Nullable(null) => Some(null.define(cpp_state)),
            CppTypes::Alias(alias) => Some(get_complete_definition(alias.get_name(), cpp_props)),
            _ => None,
        }
    }

    pub fn get_common_internal_code(&self, _cpp_state: &CppState, cpp_props: &CppProps) -> (r:
        Option<String>)
        requires
            self@.countable(),
        ensures
            text_view(r) == self@.common_text(cpp_props@),
    {
        match self {
            CppTypes::Enum(_enum) => Some(_enum.get_common_internal_code(cpp_props)),
            CppTypes::Struct(_struct) => Some(_struct.get_common_internal_code(cpp_props)),
            CppTypes::Discriminator(disc) => Some(disc.get_common_internal_code(cpp_props)),
            CppTypes::DiscriminatorVariant(vary) => Some(vary.get_common_internal_code(cpp_props)),
            _ => None,
        }
    }

    pub fn get_des_internal_code(&self, _cpp_state: &CppState, cpp_props: &CppProps) -> (r: Option<
        String,
    >)
        requires
            self@.countable(),
        ensures
            text_view(r) == self@.des_text(cpp_props@),
    {
        match self {
            CppTypes::Enum(_enum) => Some(_enum.get_des_internal_code(cpp_props)),
            CppTypes::Struct(_struct) => Some(_struct.get_des_internal_code(cpp_props)),
            CppTypes::Discriminator(disc) => Some(disc.get_des_internal_code(cpp_props)),
            CppTypes::DiscriminatorVariant(vary) => Some(vary.get_des_internal_code(cpp_props)),
            _ => None,
        }
    }

    pub fn get_ser_internal_code(&self, _cpp_state: &CppState, cpp_props: &CppProps) -> (r: Option<
        String,
    >)
        requires
            self@.nameable(),
        ensures
            text_view(r) == self@.ser_text(cpp_props@),
    {
        match self {
            CppTypes::Enum(_enum) => Some(_enum.get_ser_internal_code(cpp_props)),
            CppTypes::Struct(_struct) => Some(_struct.get_ser_internal_code(cpp_props)),
            CppTypes::Discriminator(disc) => Some(disc.get_ser_internal_code(cpp_props)),
            CppTypes::DiscriminatorVariant(vary) => Some(vary.get_ser_internal_code(cpp_props)),
            _ => None,
        }
    }

    /// Everything that the shape contributes to the block of conversion
    /// routines.
    pub fn get_internal_code(&self, cpp_state: &CppState, cpp_props: &CppProps) -> (r: Option<
        String,
    >)
        requires
            self@.countable(),
            cpp_props@.output.spec_serialize() ==> self@.nameable(),
        ensures
            text_view(r) == self@.internal_code_text(cpp_props@),
    {
        match self {
            CppTypes::Primitive(p) => {
                if cpp_props.get_output().deserialize() {
                    Some(p.get_internal_function())
                } else {
                    None
                }
            },
            _ => {
                match self.get_common_internal_code(cpp_state, cpp_props) {
                    Some(common) => {
                        let mut r = common;
                        if cpp_props.get_output().deserialize() {
                            match self.get_des_internal_code(cpp_state, cpp_props) {
                                Some(des) => {
                                    r.append(des.as_str());
                                },
                                None => {},
                            }
                        }
                        if cpp_props.get_output().serialize() {
                            match self.get_ser_internal_code(cpp_state, cpp_props) {
                                Some(ser) => {
                                    r.append(ser.as_str());
                                },
                                None => {},
                            }
                        }
                        assert(r@ =~= self@.internal_code_text(cpp_props@)->0);
                        Some(r)
                    },
                    None => None,
                }
            },
        }
    }

    /// Whether both are the same shape with the same structure.
    pub fn same(&self, other: &CppTypes) -> (r: bool)
        ensures
            r == (self@ == other@),
    {
        match (self, other) {
            (CppTypes::Incomplete, CppTypes::Incomplete) => true,
            (CppTypes::Primitive(a), CppTypes::Primitive(b)) => *a == *b,
            (CppTypes::Array(a), CppTypes::Array(b)) => a.same(b),
            (CppTypes::Dictionary(a), CppTypes::Dictionary(b)) => a.same(b),
            (CppTypes::Nullable(a), CppTypes::Nullable(b)) => a.same(b),
            (CppTypes::Alias(a), CppTypes::Alias(b)) => a.same(b),
            (CppTypes::Enum(a), CppTypes::Enum(b)) => a.same(b),
            (CppTypes::Struct(a), CppTypes::Struct(b)) => a.same(b),
            (CppTypes::DiscriminatorVariant(a), CppTypes::DiscriminatorVariant(b)) => a.same(b),
            (CppTypes::Discriminator(a), CppTypes::Discriminator(b)) => a.same(b),
            _ => false,
        }
    }
}

} // verus!
