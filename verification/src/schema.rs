//! The values a schema front end hands over, one call per schema node:
//! type expressions, enum members, struct fields, discriminator variants
//! and the annotations attached to each node.

use vstd::prelude::*;
use crate::text::views;

verus! {

/// One annotation of a schema node: a key and the JSON text of its value.
#[derive(Debug)]
pub struct MetadataEntry {
    pub key: String,
    pub value: String,
}

impl View for MetadataEntry {
    type V = (Seq<char>, Seq<char>);

    open spec fn view(&self) -> (Seq<char>, Seq<char>) {
        (self.key@, self.value@)
    }
}

/// The annotations of a schema node. The engine stores them beside the
/// shape they came with and never interprets them.
#[derive(Debug)]
pub struct Metadata {
    pub entries: Vec<MetadataEntry>,
}

impl View for Metadata {
    type V = Seq<(Seq<char>, Seq<char>)>;

    open spec fn view(&self) -> Seq<(Seq<char>, Seq<char>)> {
        views(self.entries@)
    }
}

impl Default for Metadata {
    fn default() -> (r: Metadata)
        ensures
            r@ == Seq::<(Seq<char>, Seq<char>)>::empty(),
    {
        let r = Metadata { entries: Vec::new() };
        assert(r@ =~= Seq::<(Seq<char>, Seq<char>)>::empty());
        r
    }
}

impl Metadata {
    /// Whether both hold the same annotations in the same order.
    pub fn same(&self, other: &Metadata) -> (r: bool)
        ensures
            r == (self@ == other@),
    {
        let n = self.entries.len();
        if n != other.entries.len() {
            assert(self@.len() != other@.len());
            return false;
        }
        let mut i: usize = 0;
        while i < n
            invariant
                n == self.entries@.len(),
                n == other.entries@.len(),
                i <= n,
                forall|j: int| 0 <= j < i ==> self.entries@[j]@ == other.entries@[j]@,
            decreases n - i,
        {
            let a = &self.entries[i];
            let b = &other.entries[i];
            if !(a.key == b.key && a.value == b.value) {
                assert(self@[i as int] != other@[i as int]);
                return false;
            }
            i += 1;
        }
        assert(self@ =~= other@);
        true
    }
}

/// One member of an enumeration: its identifier in the generated code and
/// the JSON string that stands for it.
#[derive(Debug)]
pub struct EnumMember {
    pub name: String,
    pub json_value: String,
}

pub struct EnumMemberView {
    pub name: Seq<char>,
    pub json_value: Seq<char>,
}

impl View for EnumMember {
    type V = EnumMemberView;

    open spec fn view(&self) -> EnumMemberView {
        EnumMemberView { name: self.name@, json_value: self.json_value@ }
    }
}

impl EnumMember {
    pub fn same(&self, other: &EnumMember) -> (r: bool)
        ensures
            r == (self@ == other@),
    {
        self.name == other.name && self.json_value == other.json_value
    }
}

/// One field of a struct or of a discriminator variant.
#[derive(Debug)]
pub struct Field {
    pub metadata: Metadata,
    pub name: String,
    pub json_name: String,
    pub optional: bool,
    pub type_: String,
}

pub struct FieldView {
    pub metadata: Seq<(Seq<char>, Seq<char>)>,
    pub name: Seq<char>,
    pub json_name: Seq<char>,
    pub optional: bool,
    pub type_: Seq<char>,
}

impl View for Field {
    type V = FieldView;

    open spec fn view(&self) -> FieldView {
        FieldView {
            metadata: self.metadata@,
            name: self.name@,
            json_name: self.json_name@,
            optional: self.optional,
            type_: self.type_@,
        }
    }
}

impl Field {
    pub fn same(&self, other: &Field) -> (r: bool)
        ensures
            r == (self@ == other@),
    {
        self.metadata.same(&other.metadata) && self.name == other.name && self.json_name
            == other.json_name && self.optional == other.optional && self.type_ == other.type_
    }
}

/// One arm of a discriminator as its parent lists it.
#[derive(Debug)]
pub struct DiscriminatorVariantInfo {
    pub variant_type: String,
    pub field_name: String,
    pub tag_value: String,
}

pub struct VariantInfoView {
    pub variant_type: Seq<char>,
    pub field_name: Seq<char>,
    pub tag_value: Seq<char>,
}

impl View for DiscriminatorVariantInfo {
    type V = VariantInfoView;

    open spec fn view(&self) -> VariantInfoView {
        VariantInfoView {
            variant_type: self.variant_type@,
            field_name: self.field_name@,
            tag_value: self.tag_value@,
        }
    }
}

impl DiscriminatorVariantInfo {
    pub fn same(&self, other: &DiscriminatorVariantInfo) -> (r: bool)
        ensures
            r == (self@ == other@),
    {
        self.variant_type == other.variant_type && self.field_name == other.field_name
            && self.tag_value == other.tag_value
    }
}

/// Whether two member lists agree item by item.
pub fn same_members(a: &Vec<EnumMember>, b: &Vec<EnumMember>) -> (r: bool)
    ensures
        r == (views(a@) == views(b@)),
{
    let n = a.len();
    if n != b.len() {
        assert(views(a@).len() != views(b@).len());
        return false;
    }
    let mut i: usize = 0;
    while i < n
        invariant
            n == a@.len(),
            n == b@.len(),
            i <= n,
            forall|j: int| 0 <= j < i ==> a@[j]@ == b@[j]@,
        decreases n - i,
    {
        if !a[i].same(&b[i]) {
            assert(views(a@)[i as int] != views(b@)[i as int]);
            return false;
        }
        i += 1;
    }
    assert(views(a@) =~= views(b@));
    true
}

/// Whether two field lists agree item by item.
pub fn same_fields(a: &Vec<Field>, b: &Vec<Field>) -> (r: bool)
    ensures
        r == (views(a@) == views(b@)),
{
    let n = a.len();
    if n != b.len() {
        assert(views(a@).len() != views(b@).len());
        return false;
    }
    let mut i: usize = 0;
    while i < n
        invariant
            n == a@.len(),
            n == b@.len(),
            i <= n,
            forall|j: int| 0 <= j < i ==> a@[j]@ == b@[j]@,
        decreases n - i,
    {
        if !a[i].same(&b[i]) {
            assert(views(a@)[i as int] != views(b@)[i as int]);
            return false;
        }
        i += 1;
    }
    assert(views(a@) =~= views(b@));
    true
}

/// Whether two variant lists agree item by item.
pub fn same_variants(a: &Vec<DiscriminatorVariantInfo>, b: &Vec<DiscriminatorVariantInfo>) -> (r:
    bool)
    ensures
        r == (views(a@) == views(b@)),
{
    let n = a.len();
    if n != b.len() {
        assert(views(a@).len() != views(b@).len());
        return false;
    }
    let mut i: usize = 0;
    while i < n
        invariant
            n == a@.len(),
            n == b@.len(),
            i <= n,
            forall|j: int| 0 <= j < i ==> a@[j]@ == b@[j]@,
        decreases n - i,
    {
        if !a[i].same(&b[i]) {
            assert(views(a@)[i as int] != views(b@)[i as int]);
            return false;
        }
        i += 1;
    }
    assert(views(a@) =~= views(b@));
    true
}

/// Whether two index lists agree item by item.
pub fn same_indices(a: &Vec<usize>, b: &Vec<usize>) -> (r: bool)
    ensures
        r == (a@ == b@),
{
    let n = a.len();
    if n != b.len() {
        return false;
    }
    let mut i: usize = 0;
    while i < n
        invariant
            n == a@.len(),
            n == b@.len(),
            i <= n,
            forall|j: int| 0 <= j < i ==> a@[j] == b@[j],
        decreases n - i,
    {
        if a[i] != b[i] {
            return false;
        }
        i += 1;
    }
    assert(a@ =~= b@);
    true
}

/// A type expression met inside a schema: a scalar, the untyped value, or a
/// container or nullable wrapper around an already rendered type name.
#[derive(Debug)]
pub enum Expr {
    Empty,
    Boolean,
    Int8,
    Uint8,
    Int16,
    Uint16,
    Int32,
    Uint32,
    Float32,
    Float64,
    String,
    Timestamp,
    ArrayOf(String),
    DictOf(String),
    NullableOf(String),
}

pub enum ExprView {
    Empty,
    Boolean,
    Int8,
    Uint8,
    Int16,
    Uint16,
    Int32,
    Uint32,
    Float32,
    Float64,
    String,
    Timestamp,
    ArrayOf(Seq<char>),
    DictOf(Seq<char>),
    NullableOf(Seq<char>),
}

impl View for Expr {
    type V = ExprView;

    open spec fn view(&self) -> ExprView {
        match self {
            Expr::Empty => ExprView::Empty,
            Expr::Boolean => ExprView::Boolean,
            Expr::Int8 => ExprView::Int8,
            Expr::Uint8 => ExprView::Uint8,
            Expr::Int16 => ExprView::Int16,
            Expr::Uint16 => ExprView::Uint16,
            Expr::Int32 => ExprView::Int32,
            Expr::Uint32 => ExprView::Uint32,
            Expr::Float32 => ExprView::Float32,
            Expr::Float64 => ExprView::Float64,
            Expr::String => ExprView::String,
            Expr::Timestamp => ExprView::Timestamp,
            Expr::ArrayOf(t) => ExprView::ArrayOf(t@),
            Expr::DictOf(t) => ExprView::DictOf(t@),
            Expr::NullableOf(t) => ExprView::NullableOf(t@),
        }
    }
}

} // verus!
