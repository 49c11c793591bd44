//! Ingestion: one call per schema node, in any order.

use vstd::prelude::*;
use crate::cpp_types::{
    AliasView,
    ArrayView,
    CppAlias,
    CppArray,
    CppDict,
    CppDiscriminator,
    CppDiscriminatorVariant,
    CppEnum,
    CppNullable,
    CppStruct,
    CppTypes,
    DictView,
    DiscriminatorView,
    EnumView,
    NullableView,
    Primitives,
    ShapeView,
    StructView,
    TypeIndex,
    VariantView,
};
use crate::props::{CppProps, PropsView};
use crate::schema::{
    DiscriminatorVariantInfo,
    EnumMember,
    EnumMemberView,
    Expr,
    ExprView,
    Field,
    FieldView,
    Metadata,
    VariantInfoView,
};
use crate::state::{lemma_position_push, CppState, HelperNeeds, StateView};
use crate::text::{same_text, views};

verus! {

/// The type expressions of the fields, in field order.
pub open spec fn field_types(fields: Seq<FieldView>) -> Seq<Seq<char>> {
    Seq::new(fields.len(), |i: int| fields[i].type_)
}

/// The type names of the variants, in variant order.
pub open spec fn variant_types(variants: Seq<VariantInfoView>) -> Seq<Seq<char>> {
    Seq::new(variants.len(), |i: int| variants[i].variant_type)
}

impl StateView {
    /// The state after every name of `refs` was referred to, in order.
    pub open spec fn with_references(self, refs: Seq<Seq<char>>) -> StateView
        decreases refs.len(),
    {
        if refs.len() == 0 {
            self
        } else {
            self.with_references(refs.drop_last()).with_incomplete(refs.last())
        }
    }

    /// The positions that the names of `refs` resolve to when they are
    /// referred to in order.
    pub open spec fn reference_indices(self, refs: Seq<Seq<char>>) -> Seq<TypeIndex>
        decreases refs.len(),
    {
        if refs.len() == 0 {
            Seq::empty()
        } else {
            self.reference_indices(refs.drop_last()).push(
                self.with_references(refs.drop_last()).resolved_index(refs.last()) as usize,
            )
        }
    }

    /// References keep the registry consistent and every known name at
    /// its position; there is one resolved position per reference, each of
    /// them in the registry, and each holds the name referred to.
    pub proof fn lemma_with_references(self, refs: Seq<Seq<char>>)
        requires
            self.wf_registry(),
            self.with_references(refs).types.len() <= usize::MAX,
        ensures
            self.with_references(refs).wf_registry(),
            self.reference_indices(refs).len() == refs.len(),
            self.types.len() <= self.with_references(refs).types.len(),
            forall|j: int|
                0 <= j < refs.len() ==> (#[trigger] self.reference_indices(refs)[j])
                    < self.with_references(refs).types.len(),
            forall|j: int|
                0 <= j < refs.len() ==> self.with_references(refs).index_of(refs[j]) == Some(
                    (#[trigger] self.reference_indices(refs)[j]) as int,
                ),
            forall|other: Seq<char>|
                self.index_of(other) is Some ==> self.with_references(refs).index_of(other)
                    == self.index_of(other),
            self.with_references(refs).root_type == self.root_type,
            self.with_references(refs).needs == self.needs,
            self.with_references(refs).include_files == self.include_files,
            self.with_references(refs).src_include_files == self.src_include_files,
        decreases refs.len(),
    {
        if refs.len() > 0 {
            let before = refs.drop_last();
            let mid = self.with_references(before);
            assert(mid.types.len() <= mid.with_incomplete(refs.last()).types.len());
            self.lemma_with_references(before);
            mid.lemma_with_incomplete(refs.last());
            let after = self.with_references(refs);
            let idx = self.reference_indices(refs);
            assert forall|j: int| 0 <= j < refs.len() implies (#[trigger] idx[j]) < after.types.len()
                && after.index_of(refs[j]) == Some(idx[j] as int) by {
                if j < refs.len() - 1 {
                    assert(idx[j] == self.reference_indices(before)[j]);
                    assert(before[j] == refs[j]);
                }
            }
        }
    }

    /// The state after the routines that look up an enumeration's literal
    /// were asked for.
    pub open spec fn with_enum_index_code(self) -> StateView {
        let s = self.with_src_include("<array>"@).with_src_include("<format>"@).with_src_include(
            "<span>"@,
        ).with_src_include("<string_view>"@);
        StateView { needs: HelperNeeds { enum_index: true, ..s.needs }, ..s }
    }

    /// The state after the routines that look up an object's key were
    /// asked for.
    pub open spec fn with_value_index_code(self) -> StateView {
        let s = self.with_src_include("<array>"@).with_src_include("<format>"@).with_src_include(
            "<span>"@,
        ).with_src_include("<string_view>"@);
        StateView { needs: HelperNeeds { value_index: true, ..s.needs }, ..s }
    }

    /// The alias that `parse_alias` registers.
    pub open spec fn alias_shape(name: Seq<char>, sub_type: Seq<char>) -> ShapeView {
        ShapeView::Alias(AliasView { name, sub_type })
    }

    /// The state in which `parse_alias` registers the alias.
    pub open spec fn before_alias(self, name: Seq<char>, sub_type: Seq<char>) -> StateView {
        self.with_root(name).with_incomplete(sub_type)
    }

    pub open spec fn admits_alias(self, name: Seq<char>, sub_type: Seq<char>) -> bool {
        self.before_alias(name, sub_type).accepts(name, Self::alias_shape(name, sub_type))
    }

    pub open spec fn after_alias(
        self,
        name: Seq<char>,
        sub_type: Seq<char>,
        meta: Seq<(Seq<char>, Seq<char>)>,
    ) -> StateView {
        self.before_alias(name, sub_type).registered(name, Self::alias_shape(name, sub_type), meta)
    }

    /// The enumeration that `parse_enum` registers.
    pub open spec fn enum_shape(name: Seq<char>, members: Seq<EnumMemberView>) -> ShapeView {
        ShapeView::Enum(EnumView { name, members })
    }

    /// The state in which `parse_enum` registers the enumeration.
    pub open spec fn before_enum(self, name: Seq<char>) -> StateView {
        self.with_root(name).with_enum_index_code()
    }

    pub open spec fn admits_enum(self, name: Seq<char>, members: Seq<EnumMemberView>) -> bool {
        self.before_enum(name).accepts(name, Self::enum_shape(name, members))
    }

    pub open spec fn after_enum(
        self,
        name: Seq<char>,
        members: Seq<EnumMemberView>,
        meta: Seq<(Seq<char>, Seq<char>)>,
    ) -> StateView {
        self.before_enum(name).registered(name, Self::enum_shape(name, members), meta)
    }

    /// The struct that `parse_struct` registers: its type positions are
    /// those that the field types resolve to, in field order.
    pub open spec fn struct_shape(self, name: Seq<char>, fields: Seq<FieldView>) -> ShapeView {
        ShapeView::Struct(
            StructView { name, fields, indices: self.reference_indices(field_types(fields)) },
        )
    }

    /// The state in which `parse_struct` registers the struct.
    pub open spec fn before_struct(self, name: Seq<char>, fields: Seq<FieldView>) -> StateView {
        self.with_references(field_types(fields)).with_root(name).with_value_index_code()
    }

    pub open spec fn admits_struct(self, name: Seq<char>, fields: Seq<FieldView>) -> bool {
        self.before_struct(name, fields).accepts(name, self.struct_shape(name, fields))
    }

    pub open spec fn after_struct(
        self,
        name: Seq<char>,
        fields: Seq<FieldView>,
        meta: Seq<(Seq<char>, Seq<char>)>,
    ) -> StateView {
        self.before_struct(name, fields).registered(name, self.struct_shape(name, fields), meta)
    }

    /// The discriminator that `parse_discriminator` registers: its type
    /// positions are those that the variant types resolve to, in variant
    /// order.
    pub open spec fn discriminator_shape(
        self,
        name: Seq<char>,
        variants: Seq<VariantInfoView>,
        tag_json_name: Seq<char>,
        tag_field_name: Seq<char>,
    ) -> ShapeView {
        ShapeView::Discriminator(
            DiscriminatorView {
                name,
                variants,
                tag_json_name,
                tag_field_name,
                indices: self.reference_indices(variant_types(variants)),
            },
        )
    }

    /// The state in which `parse_discriminator` registers the
    /// discriminator.
    pub open spec fn before_discriminator(
        self,
        name: Seq<char>,
        variants: Seq<VariantInfoView>,
    ) -> StateView {
        self.with_references(variant_types(variants)).with_root(name).with_value_index_code()
    }

    pub open spec fn admits_discriminator(
        self,
        name: Seq<char>,
        variants: Seq<VariantInfoView>,
        tag_json_name: Seq<char>,
        tag_field_name: Seq<char>,
    ) -> bool {
        self.before_discriminator(name, variants).accepts(
            name,
            self.discriminator_shape(name, variants, tag_json_name, tag_field_name),
        )
    }

    pub open spec fn after_discriminator(
        self,
        name: Seq<char>,
        variants: Seq<VariantInfoView>,
        tag_json_name: Seq<char>,
        tag_field_name: Seq<char>,
        meta: Seq<(Seq<char>, Seq<char>)>,
    ) -> StateView {
        self.before_discriminator(name, variants).registered(
            name,
            self.discriminator_shape(name, variants, tag_json_name, tag_field_name),
            meta,
        )
    }

    /// The variant that `parse_discriminator_variant` registers.
    pub open spec fn variant_shape(
        self,
        name: Seq<char>,
        fields: Seq<FieldView>,
        tag_field_name: Seq<char>,
        tag_json_name: Seq<char>,
        tag_value: Seq<char>,
        parent_name: Seq<char>,
    ) -> ShapeView {
        ShapeView::DiscriminatorVariant(
            VariantView {
                name,
                fields,
                tag_field_name,
                tag_json_name,
                tag_value,
                parent_name,
                indices: self.reference_indices(field_types(fields)),
            },
        )
    }

    /// The state in which `parse_discriminator_variant` registers the
    /// variant. A variant is never proposed as the root.
    pub open spec fn before_variant(self, fields: Seq<FieldView>) -> StateView {
        self.with_references(field_types(fields)).with_value_index_code()
    }

    pub open spec fn admits_variant(
        self,
        name: Seq<char>,
        fields: Seq<FieldView>,
        tag_field_name: Seq<char>,
        tag_json_name: Seq<char>,
        tag_value: Seq<char>,
        parent_name: Seq<char>,
    ) -> bool {
        self.before_variant(fields).accepts(
            name,
            self.variant_shape(
                name,
                fields,
                tag_field_name,
                tag_json_name,
                tag_value,
                parent_name,
            ),
        )
    }

    pub open spec fn after_variant(
        self,
        name: Seq<char>,
        fields: Seq<FieldView>,
        tag_field_name: Seq<char>,
        tag_json_name: Seq<char>,
        tag_value: Seq<char>,
        parent_name: Seq<char>,
        meta: Seq<(Seq<char>, Seq<char>)>,
    ) -> StateView {
        self.before_variant(fields).registered(
            name,
            self.variant_shape(
                name,
                fields,
                tag_field_name,
                tag_json_name,
                tag_value,
                parent_name,
            ),
            meta,
        )
    }
}

impl CppState {
    fn toggle_enum_index_code(&mut self)
        requires
            old(self)@.wf_registry(),
        ensures
            final(self)@ == old(self)@.with_enum_index_code(),
            final(self)@.wf_registry(),
    {
        self.add_src_include_file("<array>");
        self.add_src_include_file("<format>");
        self.add_src_include_file("<span>");
        self.add_src_include_file("<string_view>");
        self.needs.enum_index = true;
    }

    fn toggle_value_index_code(&mut self)
        requires
            old(self)@.wf_registry(),
        ensures
            final(self)@ == old(self)@.with_value_index_code(),
            final(self)@.wf_registry(),
    {
        self.add_src_include_file("<array>");
        self.add_src_include_file("<format>");
        self.add_src_include_file("<span>");
        self.add_src_include_file("<string_view>");
        self.needs.value_index = true;
    }

    /// Resolves the type of every field, in field order.
    pub fn field_to_type_indices(&mut self, fields: &Vec<Field>) -> (r: Vec<TypeIndex>)
        requires
            old(self)@.wf_registry(),
        ensures
            final(self)@ == old(self)@.with_references(field_types(views(fields@))),
            r@ == old(self)@.reference_indices(field_types(views(fields@))),
            final(self)@.wf_registry(),
    {
        let ghost refs = field_types(views(fields@));
        let mut r: Vec<TypeIndex> = Vec::new();
        let mut i: usize = 0;
        while i < fields.len()
            invariant
                i <= fields@.len(),
                refs == field_types(views(fields@)),
                self@.wf_registry(),
                self@ == old(self)@.with_references(refs.take(i as int)),
                r@ == old(self)@.reference_indices(refs.take(i as int)),
            decreases fields@.len() - i,
        {
            assert(refs.take(i + 1).drop_last() =~= refs.take(i as int));
            assert(refs.take(i + 1).last() == fields@[i as int].type_@);
            let added = self.add_incomplete(fields[i].type_.as_str());
            r.push(added.1);
            i += 1;
        }
        assert(refs.take(i as int) =~= refs);
        r
    }

    /// Resolves the type of every variant, in variant order.
    pub fn variant_to_type_indices(&mut self, variants: &Vec<DiscriminatorVariantInfo>) -> (r: Vec<
        TypeIndex,
    >)
        requires
            old(self)@.wf_registry(),
        ensures
            final(self)@ == old(self)@.with_references(variant_types(views(variants@))),
            r@ == old(self)@.reference_indices(variant_types(views(variants@))),
            final(self)@.wf_registry(),
    {
        let ghost refs = variant_types(views(variants@));
        let mut r: Vec<TypeIndex> = Vec::new();
        let mut i: usize = 0;
        while i < variants.len()
            invariant
                i <= variants@.len(),
                refs == variant_types(views(variants@)),
                self@.wf_registry(),
                self@ == old(self)@.with_references(refs.take(i as int)),
                r@ == old(self)@.reference_indices(refs.take(i as int)),
            decreases variants@.len() - i,
        {
            assert(refs.take(i + 1).drop_last() =~= refs.take(i as int));
            assert(refs.take(i + 1).last() == variants@[i as int].variant_type@);
            let added = self.add_incomplete(variants[i].variant_type.as_str());
            r.push(added.1);
            i += 1;
        }
        assert(refs.take(i as int) =~= refs);
        r
    }

    /// Declares `name` as a synonym of `type_`, unless the name is taken by
    /// another shape. Says whether the alias was declared; where it was
    /// not, the root proposal and the reference to `type_` stay recorded.
    pub fn try_parse_alias(&mut self, name: &str, type_: &str, meta: Metadata) -> (ok: bool)
        requires
            old(self)@.wf(),
        ensures
            ok == old(self)@.admits_alias(name@, type_@),
            final(self)@ == (if ok {
                old(self)@.after_alias(name@, type_@, meta@)
            } else {
                old(self)@.before_alias(name@, type_@)
            }),
            final(self)@.wf(),
    {
        self.set_root_type(name);
        let _ = self.add_incomplete(type_);
        let cpp_type = CppTypes::Alias(CppAlias::new(name, type_));
        let ghost mid = self@;
        proof {
            let rooted = old(self)@.with_root(name@);
            rooted.lemma_with_incomplete(type_@);
            assert forall|other: Seq<char>| old(self)@.index_of(other) is Some implies mid.index_of(
                other,
            ) == old(self)@.index_of(other) by {
                assert(rooted.index_of(other) == old(self)@.index_of(other));
            }
            old(self)@.lemma_root_kept(mid, name@);
        }
        if !self.accepts(name, &cpp_type) {
            return false;
        }
        let _ = self.add_or_replace_cpp_type(name, cpp_type, meta);
        proof {
            self.lemma_len_fits();
            mid.lemma_registered(name@, cpp_type@, meta@);
            mid.lemma_root_kept(self@, name@);
        }
        true
    }

    /// Declares `name` as a synonym of `type_`.
    pub fn parse_alias(&mut self, name: &str, type_: &str, meta: Metadata)
        requires
            old(self)@.wf(),
            old(self)@.admits_alias(name@, type_@),
        ensures
            final(self)@ == old(self)@.after_alias(name@, type_@, meta@),
            final(self)@.wf(),
    {
        let _ = self.try_parse_alias(name, type_, meta);
    }

    /// Declares the enumeration `name`, unless the name is taken by another
    /// shape. Says whether it was declared; where it was not, the root
    /// proposal and the request for the shared routine stay recorded.
    pub fn try_parse_enum(&mut self, name: &str, members: Vec<EnumMember>, meta: Metadata) -> (ok:
        bool)
        requires
            old(self)@.wf(),
        ensures
            ok == old(self)@.admits_enum(name@, views(members@)),
            final(self)@ == (if ok {
                old(self)@.after_enum(name@, views(members@), meta@)
            } else {
                old(self)@.before_enum(name@)
            }),
            final(self)@.wf(),
    {
        self.set_root_type(name);
        let cpp_type = CppTypes::Enum(CppEnum::new(name, members));
        self.toggle_enum_index_code();
        let ghost mid = self@;
        proof {
            old(self)@.lemma_root_kept(mid, name@);
        }
        if !self.accepts(name, &cpp_type) {
            return false;
        }
        let _ = self.add_or_replace_cpp_type(name, cpp_type, meta);
        proof {
            self.lemma_len_fits();
            mid.lemma_registered(name@, cpp_type@, meta@);
            mid.lemma_root_kept(self@, name@);
        }
        true
    }

    /// Declares the enumeration `name` with the given members, whose order
    /// is kept.
    pub fn parse_enum(&mut self, name: &str, members: Vec<EnumMember>, meta: Metadata)
        requires
            old(self)@.wf(),
            old(self)@.admits_enum(name@, views(members@)),
        ensures
            final(self)@ == old(self)@.after_enum(name@, views(members@), meta@),
            final(self)@.wf(),
    {
        let _ = self.try_parse_enum(name, members, meta);
    }

    /// Declares the struct `name`, unless the name is taken by another
    /// shape. Says whether it was declared; where it was not, the
    /// references to the field types, the root proposal and the request for
    /// the shared routines stay recorded.
    pub fn try_parse_struct(&mut self, name: &str, fields: Vec<Field>, meta: Metadata) -> (ok: bool)
        requires
            old(self)@.wf(),
        ensures
            ok == old(self)@.admits_struct(name@, views(fields@)),
            final(self)@ == (if ok {
                old(self)@.after_struct(name@, views(fields@), meta@)
            } else {
                old(self)@.before_struct(name@, views(fields@))
            }),
            final(self)@.wf(),
    {
        let cpp_type_indices = self.field_to_type_indices(&fields);
        proof {
            self.lemma_len_fits();
            old(self)@.lemma_with_references(field_types(views(fields@)));
        }
        self.set_root_type(name);
        self.toggle_value_index_code();
        let cpp_type = CppTypes::Struct(CppStruct::new(name, fields, cpp_type_indices));
        let ghost mid = self@;
        proof {
            old(self)@.lemma_root_kept(mid, name@);
        }
        if !self.accepts(name, &cpp_type) {
            return false;
        }
        let _ = self.add_or_replace_cpp_type(name, cpp_type, meta);
        proof {
            self.lemma_len_fits();
            mid.lemma_registered(name@, cpp_type@, meta@);
            mid.lemma_root_kept(self@, name@);
        }
        true
    }

    /// Declares the struct `name` with the given fields, whose order is
    /// kept. The type of every field is resolved first, then the struct is
    /// proposed as the root.
    pub fn parse_struct(&mut self, name: &str, fields: Vec<Field>, meta: Metadata)
        requires
            old(self)@.wf(),
            old(self)@.admits_struct(name@, views(fields@)),
        ensures
            final(self)@ == old(self)@.after_struct(name@, views(fields@), meta@),
            final(self)@.wf(),
    {
        let _ = self.try_parse_struct(name, fields, meta);
    }

    /// Declares the discriminator `name`, unless the name is taken by
    /// another shape. Says whether it was declared; where it was not, the
    /// references to the variant types, the root proposal and the request
    /// for the shared routines stay recorded.
    pub fn try_parse_discriminator(
        &mut self,
        name: &str,
        variants: Vec<DiscriminatorVariantInfo>,
        tag_json_name: &str,
        tag_field_name: &str,
        meta: Metadata,
    ) -> (ok: bool)
        requires
            old(self)@.wf(),
        ensures
            ok == old(self)@.admits_discriminator(
                name@,
                views(variants@),
                tag_json_name@,
                tag_field_name@,
            ),
            final(self)@ == (if ok {
                old(self)@.after_discriminator(
                    name@,
                    views(variants@),
                    tag_json_name@,
                    tag_field_name@,
                    meta@,
                )
            } else {
                old(self)@.before_discriminator(name@, views(variants@))
            }),
            final(self)@.wf(),
    {
        let cpp_type_indices = self.variant_to_type_indices(&variants);
        proof {
            self.lemma_len_fits();
            old(self)@.lemma_with_references(variant_types(views(variants@)));
        }
        self.set_root_type(name);
        let cpp_type = CppTypes::Discriminator(
            CppDiscriminator::new(name, variants, tag_json_name, tag_field_name, cpp_type_indices),
        );
        self.toggle_value_index_code();
        let ghost mid = self@;
        proof {
            old(self)@.lemma_root_kept(mid, name@);
        }
        if !self.accepts(name, &cpp_type) {
            return false;
        }
        let _ = self.add_or_replace_cpp_type(name, cpp_type, meta);
        proof {
            self.lemma_len_fits();
            mid.lemma_registered(name@, cpp_type@, meta@);
            mid.lemma_root_kept(self@, name@);
        }
        true
    }

    /// Declares the discriminator `name` with the given variants, whose
    /// order is kept. The type of every variant is resolved first, then the
    /// discriminator is proposed as the root.
    pub fn parse_discriminator(
        &mut self,
        name: &str,
        variants: Vec<DiscriminatorVariantInfo>,
        tag_json_name: &str,
        tag_field_name: &str,
        meta: Metadata,
    )
        requires
            old(self)@.wf(),
            old(self)@.admits_discriminator(
                name@,
                views(variants@),
                tag_json_name@,
                tag_field_name@,
            ),
        ensures
            final(self)@ == old(self)@.after_discriminator(
                name@,
                views(variants@),
                tag_json_name@,
                tag_field_name@,
                meta@,
            ),
            final(self)@.wf(),
    {
        let _ = self.try_parse_discriminator(name, variants, tag_json_name, tag_field_name, meta);
    }

    /// Declares the variant `name` of the discriminator `parent_name`,
    /// unless the name is taken by another shape. Says whether it was
    /// declared; where it was not, the references to the field types and
    /// the request for the shared routines stay recorded.
    pub fn try_parse_discriminator_variant(
        &mut self,
        name: &str,
        fields: Vec<Field>,
        tag_field_name: &str,
        tag_json_name: &str,
        tag_value: &str,
        parent_name: &str,
        meta: Metadata,
    ) -> (ok: bool)
        requires
            old(self)@.wf(),
            fields@.len() < usize::MAX,
        ensures
            ok == old(self)@.admits_variant(
                name@,
                views(fields@),
                tag_field_name@,
                tag_json_name@,
                tag_value@,
                parent_name@,
            ),
            final(self)@ == (if ok {
                old(self)@.after_variant(
                    name@,
                    views(fields@),
                    tag_field_name@,
                    tag_json_name@,
                    tag_value@,
                    parent_name@,
                    meta@,
                )
            } else {
                old(self)@.before_variant(views(fields@))
            }),
            final(self)@.wf(),
    {
        let cpp_type_indices = self.field_to_type_indices(&fields);
        proof {
            self.lemma_len_fits();
            old(self)@.lemma_with_references(field_types(views(fields@)));
        }
        let cpp_type = CppTypes::DiscriminatorVariant(
            CppDiscriminatorVariant::new(
                name,
                fields,
                tag_field_name,
                tag_json_name,
                tag_value,
                parent_name,
                cpp_type_indices,
            ),
        );
        self.toggle_value_index_code();
        let ghost mid = self@;
        proof {
            old(self)@.lemma_root_kept(mid, name@);
        }
        if !self.accepts(name, &cpp_type) {
            return false;
        }
        let _ = self.add_or_replace_cpp_type(name, cpp_type, meta);
        proof {
            self.lemma_len_fits();
            mid.lemma_registered(name@, cpp_type@, meta@);
            mid.lemma_root_kept(self@, name@);
        }
        true
    }

    /// Declares the variant `name` of the discriminator `parent_name`. The
    /// type of every field is resolved first. A variant is never proposed
    /// as the root.
    pub fn parse_discriminator_variant(
        &mut self,
        name: &str,
        fields: Vec<Field>,
        tag_field_name: &str,
        tag_json_name: &str,
        tag_value: &str,
        parent_name: &str,
        meta: Metadata,
    )
        requires
            old(self)@.wf(),
            fields@.len() < usize::MAX,
            old(self)@.admits_variant(
                name@,
                views(fields@),
                tag_field_name@,
                tag_json_name@,
                tag_value@,
                parent_name@,
            ),
        ensures
            final(self)@ == old(self)@.after_variant(
                name@,
                views(fields@),
                tag_field_name@,
                tag_json_name@,
                tag_value@,
                parent_name@,
                meta@,
            ),
            final(self)@.wf(),
    {
        let _ = self.try_parse_discriminator_variant(
            name,
            fields,
            tag_field_name,
            tag_json_name,
            tag_value,
            parent_name,
            meta,
        );
    }
}

/// The scalar kind that a type expression stands for, if it is one.
pub open spec fn scalar_of(expr: ExprView) -> Option<Primitives> {
    match expr {
        ExprView::Boolean => Some(Primitives::Bool),
        ExprView::Int8 => Some(Primitives::Int8),
        ExprView::Uint8 => Some(Primitives::Uint8),
        ExprView::Int16 => Some(Primitives::Int16),
        ExprView::Uint16 => Some(Primitives::Uint16),
        ExprView::Int32 => Some(Primitives::Int32),
        ExprView::Uint32 => Some(Primitives::Uint32),
        ExprView::Float32 => Some(Primitives::Float32),
        ExprView::Float64 => Some(Primitives::Float64),
        ExprView::String => Some(Primitives::String),
        _ => None,
    }
}

/// The C++ type of an array of `sub_type`.
pub open spec fn array_name(sub_type: Seq<char>) -> Seq<char> {
    "std::vector<"@ + sub_type + ">"@
}

/// The C++ type of a nullable `sub_type`.
pub open spec fn nullable_name(sub_type: Seq<char>) -> Seq<char> {
    "std::unique_ptr<"@ + sub_type + ">"@
}

/// The C++ type that a type expression is rendered as. Timestamps have
/// none.
pub open spec fn expr_name(expr: ExprView, props: PropsView) -> Seq<char> {
    match expr {
        ExprView::Empty => "JsonTypedefCodeGen::Data::JsonValue"@,
        ExprView::Timestamp => Seq::empty(),
        ExprView::ArrayOf(sub_type) => array_name(sub_type),
        ExprView::DictOf(sub_type) => props.dictionary.container(sub_type),
        ExprView::NullableOf(sub_type) => nullable_name(sub_type),
        _ => scalar_of(expr)->0.name_text(),
    }
}

/// A text wrapped in a prefix that is not empty differs from the text.
pub proof fn lemma_wrapped_differs(prefix: Seq<char>, text: Seq<char>, suffix: Seq<char>)
    requires
        prefix.len() > 0,
    ensures
        prefix + text + suffix != text,
{
    assert((prefix + text + suffix).len() == prefix.len() + text.len() + suffix.len());
}

impl StateView {
    /// Whether `name` holds more than a placeholder.
    pub open spec fn holds_definition(self, name: Seq<char>) -> bool {
        match self.index_of(name) {
            Some(i) => !(self.types[i] is Incomplete),
            None => false,
        }
    }

    /// A reference to another name leaves a name that holds no definition
    /// free to take any shape.
    pub proof fn lemma_still_free(self, name: Seq<char>, other: Seq<char>, shape: ShapeView)
        requires
            self.names.len() == self.types.len(),
            !self.holds_definition(name),
            name != other,
        ensures
            self.with_incomplete(other).accepts(name, shape),
    {
        crate::state::lemma_position(self.names, name);
        lemma_position_push(self.names, other, name);
    }

    /// Whether `parse_primitive` can take the expression: timestamps are
    /// not supported, and the name of a scalar must be free to hold it.
    pub open spec fn admits_primitive(self, expr: ExprView) -> bool {
        match scalar_of(expr) {
            Some(p) => self.accepts(p.name_text(), ShapeView::Primitive(p)),
            None => !(expr is Timestamp),
        }
    }

    /// The state in which a scalar is registered: a string asks for its
    /// header first. Other expressions record nothing beforehand.
    pub open spec fn before_scalar(self, expr: ExprView) -> StateView {
        if expr is String {
            self.with_include("<string>"@)
        } else {
            self
        }
    }

    /// The state after the scalar `prim` was declared.
    pub open spec fn after_scalar(
        self,
        prim: Primitives,
        meta: Seq<(Seq<char>, Seq<char>)>,
    ) -> StateView {
        let s = if prim == Primitives::String {
            self.with_include("<string>"@)
        } else {
            self
        };
        s.registered(prim.name_text(), ShapeView::Primitive(prim), meta)
    }

    /// The state after an array of `sub_type` was declared. An array type
    /// that is defined already changes nothing; else the declaration asks
    /// for its header and its shared routine, refers to the element type
    /// and is registered, in place of the placeholder if the name has one.
    pub open spec fn after_array(
        self,
        sub_type: Seq<char>,
        meta: Seq<(Seq<char>, Seq<char>)>,
    ) -> StateView {
        let name = array_name(sub_type);
        if self.holds_definition(name) {
            self
        } else {
            let s = self.with_include("<vector>"@);
            let s = StateView { needs: HelperNeeds { array: true, ..s.needs }, ..s };
            s.with_incomplete(sub_type).registered(
                name,
                ShapeView::Array(ArrayView { idx: s.resolved_index(sub_type) as usize, name }),
                meta,
            )
        }
    }

    /// The state after a dictionary of `sub_type` was declared; an empty
    /// `sub_type` declares a set of keys. A container type that is defined
    /// already changes nothing; else the declaration asks for its headers
    /// and its shared routine, refers to the value type if there is one,
    /// and is registered, in place of the placeholder if the name has one.
    pub open spec fn after_dict(
        self,
        sub_type: Seq<char>,
        props: PropsView,
        meta: Seq<(Seq<char>, Seq<char>)>,
    ) -> StateView {
        let name = props.dictionary.container(sub_type);
        if self.holds_definition(name) {
            self
        } else {
            let s = self.with_src_include("<format>"@).with_include("<string>"@).with_include(
                props.dictionary.header(sub_type),
            );
            if sub_type.len() == 0 {
                let s = StateView { needs: HelperNeeds { set: true, ..s.needs }, ..s };
                s.registered(name, ShapeView::Dictionary(DictView { opt_idx: None, name }), meta)
            } else {
                let s = StateView { needs: HelperNeeds { map: true, ..s.needs }, ..s };
                s.with_incomplete(sub_type).registered(
                    name,
                    ShapeView::Dictionary(
                        DictView { opt_idx: Some(s.resolved_index(sub_type) as usize), name },
                    ),
                    meta,
                )
            }
        }
    }

    /// The state after `sub_type` was passed through the nullable wrapper.
    /// Where `sub_type` is the root, the wrapper becomes the root. A
    /// wrapper type that is defined already changes nothing more; else the
    /// declaration asks for its header and its shared routine, refers to
    /// the wrapped type and is registered, in place of the placeholder if
    /// the name has one.
    pub open spec fn after_nullable(
        self,
        sub_type: Seq<char>,
        meta: Seq<(Seq<char>, Seq<char>)>,
    ) -> StateView {
        let name = nullable_name(sub_type);
        let s = if self.root_type == Some(sub_type) {
            StateView { root_type: Some(name), ..self }
        } else {
            self
        };
        if s.holds_definition(name) {
            s
        } else {
            let s = s.with_include("<memory>"@);
            let s = StateView { needs: HelperNeeds { nullable: true, ..s.needs }, ..s };
            s.with_incomplete(sub_type).registered(
                name,
                ShapeView::Nullable(
                    NullableView { idx: s.resolved_index(sub_type) as usize, name: sub_type },
                ),
                meta,
            )
        }
    }

    /// The state after the type expression was declared.
    pub open spec fn after_primitive(
        self,
        expr: ExprView,
        props: PropsView,
        meta: Seq<(Seq<char>, Seq<char>)>,
    ) -> StateView {
        match expr {
            ExprView::Empty => StateView {
                needs: HelperNeeds { raw_value: true, ..self.needs },
                ..self
            },
            ExprView::Timestamp => self,
            ExprView::ArrayOf(sub_type) => self.after_array(sub_type, meta),
            ExprView::DictOf(sub_type) => self.after_dict(sub_type, props, meta),
            ExprView::NullableOf(sub_type) => self.after_nullable(sub_type, meta),
            _ => self.after_scalar(scalar_of(expr)->0, meta),
        }
    }
}

impl CppState {
    /// Whether `name` holds more than a placeholder.
    pub fn is_defined(&self, name: &str) -> (r: bool)
        requires
            self@.wf_registry(),
        ensures
            r == self@.holds_definition(name@),
    {
        match self.get_index_from_name(name) {
            Some(i) => {
                proof {
                    crate::state::lemma_position(self@.names, name@);
                }
                match self.get_type(i) {
                    Some(CppTypes::Incomplete) => false,
                    _ => true,
                }
            },
            None => false,
        }
    }

    fn add_primitive(&mut self, prim: Primitives, meta: Metadata) -> (r: Option<String>)
        requires
            old(self)@.wf(),
        ensures
            r is Some == old(self)@.accepts(prim.name_text(), ShapeView::Primitive(prim)),
            r is Some ==> r->0@ == prim.name_text(),
            final(self)@ == (if r is Some {
                old(self)@.registered(prim.name_text(), ShapeView::Primitive(prim), meta@)
            } else {
                old(self)@
            }),
            final(self)@.wf(),
    {
        let name = prim.cpp_name();
        let cpp_type = CppTypes::Primitive(prim);
        if !self.accepts(name, &cpp_type) {
            return None;
        }
        let r = self.add_or_replace_cpp_type(name, cpp_type, meta);
        proof {
            self.lemma_len_fits();
            old(self)@.lemma_registered(name@, cpp_type@, meta@);
            old(self)@.lemma_root_kept(self@, name@);
        }
        Some(r.0)
    }

    fn parse_array(&mut self, sub_type: String, meta: Metadata) -> (r: String)
        requires
            old(self)@.wf(),
        ensures
            final(self)@ == old(self)@.after_array(sub_type@, meta@),
            final(self)@.wf(),
            r@ == array_name(sub_type@),
    {
        let mut name = String::new();
        name.append("std::vector<");
        name.append(sub_type.as_str());
        name.append(">");
        assert(name@ =~= array_name(sub_type@));
        match self.is_defined(name.as_str()) {
            true => name,
            false => {
                self.add_include_file("<vector>");
                self.needs.array = true;
                let ghost asked = self@;
                let sub = self.add_incomplete(sub_type.as_str());
                let ghost mid = self@;
                let cpp_type = CppTypes::Array(CppArray::new(sub.1, name.clone()));
                proof {
                    reveal_strlit("std::vector<");
                    lemma_wrapped_differs("std::vector<"@, sub_type@, ">"@);
                    asked.lemma_still_free(name@, sub_type@, cpp_type@);
                }
                let r = self.add_or_replace_cpp_type(name.as_str(), cpp_type, meta);
                proof {
                    self.lemma_len_fits();
                    asked.lemma_with_incomplete(sub_type@);
                    mid.lemma_registered(name@, cpp_type@, meta@);
                    assert forall|other: Seq<char>|
                        old(self)@.index_of(other) is Some implies self@.index_of(other) == old(
                        self,
                    )@.index_of(other) by {
                        assert(asked.index_of(other) == old(self)@.index_of(other));
                    }
                    old(self)@.lemma_root_kept(self@, name@);
                }
                r.0
            },
        }
    }

    fn parse_dict(&mut self, sub_type: String, props: &CppProps, meta: Metadata) -> (r: String)
        requires
            old(self)@.wf(),
        ensures
            final(self)@ == old(self)@.after_dict(sub_type@, props@, meta@),
            final(self)@.wf(),
            r@ == props@.dictionary.container(sub_type@),
    {
        let info = props.get_dictionary_info(sub_type.as_str());
        let file = info.0;
        let name = info.1;
        match self.is_defined(name.as_str()) {
            true => name,
            false => {
                self.add_src_include_file("<format>");
                self.add_include_file("<string>");
                self.add_include_file(file);
                let is_set = sub_type.as_str().unicode_len() == 0;
                if is_set {
                    self.needs.set = true;
                } else {
                    self.needs.map = true;
                }
                let ghost asked = self@;
                let opt_sub = if is_set {
                    None
                } else {
                    let sub = self.add_incomplete(sub_type.as_str());
                    Some(sub.1)
                };
                let ghost mid = self@;
                let cpp_type = CppTypes::Dictionary(CppDict::new(opt_sub, name.clone()));
                proof {
                    if !is_set {
                        reveal_strlit("std::map<std::string, ");
                        reveal_strlit("std::unordered_map<std::string, ");
                        lemma_wrapped_differs("std::map<std::string, "@, sub_type@, ">"@);
                        lemma_wrapped_differs("std::unordered_map<std::string, "@, sub_type@, ">"@);
                        asked.lemma_still_free(name@, sub_type@, cpp_type@);
                    } else {
                        crate::state::lemma_position(asked.names, name@);
                    }
                }
                let r = self.add_or_replace_cpp_type(name.as_str(), cpp_type, meta);
                proof {
                    self.lemma_len_fits();
                    if !is_set {
                        asked.lemma_with_incomplete(sub_type@);
                    }
                    mid.lemma_registered(name@, cpp_type@, meta@);
                    assert forall|other: Seq<char>|
                        old(self)@.index_of(other) is Some implies self@.index_of(other) == old(
                        self,
                    )@.index_of(other) by {
                        assert(asked.index_of(other) == old(self)@.index_of(other));
                    }
                    old(self)@.lemma_root_kept(self@, name@);
                }
                r.0
            },
        }
    }

    /// Moves the root to `name` where it is `sub_type`.
    fn wrap_root(&mut self, sub_type: &str, name: &str)
        ensures
            final(self)@ == (if old(self)@.root_type == Some(sub_type@) {
                StateView { root_type: Some(name@), ..old(self)@ }
            } else {
                old(self)@
            }),
    {
        let wraps_root = match &self.root_type {
            Some(rootname) => same_text(rootname.as_str(), sub_type),
            None => false,
        };
        if wraps_root {
            self.root_type = Some(name.to_owned());
        }
    }

    /// Registers the wrapper `name` around `sub_type`, which is not
    /// defined yet.
    fn add_nullable(&mut self, name: &str, sub_type: String, meta: Metadata)
        requires
            old(self)@.wf_registry(),
            !old(self)@.holds_definition(name@),
            name@ == nullable_name(sub_type@),
        ensures
            final(self)@ == ({
                let s = old(self)@.with_include("<memory>"@);
                let s = StateView { needs: HelperNeeds { nullable: true, ..s.needs }, ..s };
                s.with_incomplete(sub_type@).registered(
                    name@,
                    ShapeView::Nullable(
                        NullableView { idx: s.resolved_index(sub_type@) as usize, name: sub_type@ },
                    ),
                    meta@,
                )
            }),
            final(self)@.wf_registry(),
            final(self)@.index_of(name@) is Some,
            final(self)@.root_type == old(self)@.root_type,
            forall|other: Seq<char>|
                old(self)@.index_of(other) is Some ==> final(self)@.index_of(other) == old(
                    self,
                )@.index_of(other),
    {
        self.add_include_file("<memory>");
        self.needs.nullable = true;
        let ghost asked = self@;
        let sub = self.add_incomplete(sub_type.as_str());
        let ghost mid = self@;
        let cpp_type = CppTypes::Nullable(CppNullable::new(sub.1, sub_type));
        proof {
            reveal_strlit("std::unique_ptr<");
            lemma_wrapped_differs("std::unique_ptr<"@, sub_type@, ">"@);
            asked.lemma_still_free(name@, sub_type@, cpp_type@);
        }
        let _ = self.add_or_replace_cpp_type(name, cpp_type, meta);
        proof {
            self.lemma_len_fits();
            asked.lemma_with_incomplete(sub_type@);
            mid.lemma_registered(name@, cpp_type@, meta@);
            assert forall|other: Seq<char>| old(self)@.index_of(other) is Some implies self@.index_of(
                other,
            ) == old(self)@.index_of(other) by {
                assert(asked.index_of(other) == old(self)@.index_of(other));
            }
        }
    }

    fn parse_nullable(&mut self, sub_type: String, meta: Metadata) -> (r: String)
        requires
            old(self)@.wf(),
        ensures
            final(self)@ == old(self)@.after_nullable(sub_type@, meta@),
            final(self)@.wf(),
            r@ == nullable_name(sub_type@),
    {
        let mut name = String::new();
        name.append("std::unique_ptr<");
        name.append(sub_type.as_str());
        name.append(">");
        assert(name@ =~= nullable_name(sub_type@));
        self.wrap_root(sub_type.as_str(), name.as_str());
        let ghost moved = self@;
        proof {
            assert forall|other: Seq<char>| old(self)@.index_of(other) is Some implies moved.index_of(
                other,
            ) == old(self)@.index_of(other) by {}
            old(self)@.lemma_root_kept(moved, name@);
        }
        if !self.is_defined(name.as_str()) {
            self.add_nullable(name.as_str(), sub_type, meta);
            proof {
                moved.lemma_root_kept(self@, name@);
            }
        }
        name
    }

    /// Declares a type expression, unless it is a timestamp or the name of
    /// a scalar is taken by another shape, and gives back the C++ type that
    /// it is rendered as. Where it gives nothing back, only the header that
    /// a string asks for was recorded.
    pub fn try_parse_primitive(&mut self, expr: Expr, props: &CppProps, meta: Metadata) -> (r:
        Option<String>)
        requires
            old(self)@.wf(),
        ensures
            r is Some == old(self)@.admits_primitive(expr@),
            r is Some ==> r->0@ == expr_name(expr@, props@),
            final(self)@ == (if r is Some {
                old(self)@.after_primitive(expr@, props@, meta@)
            } else {
                old(self)@.before_scalar(expr@)
            }),
            final(self)@.wf(),
    {
        match expr {
            Expr::Boolean => self.add_primitive(Primitives::Bool, meta),
            Expr::Int8 => self.add_primitive(Primitives::Int8, meta),
            Expr::Uint8 => self.add_primitive(Primitives::Uint8, meta),
            Expr::Int16 => self.add_primitive(Primitives::Int16, meta),
            Expr::Uint16 => self.add_primitive(Primitives::Uint16, meta),
            Expr::Int32 => self.add_primitive(Primitives::Int32, meta),
            Expr::Uint32 => self.add_primitive(Primitives::Uint32, meta),
            Expr::Float32 => self.add_primitive(Primitives::Float32, meta),
            Expr::Float64 => self.add_primitive(Primitives::Float64, meta),
            Expr::String => {
                self.add_include_file("<string>");
                self.add_primitive(Primitives::String, meta)
            },
            Expr::Timestamp => None,
            Expr::ArrayOf(sub_type) => Some(self.parse_array(sub_type, meta)),
            Expr::DictOf(sub_type) => Some(self.parse_dict(sub_type, props, meta)),
            Expr::Empty => {
                self.needs.raw_value = true;
                Some("JsonTypedefCodeGen::Data::JsonValue".to_owned())
            },
            Expr::NullableOf(sub_type) => Some(self.parse_nullable(sub_type, meta)),
        }
    }

    /// Declares a type expression and gives back the C++ type that it is
    /// rendered as. Timestamps are outside the contract.
    pub fn parse_primitive(&mut self, expr: Expr, props: &CppProps, meta: Metadata) -> (r: String)
        requires
            old(self)@.wf(),
            old(self)@.admits_primitive(expr@),
        ensures
            final(self)@ == old(self)@.after_primitive(expr@, props@, meta@),
            final(self)@.wf(),
            r@ == expr_name(expr@, props@),
    {
        match self.try_parse_primitive(expr, props, meta) {
            Some(name) => name,
            None => String::new(),
        }
    }
}

} // verus!
