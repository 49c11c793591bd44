//! What holds of the registry and of the rendering whatever is declared.

use vstd::prelude::*;
use crate::cpp_types::containers::nullable_prototype_text;
use crate::cpp_types::{aliased_name, DiscriminatorView, ShapeView};
use crate::props::{CppProps, PropsView};
use crate::schema::{EnumMemberView, ExprView, FieldView, VariantInfoView};
use crate::text::{byte_len, byte_suffix, lemma_byte_suffix_of_concat};
use crate::state::emit::{alias_lines, declaration_texts, forward_lines, internal_codes};
use crate::state::{
    ascending,
    field_types,
    lemma_position,
    lemma_position_push,
    lemma_with_file,
    nullable_name,
    scalar_of,
    variant_types,
    CppState,
    HelperNeeds,
    StateView,
};

verus! {

/// Registering a shape a second time under the same name is accepted,
/// changes nothing, whatever annotations come with it, and resolves to the
/// same position as the first time.
pub proof fn lemma_registration_idempotent(
    state: StateView,
    name: Seq<char>,
    shape: ShapeView,
    first_meta: Seq<(Seq<char>, Seq<char>)>,
    second_meta: Seq<(Seq<char>, Seq<char>)>,
)
    requires
        state.wf_registry(),
        state.accepts(name, shape),
    ensures
        state.registered(name, shape, first_meta).accepts(name, shape),
        state.registered(name, shape, first_meta).registered(name, shape, second_meta)
            == state.registered(name, shape, first_meta),
        state.registered(name, shape, first_meta).resolved_index(name) == state.resolved_index(
            name,
        ),
{
    lemma_position(state.names, name);
    lemma_position_push(state.names, name, name);
}

/// Referring to a name twice resolves to the same position, and the second
/// reference changes nothing.
pub proof fn lemma_reference_idempotent(state: StateView, name: Seq<char>)
    ensures
        state.with_incomplete(name).with_incomplete(name) == state.with_incomplete(name),
        state.with_incomplete(name).resolved_index(name) == state.resolved_index(name),
{
    lemma_position(state.names, name);
    lemma_position_push(state.names, name, name);
}

/// A name that is referred to before it is defined gets a placeholder, and
/// the definition that arrives later takes the placeholder's position: the
/// name resolves to the same position before and after, the position then
/// holds the definition, and no position is added or moved.
pub proof fn lemma_forward_reference_resolved(
    state: StateView,
    name: Seq<char>,
    shape: ShapeView,
    meta: Seq<(Seq<char>, Seq<char>)>,
)
    requires
        state.wf_registry(),
        state.index_of(name) is None,
    ensures
        ({
            let held = state.with_incomplete(name);
            let done = held.registered(name, shape, meta);
            let at = state.resolved_index(name);
            &&& held.index_of(name) == Some(at)
            &&& held.types[at] is Incomplete
            &&& held.accepts(name, shape)
            &&& done.index_of(name) == Some(at)
            &&& done.types[at] == shape
            &&& done.names == held.names
            &&& done.types.len() == held.types.len()
            &&& forall|k: int| 0 <= k < held.types.len() && k != at ==> done.types[k] == held.types[k]
        }),
{
    lemma_position(state.names, name);
    lemma_position_push(state.names, name, name);
}

/// A placeholder is replaced where it stands, whenever the definition
/// arrives: every holder of the position sees the definition, every name
/// keeps its position, and every other position keeps its shape.
pub proof fn lemma_placeholder_replaced_in_place(
    state: StateView,
    name: Seq<char>,
    shape: ShapeView,
    meta: Seq<(Seq<char>, Seq<char>)>,
)
    requires
        state.wf_registry(),
        state.index_of(name) is Some,
        state.types[state.index_of(name)->0] is Incomplete,
    ensures
        ({
            let done = state.registered(name, shape, meta);
            let at = state.index_of(name)->0;
            &&& state.accepts(name, shape)
            &&& done.names == state.names
            &&& done.types.len() == state.types.len()
            &&& done.types[at] == shape
            &&& forall|k: int| 0 <= k < state.types.len() && k != at ==> done.types[k] == state.types[k]
        }),
{
    lemma_position(state.names, name);
}

/// Once a name holds a definition, no other shape is accepted under it.
pub proof fn lemma_conflicting_redefinition_refused(
    state: StateView,
    name: Seq<char>,
    first: ShapeView,
    second: ShapeView,
    meta: Seq<(Seq<char>, Seq<char>)>,
)
    requires
        state.wf_registry(),
        state.accepts(name, first),
        !(first is Incomplete),
        second != first,
    ensures
        !state.registered(name, first, meta).accepts(name, second),
{
    lemma_position(state.names, name);
    lemma_position_push(state.names, name, name);
}

/// The rendered files depend on nothing but what was declared and how the
/// rendering is configured: two states that hold the same, rendered under
/// the same configuration, give the same header and the same source.
pub proof fn lemma_rendering_deterministic(
    first: CppState,
    second: CppState,
    first_props: CppProps,
    second_props: CppProps,
)
    requires
        first@ == second@,
        first_props@ == second_props@,
    ensures
        first@.header_text(first_props@) == second@.header_text(second_props@),
        first@.source_text(first_props@) == second@.source_text(second_props@),
        first@.forward_declarations_text() == second@.forward_declarations_text(),
        first@.alias_text() == second@.alias_text(),
        first@.declare_text() == second@.declare_text(),
        first@.prototype_text(first_props@) == second@.prototype_text(second_props@),
        first@.define_text(first_props@) == second@.define_text(second_props@),
        first@.internal_code_text(first_props@) == second@.internal_code_text(second_props@),
{
}

/// Passing the root through the nullable wrapper makes the wrapper the
/// root, and the public prototype is that of the wrapper. This is stated
/// for a wrapper whose name is free, holds a placeholder or holds a
/// nullable shape already.
pub proof fn lemma_root_follows_nullable(
    state: StateView,
    sub_type: Seq<char>,
    meta: Seq<(Seq<char>, Seq<char>)>,
    props: PropsView,
)
    requires
        state.wf(),
        state.root_type == Some(sub_type),
        match state.index_of(nullable_name(sub_type)) {
            Some(i) => state.types[i] is Nullable || state.types[i] is Incomplete,
            None => true,
        },
    ensures
        ({
            let after = state.after_nullable(sub_type, meta);
            &&& after.root_type == Some(nullable_name(sub_type))
            &&& after.root_shape() is Nullable
            &&& !state.holds_definition(nullable_name(sub_type)) ==> after.root_shape()->Nullable_0.name
                == sub_type
            &&& after.prototype_text(props) == "\n// prototypes"@ + nullable_prototype_text(
                aliased_name(after.types, after.root_shape()->Nullable_0.pointer_text()),
            )
        }),
{
    let name = nullable_name(sub_type);
    lemma_position(state.names, name);
    if !state.holds_definition(name) {
        let asked = state.with_include("<memory>"@);
        lemma_position_push(asked.names, sub_type, name);
        lemma_position(asked.names, sub_type);
        reveal_strlit("std::unique_ptr<");
        crate::state::lemma_wrapped_differs("std::unique_ptr<"@, sub_type, ">"@);
        let mid = asked.with_incomplete(sub_type);
        lemma_position(mid.names, name);
        lemma_position_push(mid.names, name, name);
    }
}

/// Every request for a shared routine that `before` holds, `after` holds
/// too.
pub open spec fn needs_kept(before: HelperNeeds, after: HelperNeeds) -> bool {
    &&& before.enum_index ==> after.enum_index
    &&& before.value_index ==> after.value_index
    &&& before.array ==> after.array
    &&& before.map ==> after.map
    &&& before.set ==> after.set
    &&& before.raw_value ==> after.raw_value
    &&& before.nullable ==> after.nullable
}

/// `after` holds everything that `before` holds: every position keeps its
/// name, every defined shape stays as it is, only placeholders may have
/// been replaced, and no header, no request for a shared routine and no
/// root is lost.
pub open spec fn grows_to(before: StateView, after: StateView) -> bool {
    &&& before.names.len() <= after.names.len()
    &&& before.types.len() <= after.types.len()
    &&& forall|i: int| 0 <= i < before.names.len() ==> after.names[i] == before.names[i]
    &&& forall|i: int|
        0 <= i < before.types.len() ==> (#[trigger] before.types[i]) is Incomplete
            || after.types[i] == before.types[i]
    &&& forall|f: Seq<char>|
        before.include_files.contains(f) ==> after.include_files.contains(f)
    &&& forall|f: Seq<char>|
        before.src_include_files.contains(f) ==> after.src_include_files.contains(f)
    &&& needs_kept(before.needs, after.needs)
    &&& before.root_type is Some ==> after.root_type is Some
}

/// What the steps of a declaration rely on and keep: a shape for every
/// name, and both lists of headers ascending.
pub open spec fn orderly(state: StateView) -> bool {
    &&& state.names.len() == state.types.len()
    &&& ascending(state.include_files)
    &&& ascending(state.src_include_files)
}

/// Growth carries over a chain of steps.
pub proof fn lemma_grows_transitive(first: StateView, second: StateView, third: StateView)
    requires
        grows_to(first, second),
        grows_to(second, third),
    ensures
        grows_to(first, third),
{
    assert forall|i: int| 0 <= i < first.types.len() implies (#[trigger] first.types[i])
        is Incomplete || third.types[i] == first.types[i] by {
        if !(first.types[i] is Incomplete) {
            assert(second.types[i] == first.types[i]);
            assert(!(second.types[i] is Incomplete));
        }
    }
}

proof fn lemma_reference_grows(state: StateView, name: Seq<char>)
    requires
        orderly(state),
    ensures
        grows_to(state, state.with_incomplete(name)),
        orderly(state.with_incomplete(name)),
{
}

proof fn lemma_references_grow(state: StateView, refs: Seq<Seq<char>>)
    requires
        orderly(state),
    ensures
        grows_to(state, state.with_references(refs)),
        orderly(state.with_references(refs)),
        state.with_references(refs).root_type == state.root_type,
    decreases refs.len(),
{
    if refs.len() > 0 {
        let mid = state.with_references(refs.drop_last());
        lemma_references_grow(state, refs.drop_last());
        lemma_reference_grows(mid, refs.last());
        lemma_grows_transitive(state, mid, state.with_references(refs));
    }
}

proof fn lemma_registered_grows(
    state: StateView,
    name: Seq<char>,
    shape: ShapeView,
    meta: Seq<(Seq<char>, Seq<char>)>,
)
    requires
        orderly(state),
    ensures
        grows_to(state, state.registered(name, shape, meta)),
        orderly(state.registered(name, shape, meta)),
        state.registered(name, shape, meta).root_type == state.root_type,
{
    lemma_position(state.names, name);
}

proof fn lemma_include_grows(state: StateView, file: Seq<char>)
    requires
        orderly(state),
    ensures
        grows_to(state, state.with_include(file)),
        orderly(state.with_include(file)),
        grows_to(state, state.with_src_include(file)),
        orderly(state.with_src_include(file)),
{
    lemma_with_file(state.include_files, file);
    lemma_with_file(state.src_include_files, file);
}

proof fn lemma_index_code_grows(state: StateView)
    requires
        orderly(state),
    ensures
        grows_to(state, state.with_enum_index_code()),
        orderly(state.with_enum_index_code()),
        grows_to(state, state.with_value_index_code()),
        orderly(state.with_value_index_code()),
        state.with_enum_index_code().root_type == state.root_type,
        state.with_value_index_code().root_type == state.root_type,
{
    let a = state.with_src_include("<array>"@);
    let b = a.with_src_include("<format>"@);
    let c = b.with_src_include("<span>"@);
    let d = c.with_src_include("<string_view>"@);
    lemma_include_grows(state, "<array>"@);
    lemma_include_grows(a, "<format>"@);
    lemma_include_grows(b, "<span>"@);
    lemma_include_grows(c, "<string_view>"@);
    lemma_grows_transitive(state, a, b);
    lemma_grows_transitive(state, b, c);
    lemma_grows_transitive(state, c, d);
}

/// Declaring an alias loses nothing, whether the alias is accepted or not,
/// and a root that was chosen stays the root.
pub proof fn lemma_alias_grows(
    state: StateView,
    name: Seq<char>,
    sub_type: Seq<char>,
    meta: Seq<(Seq<char>, Seq<char>)>,
)
    requires
        state.wf(),
    ensures
        grows_to(state, state.before_alias(name, sub_type)),
        grows_to(state, state.after_alias(name, sub_type, meta)),
        state.root_type is Some ==> state.after_alias(name, sub_type, meta).root_type
            == state.root_type,
{
    let rooted = state.with_root(name);
    let mid = state.before_alias(name, sub_type);
    lemma_reference_grows(rooted, sub_type);
    lemma_grows_transitive(state, rooted, mid);
    lemma_registered_grows(mid, name, StateView::alias_shape(name, sub_type), meta);
    lemma_grows_transitive(state, mid, state.after_alias(name, sub_type, meta));
}

/// Declaring an enumeration loses nothing, whether it is accepted or not,
/// and a root that was chosen stays the root.
pub proof fn lemma_enum_grows(
    state: StateView,
    name: Seq<char>,
    members: Seq<EnumMemberView>,
    meta: Seq<(Seq<char>, Seq<char>)>,
)
    requires
        state.wf(),
    ensures
        grows_to(state, state.before_enum(name)),
        grows_to(state, state.after_enum(name, members, meta)),
        state.root_type is Some ==> state.after_enum(name, members, meta).root_type
            == state.root_type,
{
    let rooted = state.with_root(name);
    let mid = state.before_enum(name);
    lemma_index_code_grows(rooted);
    lemma_grows_transitive(state, rooted, mid);
    lemma_registered_grows(mid, name, StateView::enum_shape(name, members), meta);
    lemma_grows_transitive(state, mid, state.after_enum(name, members, meta));
}

/// Declaring a struct loses nothing, whether it is accepted or not, and a
/// root that was chosen stays the root.
pub proof fn lemma_struct_grows(
    state: StateView,
    name: Seq<char>,
    fields: Seq<FieldView>,
    meta: Seq<(Seq<char>, Seq<char>)>,
)
    requires
        state.wf(),
    ensures
        grows_to(state, state.before_struct(name, fields)),
        grows_to(state, state.after_struct(name, fields, meta)),
        state.root_type is Some ==> state.after_struct(name, fields, meta).root_type
            == state.root_type,
{
    let referred = state.with_references(field_types(fields));
    let rooted = referred.with_root(name);
    let mid = state.before_struct(name, fields);
    lemma_references_grow(state, field_types(fields));
    lemma_grows_transitive(state, referred, rooted);
    lemma_index_code_grows(rooted);
    lemma_grows_transitive(state, rooted, mid);
    lemma_registered_grows(mid, name, state.struct_shape(name, fields), meta);
    lemma_grows_transitive(state, mid, state.after_struct(name, fields, meta));
}

/// Declaring a discriminator loses nothing, whether it is accepted or not,
/// and a root that was chosen stays the root.
pub proof fn lemma_discriminator_grows(
    state: StateView,
    name: Seq<char>,
    variants: Seq<VariantInfoView>,
    tag_json_name: Seq<char>,
    tag_field_name: Seq<char>,
    meta: Seq<(Seq<char>, Seq<char>)>,
)
    requires
        state.wf(),
    ensures
        grows_to(state, state.before_discriminator(name, variants)),
        grows_to(
            state,
            state.after_discriminator(name, variants, tag_json_name, tag_field_name, meta),
        ),
        state.root_type is Some ==> state.after_discriminator(
            name,
            variants,
            tag_json_name,
            tag_field_name,
            meta,
        ).root_type == state.root_type,
{
    let referred = state.with_references(variant_types(variants));
    let rooted = referred.with_root(name);
    let mid = state.before_discriminator(name, variants);
    lemma_references_grow(state, variant_types(variants));
    lemma_grows_transitive(state, referred, rooted);
    lemma_index_code_grows(rooted);
    lemma_grows_transitive(state, rooted, mid);
    let shape = state.discriminator_shape(name, variants, tag_json_name, tag_field_name);
    lemma_registered_grows(mid, name, shape, meta);
    lemma_grows_transitive(
        state,
        mid,
        state.after_discriminator(name, variants, tag_json_name, tag_field_name, meta),
    );
}

/// Declaring a variant loses nothing, whether it is accepted or not, and
/// leaves the root as it is.
pub proof fn lemma_variant_grows(
    state: StateView,
    name: Seq<char>,
    fields: Seq<FieldView>,
    tag_field_name: Seq<char>,
    tag_json_name: Seq<char>,
    tag_value: Seq<char>,
    parent_name: Seq<char>,
    meta: Seq<(Seq<char>, Seq<char>)>,
)
    requires
        state.wf(),
    ensures
        grows_to(state, state.before_variant(fields)),
        grows_to(
            state,
            state.after_variant(
                name,
                fields,
                tag_field_name,
                tag_json_name,
                tag_value,
                parent_name,
                meta,
            ),
        ),
        state.after_variant(
            name,
            fields,
            tag_field_name,
            tag_json_name,
            tag_value,
            parent_name,
            meta,
        ).root_type == state.root_type,
{
    let referred = state.with_references(field_types(fields));
    let mid = state.before_variant(fields);
    lemma_references_grow(state, field_types(fields));
    lemma_index_code_grows(referred);
    lemma_grows_transitive(state, referred, mid);
    let shape = state.variant_shape(
        name,
        fields,
        tag_field_name,
        tag_json_name,
        tag_value,
        parent_name,
    );
    lemma_registered_grows(mid, name, shape, meta);
    lemma_grows_transitive(
        state,
        mid,
        state.after_variant(
            name,
            fields,
            tag_field_name,
            tag_json_name,
            tag_value,
            parent_name,
            meta,
        ),
    );
}

proof fn lemma_scalar_grows(
    state: StateView,
    expr: ExprView,
    meta: Seq<(Seq<char>, Seq<char>)>,
)
    requires
        state.wf(),
        scalar_of(expr) is Some,
    ensures
        grows_to(state, state.before_scalar(expr)),
        grows_to(state, state.after_scalar(scalar_of(expr)->0, meta)),
        state.after_scalar(scalar_of(expr)->0, meta).root_type == state.root_type,
{
    let prim = scalar_of(expr)->0;
    let asked = state.before_scalar(expr);
    lemma_include_grows(state, "<string>"@);
    lemma_registered_grows(asked, prim.name_text(), ShapeView::Primitive(prim), meta);
    lemma_grows_transitive(state, asked, state.after_scalar(prim, meta));
}

proof fn lemma_array_grows(state: StateView, sub_type: Seq<char>, meta: Seq<(Seq<char>, Seq<char>)>)
    requires
        state.wf(),
    ensures
        grows_to(state, state.after_array(sub_type, meta)),
        state.after_array(sub_type, meta).root_type == state.root_type,
{
    let name = crate::state::array_name(sub_type);
    if !state.holds_definition(name) {
        let s = state.with_include("<vector>"@);
        let asked = StateView { needs: HelperNeeds { array: true, ..s.needs }, ..s };
        lemma_include_grows(state, "<vector>"@);
        lemma_grows_transitive(state, s, asked);
        lemma_reference_grows(asked, sub_type);
        let mid = asked.with_incomplete(sub_type);
        lemma_grows_transitive(state, asked, mid);
        let shape = ShapeView::Array(
            crate::cpp_types::ArrayView { idx: asked.resolved_index(sub_type) as usize, name },
        );
        lemma_registered_grows(mid, name, shape, meta);
        lemma_grows_transitive(state, mid, state.after_array(sub_type, meta));
    }
}

proof fn lemma_dict_headers_grow(state: StateView, sub_type: Seq<char>, props: PropsView)
    requires
        orderly(state),
    ensures
        ({
            let asked = state.with_src_include("<format>"@).with_include("<string>"@).with_include(
                props.dictionary.header(sub_type),
            );
            &&& grows_to(state, asked)
            &&& orderly(asked)
            &&& asked.root_type == state.root_type
        }),
{
    let a = state.with_src_include("<format>"@);
    let b = a.with_include("<string>"@);
    let c = b.with_include(props.dictionary.header(sub_type));
    lemma_include_grows(state, "<format>"@);
    lemma_include_grows(a, "<string>"@);
    lemma_include_grows(b, props.dictionary.header(sub_type));
    lemma_grows_transitive(state, a, b);
    lemma_grows_transitive(state, b, c);
}

proof fn lemma_dict_grows(
    state: StateView,
    sub_type: Seq<char>,
    props: PropsView,
    meta: Seq<(Seq<char>, Seq<char>)>,
)
    requires
        state.wf(),
    ensures
        grows_to(state, state.after_dict(sub_type, props, meta)),
        state.after_dict(sub_type, props, meta).root_type == state.root_type,
{
    let name = props.dictionary.container(sub_type);
    let after = state.after_dict(sub_type, props, meta);
    if !state.holds_definition(name) {
        let c = state.with_src_include("<format>"@).with_include("<string>"@).with_include(
            props.dictionary.header(sub_type),
        );
        lemma_dict_headers_grow(state, sub_type, props);
        if sub_type.len() == 0 {
            let asked = StateView { needs: HelperNeeds { set: true, ..c.needs }, ..c };
            lemma_grows_transitive(state, c, asked);
            let shape = ShapeView::Dictionary(crate::cpp_types::DictView { opt_idx: None, name });
            lemma_registered_grows(asked, name, shape, meta);
            lemma_grows_transitive(state, asked, after);
        } else {
            let asked = StateView { needs: HelperNeeds { map: true, ..c.needs }, ..c };
            lemma_grows_transitive(state, c, asked);
            lemma_reference_grows(asked, sub_type);
            let mid = asked.with_incomplete(sub_type);
            lemma_grows_transitive(state, asked, mid);
            let shape = ShapeView::Dictionary(
                crate::cpp_types::DictView {
                    opt_idx: Some(asked.resolved_index(sub_type) as usize),
                    name,
                },
            );
            lemma_registered_grows(mid, name, shape, meta);
            lemma_grows_transitive(state, mid, after);
        }
    }
}

proof fn lemma_nullable_grows(
    state: StateView,
    sub_type: Seq<char>,
    meta: Seq<(Seq<char>, Seq<char>)>,
)
    requires
        state.wf(),
    ensures
        grows_to(state, state.after_nullable(sub_type, meta)),
        state.after_nullable(sub_type, meta).root_type == (if state.root_type == Some(sub_type) {
            Some(nullable_name(sub_type))
        } else {
            state.root_type
        }),
{
    let name = nullable_name(sub_type);
    let after = state.after_nullable(sub_type, meta);
    let moved = if state.root_type == Some(sub_type) {
        StateView { root_type: Some(name), ..state }
    } else {
        state
    };
    assert(grows_to(state, moved));
    if !moved.holds_definition(name) {
        let s = moved.with_include("<memory>"@);
        let asked = StateView { needs: HelperNeeds { nullable: true, ..s.needs }, ..s };
        lemma_include_grows(moved, "<memory>"@);
        lemma_grows_transitive(state, moved, s);
        lemma_grows_transitive(state, s, asked);
        lemma_reference_grows(asked, sub_type);
        let mid = asked.with_incomplete(sub_type);
        lemma_grows_transitive(state, asked, mid);
        let shape = ShapeView::Nullable(
            crate::cpp_types::NullableView {
                idx: asked.resolved_index(sub_type) as usize,
                name: sub_type,
            },
        );
        lemma_registered_grows(mid, name, shape, meta);
        lemma_grows_transitive(state, mid, after);
    }
}

/// Declaring a type expression loses nothing. The root stays as it is,
/// except that passing the root itself through the nullable wrapper makes
/// the wrapper the root.
pub proof fn lemma_primitive_grows(
    state: StateView,
    expr: ExprView,
    props: PropsView,
    meta: Seq<(Seq<char>, Seq<char>)>,
)
    requires
        state.wf(),
    ensures
        grows_to(state, state.before_scalar(expr)),
        grows_to(state, state.after_primitive(expr, props, meta)),
        state.after_primitive(expr, props, meta).root_type == (if expr is NullableOf
            && state.root_type == Some(expr->NullableOf_0) {
            Some(nullable_name(expr->NullableOf_0))
        } else {
            state.root_type
        }),
{
    match expr {
        ExprView::Empty => {},
        ExprView::Timestamp => {},
        ExprView::ArrayOf(sub_type) => {
            lemma_array_grows(state, sub_type, meta);
        },
        ExprView::DictOf(sub_type) => {
            lemma_dict_grows(state, sub_type, props, meta);
        },
        ExprView::NullableOf(sub_type) => {
            lemma_nullable_grows(state, sub_type, meta);
        },
        _ => {
            lemma_scalar_grows(state, expr, meta);
        },
    }
}

/// The declarations follow the registry: each shape contributes once, at
/// its place, so the declarations of a registry that grew at the end are
/// those of the registry before, followed by those of the new positions.
pub proof fn lemma_declarations_follow_registry(types: Seq<ShapeView>, more: Seq<ShapeView>)
    ensures
        declaration_texts(types + more) == declaration_texts(types) + declaration_texts(more),
        alias_lines(types + more) == alias_lines(types) + alias_lines(more),
    decreases more.len(),
{
    if more.len() == 0 {
        assert(types + more =~= types);
        assert(declaration_texts(types) + declaration_texts(more) =~= declaration_texts(types));
        assert(alias_lines(types) + alias_lines(more) =~= alias_lines(types));
    } else {
        lemma_declarations_follow_registry(types, more.drop_last());
        assert((types + more).drop_last() =~= types + more.drop_last());
        assert((types + more).last() == more.last());
        let own = match more.last().declare_text() {
            Some(text) => text,
            None => Seq::<char>::empty(),
        };
        assert(declaration_texts(types + more) =~= declaration_texts(types) + (declaration_texts(
            more.drop_last(),
        ) + own));
        let alias = match more.last() {
            ShapeView::Alias(a) => a.format_text(),
            _ => Seq::<char>::empty(),
        };
        assert(alias_lines(types + more) =~= alias_lines(types) + (alias_lines(more.drop_last())
            + alias));
    }
}

/// The conversion routines follow the registry in the same way.
pub proof fn lemma_routines_follow_registry(
    types: Seq<ShapeView>,
    more: Seq<ShapeView>,
    props: PropsView,
)
    ensures
        internal_codes(types + more, props) == internal_codes(types, props) + internal_codes(
            more,
            props,
        ),
    decreases more.len(),
{
    if more.len() == 0 {
        assert(types + more =~= types);
        assert(internal_codes(types, props) + internal_codes(more, props) =~= internal_codes(
            types,
            props,
        ));
    } else {
        lemma_routines_follow_registry(types, more.drop_last(), props);
        assert((types + more).drop_last() =~= types + more.drop_last());
        assert((types + more).last() == more.last());
        let own = match more.last().internal_code_text(props) {
            Some(text) => text,
            None => Seq::<char>::empty(),
        };
        assert(internal_codes(types + more, props) =~= internal_codes(types, props) + (
        internal_codes(more.drop_last(), props) + own));
    }
}

/// The forward declarations follow the registry in the same way, and a
/// shape is declared ahead exactly where it needs to be.
pub proof fn lemma_forward_declarations_follow_registry(
    names: Seq<Seq<char>>,
    types: Seq<ShapeView>,
    more_names: Seq<Seq<char>>,
    more_types: Seq<ShapeView>,
)
    requires
        names.len() == types.len(),
        more_names.len() == more_types.len(),
    ensures
        forward_lines(names + more_names, types + more_types) == forward_lines(names, types)
            + forward_lines(more_names, more_types),
        more_types.len() == 1 ==> (forward_lines(more_names, more_types).len() > 0
            <==> more_types[0].needs_forward_declaration()),
    decreases more_types.len(),
{
    if more_types.len() == 0 {
        assert(names + more_names =~= names);
        assert(types + more_types =~= types);
        assert(forward_lines(names, types) + forward_lines(more_names, more_types)
            =~= forward_lines(names, types));
    } else {
        lemma_forward_declarations_follow_registry(
            names,
            types,
            more_names.drop_last(),
            more_types.drop_last(),
        );
        assert((names + more_names).drop_last() =~= names + more_names.drop_last());
        assert((types + more_types).drop_last() =~= types + more_types.drop_last());
        assert((types + more_types).last() == more_types.last());
        assert((names + more_names).last() == more_names.last());
        let own = match more_types.last().prefix() {
            Some(prefix) => prefix + " "@ + more_names.last() + ";\n"@,
            None => Seq::<char>::empty(),
        };
        assert(forward_lines(names + more_names, types + more_types) =~= forward_lines(
            names,
            types,
        ) + (forward_lines(more_names.drop_last(), more_types.drop_last()) + own));
        if more_types.len() == 1 {
            reveal_strlit(";\n");
            assert(forward_lines(more_names.drop_last(), more_types.drop_last()).len() == 0);
        }
    }
}

/// A discriminator whose variant types are all named by its own name
/// followed by a suffix can name its enumerators, and the enumerators are
/// those suffixes.
pub proof fn lemma_prefixed_variants_nameable(
    discriminator: DiscriminatorView,
    suffixes: Seq<Seq<char>>,
)
    requires
        suffixes.len() == discriminator.variants.len(),
        forall|i: int|
            0 <= i < suffixes.len() ==> (#[trigger] discriminator.variants[i]).variant_type
                == discriminator.name + suffixes[i],
    ensures
        discriminator.nameable(),
        forall|i: int|
            0 <= i < suffixes.len() ==> byte_suffix(
                (#[trigger] discriminator.variants[i]).variant_type,
                byte_len(discriminator.name) as int,
            ) == suffixes[i],
{
    assert forall|i: int| 0 <= i < suffixes.len() implies crate::text::cuttable(
        (#[trigger] discriminator.variants[i]).variant_type,
        byte_len(discriminator.name) as int,
    ) && byte_suffix(discriminator.variants[i].variant_type, byte_len(discriminator.name) as int)
        == suffixes[i] by {
        lemma_byte_suffix_of_concat(discriminator.name, suffixes[i]);
    }
}

} // verus!
