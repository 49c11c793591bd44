//! The engine state: a registry in which names are resolved to stable
//! positions and forward references are held by placeholders until the
//! definition arrives, and what is recorded beside it.

pub mod emit;
pub mod ingest;

use vstd::prelude::*;
use crate::cpp_types::{CppTypes, ShapeView, TypeIndex};
use crate::schema::Metadata;
use crate::text::{same_text, text_less, text_lt, views};

pub use ingest::{
    array_name, expr_name, field_types, lemma_wrapped_differs, nullable_name, scalar_of,
    variant_types,
};

verus! {

/// The position of the first occurrence of `name` in `names`.
pub open spec fn position(names: Seq<Seq<char>>, name: Seq<char>) -> Option<int>
    decreases names.len(),
{
    if names.len() == 0 {
        None
    } else {
        match position(names.drop_last(), name) {
            Some(i) => Some(i),
            None => if names.last() == name {
                Some(names.len() - 1)
            } else {
                None
            },
        }
    }
}

/// A found position holds the name; nothing is found only where the name
/// does not occur.
pub proof fn lemma_position(names: Seq<Seq<char>>, name: Seq<char>)
    ensures
        match position(names, name) {
            Some(i) => 0 <= i < names.len() && names[i] == name && forall|j: int|
                0 <= j < i ==> names[j] != name,
            None => forall|j: int| 0 <= j < names.len() ==> names[j] != name,
        },
    decreases names.len(),
{
    if names.len() > 0 {
        lemma_position(names.drop_last(), name);
        match position(names.drop_last(), name) {
            Some(i) => {
                assert forall|j: int| 0 <= j < i implies names[j] != name by {
                    assert(names.drop_last()[j] == names[j]);
                }
            },
            None => {
                assert forall|j: int| 0 <= j < names.len() - 1 implies names[j] != name by {
                    assert(names.drop_last()[j] == names[j]);
                }
            },
        }
    }
}

/// Where no name occurs twice, a name is found exactly where it stands.
pub proof fn lemma_position_unique(names: Seq<Seq<char>>, i: int)
    requires
        names.no_duplicates(),
        0 <= i < names.len(),
    ensures
        position(names, names[i]) == Some(i),
{
    lemma_position(names, names[i]);
}

/// Appending a name leaves what was found where it was, and the new name
/// is found at the end if it was not known.
pub proof fn lemma_position_push(names: Seq<Seq<char>>, added: Seq<char>, name: Seq<char>)
    ensures
        position(names.push(added), name) == match position(names, name) {
            Some(i) => Some(i),
            None => if added == name {
                Some(names.len() as int)
            } else {
                None
            },
        },
{
    assert(names.push(added).drop_last() =~= names);
}

/// What is found in the first `k` names is found at the same position in
/// all of them.
pub proof fn lemma_position_extends(names: Seq<Seq<char>>, k: int, name: Seq<char>)
    requires
        0 <= k <= names.len(),
        position(names.take(k), name) is Some,
    ensures
        position(names, name) == position(names.take(k), name),
    decreases names.len() - k,
{
    if k < names.len() {
        assert(names.take(k + 1).drop_last() =~= names.take(k));
        lemma_position_extends(names, k + 1, name);
    } else {
        assert(names.take(k) =~= names);
    }
}

/// Whether the texts stand in strictly ascending order.
pub open spec fn ascending(files: Seq<Seq<char>>) -> bool {
    forall|i: int, j: int| 0 <= i < j < files.len() ==> text_lt(files[i], files[j])
}

/// `files` with `file` put in its place, unless it is there already.
pub open spec fn with_file(files: Seq<Seq<char>>, file: Seq<char>) -> Seq<Seq<char>>
    decreases files.len(),
{
    if files.len() == 0 {
        seq![file]
    } else if files.last() == file {
        files
    } else if text_lt(files.last(), file) {
        files.push(file)
    } else {
        with_file(files.drop_last(), file).push(files.last())
    }
}

/// Putting a text into an ascending list keeps it ascending, keeps every
/// text that was there, and adds the new text and no other.
pub proof fn lemma_with_file(files: Seq<Seq<char>>, file: Seq<char>)
    requires
        ascending(files),
    ensures
        ascending(with_file(files, file)),
        with_file(files, file).contains(file),
        forall|f: Seq<char>| files.contains(f) ==> with_file(files, file).contains(f),
        forall|f: Seq<char>| with_file(files, file).contains(f) ==> f == file || files.contains(f),
        files.contains(file) ==> with_file(files, file) == files,
        !files.contains(file) ==> with_file(files, file).len() == files.len() + 1,
    decreases files.len(),
{
    let out = with_file(files, file);
    if files.len() == 0 {
        assert(out[0] == file);
    } else if files.last() == file {
        assert(files[files.len() - 1] == file);
    } else if text_lt(files.last(), file) {
        assert(out[out.len() - 1] == file);
        assert forall|i: int, j: int| 0 <= i < j < out.len() implies text_lt(out[i], out[j]) by {
            if j == out.len() - 1 && i < files.len() - 1 {
                crate::text::lemma_text_lt_transitive(files[i], files.last(), file);
            }
        }
        assert forall|f: Seq<char>| files.contains(f) implies out.contains(f) by {
            let k = choose|k: int| 0 <= k < files.len() && files[k] == f;
            assert(out[k] == f);
        }
        assert forall|f: Seq<char>| out.contains(f) implies f == file || files.contains(f) by {
            let k = choose|k: int| 0 <= k < out.len() && out[k] == f;
            if k < files.len() {
                assert(files[k] == f);
            }
        }
        if files.contains(file) {
            let k = choose|k: int| 0 <= k < files.len() && files[k] == file;
            if k < files.len() - 1 {
                assert(text_lt(files[k], files.last()));
                crate::text::lemma_text_lt_transitive(file, files.last(), file);
            }
            crate::text::lemma_text_lt_irreflexive(file);
        }
    } else {
        let rest = files.drop_last();
        let last = files.last();
        assert forall|i: int, j: int| 0 <= i < j < rest.len() implies text_lt(rest[i], rest[j]) by {
            assert(rest[i] == files[i] && rest[j] == files[j]);
        }
        lemma_with_file(rest, file);
        let inner = with_file(rest, file);
        crate::text::lemma_text_lt_total(last, file);
        assert(text_lt(file, last));
        assert(out =~= inner.push(last));
        assert forall|i: int, j: int| 0 <= i < j < out.len() implies text_lt(out[i], out[j]) by {
            if j == out.len() - 1 {
                let f = inner[i];
                assert(inner.contains(f));
                assert(f == file || rest.contains(f));
                if f != file {
                    let k = choose|k: int| 0 <= k < rest.len() && rest[k] == f;
                    assert(files[k] == f);
                    assert(text_lt(files[k], files[files.len() - 1]));
                }
            } else {
                assert(text_lt(inner[i], inner[j]));
            }
        }
        let k0 = choose|k: int| 0 <= k < inner.len() && inner[k] == file;
        assert(out[k0] == file);
        assert forall|f: Seq<char>| files.contains(f) implies out.contains(f) by {
            let k = choose|k: int| 0 <= k < files.len() && files[k] == f;
            if k < files.len() - 1 {
                assert(rest[k] == f);
                assert(rest.contains(f));
                let m = choose|m: int| 0 <= m < inner.len() && inner[m] == f;
                assert(out[m] == f);
            } else {
                assert(out[out.len() - 1] == f);
            }
        }
        assert forall|f: Seq<char>| out.contains(f) implies f == file || files.contains(f) by {
            let k = choose|k: int| 0 <= k < out.len() && out[k] == f;
            if k < inner.len() {
                assert(inner[k] == f);
                assert(inner.contains(f));
                assert(f == file || rest.contains(f));
                if f != file {
                    let m = choose|m: int| 0 <= m < rest.len() && rest[m] == f;
                    assert(files[m] == f);
                }
            } else {
                assert(files[files.len() - 1] == f);
            }
        }
        if files.contains(file) {
            let k = choose|k: int| 0 <= k < files.len() && files[k] == file;
            assert(rest[k] == file);
            assert(rest.contains(file));
            assert(out =~= files);
        } else {
            if rest.contains(file) {
                let k = choose|k: int| 0 <= k < rest.len() && rest[k] == file;
                assert(files[k] == file);
            }
        }
    }
}

/// Which of the shared routines the shapes seen so far rely on. Each is
/// emitted once, however many shapes asked for it.
#[derive(Clone, Copy, Debug, PartialEq, Eq, Structural)]
pub struct HelperNeeds {
    pub enum_index: bool,
    pub value_index: bool,
    pub array: bool,
    pub map: bool,
    pub set: bool,
    pub raw_value: bool,
    pub nullable: bool,
}

impl HelperNeeds {
    pub open spec fn none() -> HelperNeeds {
        HelperNeeds {
            enum_index: false,
            value_index: false,
            array: false,
            map: false,
            set: false,
            raw_value: false,
            nullable: false,
        }
    }
}

/// The engine state: the registry and what was recorded beside it.
pub struct CppState {
    include_files: Vec<String>,
    src_include_files: Vec<String>,
    metadatas: Vec<Metadata>,
    names: Vec<String>,
    cpp_types: Vec<CppTypes>,
    root_type: Option<String>,
    needs: HelperNeeds,
}

/// The state as the contracts see it. Position `i` of the registry holds
/// the name `names[i]`, the shape `types[i]` and the annotations
/// `metadatas[i]`.
pub struct StateView {
    pub include_files: Seq<Seq<char>>,
    pub src_include_files: Seq<Seq<char>>,
    pub metadatas: Seq<Seq<(Seq<char>, Seq<char>)>>,
    pub names: Seq<Seq<char>>,
    pub types: Seq<ShapeView>,
    pub root_type: Option<Seq<char>>,
    pub needs: HelperNeeds,
}

impl View for CppState {
    type V = StateView;

    closed spec fn view(&self) -> StateView {
        StateView {
            include_files: views(self.include_files@),
            src_include_files: views(self.src_include_files@),
            metadatas: views(self.metadatas@),
            names: views(self.names@),
            types: views(self.cpp_types@),
            root_type: match self.root_type {
                Some(r) => Some(r@),
                None => None,
            },
            needs: self.needs,
        }
    }
}

impl StateView {
    /// The state before anything was declared.
    pub open spec fn initial() -> StateView {
        StateView {
            include_files: Seq::empty(),
            src_include_files: Seq::empty(),
            metadatas: Seq::empty(),
            names: Seq::empty(),
            types: Seq::empty(),
            root_type: None,
            needs: HelperNeeds::none(),
        }
    }

    /// The registry is consistent: every position has a name, a shape and
    /// annotations, and positions can be counted; no name stands at two
    /// positions; every shape is well
    /// formed and refers only to positions that exist; both lists of
    /// headers are ascending.
    pub open spec fn wf_registry(self) -> bool {
        &&& self.names.len() == self.types.len()
        &&& self.names.len() == self.metadatas.len()
        &&& self.types.len() <= usize::MAX
        &&& self.names.no_duplicates()
        &&& forall|i: int| 0 <= i < self.types.len() ==> (#[trigger] self.types[i]).wf()
        &&& forall|i: int|
            0 <= i < self.types.len() ==> (#[trigger] self.types[i]).refers_below(
                self.types.len() as int,
            )
        &&& ascending(self.include_files)
        &&& ascending(self.src_include_files)
    }

    /// The root, once chosen, names a position of the registry.
    pub open spec fn root_registered(self) -> bool {
        match self.root_type {
            Some(r) => position(self.names, r) is Some,
            None => true,
        }
    }

    /// What holds of the state between any two declarations.
    pub open spec fn wf(self) -> bool {
        self.wf_registry() && self.root_registered()
    }

    /// The position of `name`, if it is known.
    pub open spec fn index_of(self, name: Seq<char>) -> Option<int> {
        position(self.names, name)
    }

    /// The state with one more position at the end.
    pub open spec fn appended(
        self,
        name: Seq<char>,
        shape: ShapeView,
        meta: Seq<(Seq<char>, Seq<char>)>,
    ) -> StateView {
        StateView {
            names: self.names.push(name),
            types: self.types.push(shape),
            metadatas: self.metadatas.push(meta),
            ..self
        }
    }

    /// The state after `name` was referred to: a name not yet known gets a
    /// placeholder at the end.
    pub open spec fn with_incomplete(self, name: Seq<char>) -> StateView {
        if self.index_of(name) is Some {
            self
        } else {
            self.appended(name, ShapeView::Incomplete, Seq::empty())
        }
    }

    /// The position that a reference to `name` resolves to.
    pub open spec fn resolved_index(self, name: Seq<char>) -> int {
        match self.index_of(name) {
            Some(i) => i,
            None => self.names.len() as int,
        }
    }

    /// Whether `shape` may be registered under `name`: the name is not
    /// known, or it only holds a placeholder, or it holds this very shape.
    pub open spec fn accepts(self, name: Seq<char>, shape: ShapeView) -> bool {
        match self.index_of(name) {
            Some(i) => self.types[i] == shape || self.types[i] is Incomplete,
            None => true,
        }
    }

    /// The state after `shape` was registered under `name`. An unknown name
    /// gets a new position at the end; a placeholder is replaced where it
    /// stands; the same shape again changes nothing.
    pub open spec fn registered(
        self,
        name: Seq<char>,
        shape: ShapeView,
        meta: Seq<(Seq<char>, Seq<char>)>,
    ) -> StateView {
        match self.index_of(name) {
            Some(i) => if self.types[i] == shape || !(self.types[i] is Incomplete) {
                self
            } else {
                StateView {
                    types: self.types.update(i, shape),
                    metadatas: self.metadatas.update(i, meta),
                    ..self
                }
            },
            None => self.appended(name, shape, meta),
        }
    }

    /// The state after `name` was proposed as the root: the first proposal
    /// stands.
    pub open spec fn with_root(self, name: Seq<char>) -> StateView {
        if self.root_type is Some {
            self
        } else {
            StateView { root_type: Some(name), ..self }
        }
    }

    pub open spec fn with_include(self, file: Seq<char>) -> StateView {
        StateView { include_files: with_file(self.include_files, file), ..self }
    }

    pub open spec fn with_src_include(self, file: Seq<char>) -> StateView {
        StateView { src_include_files: with_file(self.src_include_files, file), ..self }
    }
}

/// A shape that refers below one bound refers below every larger one.
pub proof fn lemma_refers_below_grows(shape: ShapeView, bound: int, larger: int)
    requires
        shape.refers_below(bound),
        bound <= larger,
    ensures
        shape.refers_below(larger),
{
}

impl StateView {
    /// Appending under a name that is not known keeps the registry
    /// consistent and moves nothing.
    pub proof fn lemma_appended(
        self,
        name: Seq<char>,
        shape: ShapeView,
        meta: Seq<(Seq<char>, Seq<char>)>,
    )
        requires
            self.wf_registry(),
            self.types.len() < usize::MAX,
            self.index_of(name) is None,
            shape.wf(),
            shape.refers_below(self.types.len() as int + 1),
        ensures
            self.appended(name, shape, meta).wf_registry(),
            self.appended(name, shape, meta).index_of(name) == Some(self.names.len() as int),
            forall|other: Seq<char>|
                self.index_of(other) is Some ==> self.appended(name, shape, meta).index_of(other)
                    == self.index_of(other),
    {
        let after = self.appended(name, shape, meta);
        lemma_position(self.names, name);
        assert forall|i: int, j: int|
            0 <= i < after.names.len() && 0 <= j < after.names.len() && i != j implies after.names[i]
            != after.names[j] by {}
        assert forall|i: int| 0 <= i < after.types.len() implies (#[trigger] after.types[i]).wf()
            && after.types[i].refers_below(after.types.len() as int) by {
            if i < self.types.len() {
                assert(after.types[i] == self.types[i]);
                lemma_refers_below_grows(
                    self.types[i],
                    self.types.len() as int,
                    after.types.len() as int,
                );
            }
        }
        lemma_position_push(self.names, name, name);
        assert forall|other: Seq<char>| self.index_of(other) is Some implies after.index_of(other)
            == self.index_of(other) by {
            lemma_position_push(self.names, name, other);
        }
    }

    /// Registering an accepted shape keeps the registry consistent, keeps
    /// every known name at its position and puts the shape at the position
    /// that the name resolves to.
    pub proof fn lemma_registered(
        self,
        name: Seq<char>,
        shape: ShapeView,
        meta: Seq<(Seq<char>, Seq<char>)>,
    )
        requires
            self.wf_registry(),
            self.registered(name, shape, meta).types.len() <= usize::MAX,
            self.accepts(name, shape),
            shape.wf(),
            shape.refers_below(self.types.len() as int),
        ensures
            self.registered(name, shape, meta).wf_registry(),
            self.registered(name, shape, meta).index_of(name) == Some(self.resolved_index(name)),
            self.registered(name, shape, meta).types[self.resolved_index(name)] == shape,
            forall|other: Seq<char>|
                self.index_of(other) is Some ==> self.registered(name, shape, meta).index_of(other)
                    == self.index_of(other),
            self.types.len() <= self.registered(name, shape, meta).types.len(),
    {
        lemma_position(self.names, name);
        match self.index_of(name) {
            Some(i) => {},
            None => {
                lemma_refers_below_grows(shape, self.types.len() as int, self.types.len() as int + 1);
                self.lemma_appended(name, shape, meta);
            },
        }
    }

    /// A reference keeps the registry consistent, keeps every known name
    /// at its position, and the name referred to is known afterwards.
    pub proof fn lemma_with_incomplete(self, name: Seq<char>)
        requires
            self.wf_registry(),
            self.with_incomplete(name).types.len() <= usize::MAX,
        ensures
            self.with_incomplete(name).wf_registry(),
            self.with_incomplete(name).index_of(name) == Some(self.resolved_index(name)),
            0 <= self.resolved_index(name) < self.with_incomplete(name).types.len(),
            forall|other: Seq<char>|
                self.index_of(other) is Some ==> self.with_incomplete(name).index_of(other)
                    == self.index_of(other),
            self.types.len() <= self.with_incomplete(name).types.len(),
    {
        lemma_position(self.names, name);
        if self.index_of(name) is None {
            self.lemma_appended(name, ShapeView::Incomplete, Seq::empty());
        }
    }
}

impl StateView {
    /// The root stays registered through a step that keeps every known
    /// name at its position and changes the root, if at all, to `name`,
    /// which is known after the step or is still to be registered.
    pub proof fn lemma_root_kept(self, after: StateView, name: Seq<char>)
        requires
            self.root_registered() || self.root_type == Some(name),
            after.root_type == self.root_type || after.root_type == Some(name),
            forall|other: Seq<char>|
                self.index_of(other) is Some ==> after.index_of(other) == self.index_of(other),
        ensures
            after.root_registered() || after.root_type == Some(name),
            after.index_of(name) is Some ==> after.root_registered(),
    {
        match self.root_type {
            Some(r) => {
                assert(self.index_of(r) is Some ==> after.index_of(r) == self.index_of(r));
            },
            None => {},
        }
    }
}

/// Puts `file` in its place in an ascending list, unless it is there
/// already, and says whether it was put in.
fn insert_file(files: &mut Vec<String>, file: &str) -> (added: bool)
    requires
        ascending(views(old(files)@)),
    ensures
        views(final(files)@) == with_file(views(old(files)@), file@),
        added == !views(old(files)@).contains(file@),
{
    let ghost before = views(files@);
    let mut i: usize = files.len();
    let mut placed = false;
    assert(before.take(i as int) =~= before);
    assert(before + before.skip(i as int) =~= before);
    while i > 0 && !placed
        invariant
            *files == *old(files),
            before == views(files@),
            i <= files@.len(),
            placed ==> i > 0 && text_lt(before[i - 1], file@),
            with_file(before, file@) == with_file(before.take(i as int), file@) + before.skip(
                i as int,
            ),
            forall|k: int| i <= k < before.len() ==> before[k] != file@,
        decreases
                if placed {
                    0
                } else {
                    i + 1
                },
    {
        let current = files[i - 1].as_str();
        assert(before[i - 1] == current@);
        assert(before.take(i as int).last() == before[i - 1]);
        if same_text(current, file) {
            assert(before.take(i as int) + before.skip(i as int) =~= before);
            assert(before.contains(file@));
            return false;
        }
        if text_less(current, file) {
            placed = true;
        } else {
            assert(before.take(i as int).drop_last() =~= before.take(i - 1));
            assert(with_file(before.take(i - 1), file@).push(before[i - 1]) + before.skip(
                i as int,
            ) =~= with_file(before.take(i - 1), file@) + before.skip(i - 1));
            i -= 1;
        }
    }
    proof {
        if i > 0 {
            assert(before.take(i as int).last() == before[i - 1]);
            assert(text_lt(before[i - 1], file@));
            assert(before.take(i as int).push(file@) + before.skip(i as int) =~= before.insert(
                i as int,
                file@,
            ));
            assert forall|k: int| 0 <= k < i implies before[k] != file@ by {
                if k < i - 1 {
                    crate::text::lemma_text_lt_transitive(before[k], before[i - 1], file@);
                }
                crate::text::lemma_text_lt_irreflexive(file@);
            }
        } else {
            assert(before.take(0) =~= Seq::<Seq<char>>::empty());
            assert(seq![file@] + before.skip(0) =~= before.insert(0, file@));
        }
    }
    files.insert(i, file.to_owned());
    assert(views(files@) =~= before.insert(i as int, file@));
    true
}

impl Default for CppState {
    fn default() -> (r: CppState)
        ensures
            r@ == StateView::initial(),
            r@.wf(),
    {
        let r = CppState {
            include_files: Vec::new(),
            src_include_files: Vec::new(),
            metadatas: Vec::new(),
            names: Vec::new(),
            cpp_types: Vec::new(),
            root_type: None,
            needs: HelperNeeds {
                enum_index: false,
                value_index: false,
                array: false,
                map: false,
                set: false,
                raw_value: false,
                nullable: false,
            },
        };
        assert(r@.include_files =~= Seq::empty());
        assert(r@.src_include_files =~= Seq::empty());
        assert(r@.metadatas =~= Seq::empty());
        assert(r@.names =~= Seq::empty());
        assert(r@.types =~= Seq::empty());
        r
    }
}

impl CppState {
    pub fn get_index_from_name(&self, name: &str) -> (r: Option<usize>)
        ensures
            match r {
                Some(i) => self@.index_of(name@) == Some(i as int),
                None => self@.index_of(name@) is None,
            },
    {
        let mut i: usize = 0;
        while i < self.names.len()
            invariant
                i <= self.names@.len(),
                position(views(self.names@).take(i as int), name@) is None,
            decreases self.names@.len() - i,
        {
            assert(views(self.names@).take(i + 1).drop_last() =~= views(self.names@).take(
                i as int,
            ));
            if same_text(self.names[i].as_str(), name) {
                proof {
                    let names = views(self.names@);
                    assert(names.take(i + 1).last() == name@);
                    lemma_position_extends(names, i + 1, name@);
                }
                return Some(i);
            }
            i += 1;
        }
        assert(views(self.names@).take(i as int) =~= views(self.names@));
        None
    }

    proof fn lemma_len_fits(&self)
        ensures
            self@.types.len() <= usize::MAX,
    {
        assert(self.cpp_types.len() == self.cpp_types@.len());
    }

    /// The number of positions of the registry.
    pub fn len(&self) -> (r: usize)
        ensures
            r == self@.types.len(),
    {
        self.cpp_types.len()
    }

    fn add_cpp_type(&mut self, name: &str, cpp_type: CppTypes, meta: Metadata) -> (r: (
        String,
        usize,
    ))
        requires
            old(self)@.names.len() == old(self)@.types.len(),
        ensures
            final(self)@ == old(self)@.appended(name@, cpp_type@, meta@),
            r.0@ == name@,
            r.1 == old(self)@.names.len(),
    {
        let idx = self.cpp_types.len();
        self.names.push(name.to_owned());
        self.cpp_types.push(cpp_type);
        self.metadatas.push(meta);
        assert(self@.names =~= old(self)@.names.push(name@));
        assert(self@.types =~= old(self)@.types.push(cpp_type@));
        assert(self@.metadatas =~= old(self)@.metadatas.push(meta@));
        (name.to_owned(), idx)
    }

    fn replace_incomplete(&mut self, idx: usize, cpp_type: CppTypes, meta: Metadata)
        requires
            idx < old(self)@.types.len(),
            old(self)@.types.len() == old(self)@.metadatas.len(),
            old(self)@.types[idx as int] == cpp_type@ || old(self)@.types[idx as int] is Incomplete,
        ensures
            final(self)@ == if old(self)@.types[idx as int] == cpp_type@ {
                old(self)@
            } else {
                StateView {
                    types: old(self)@.types.update(idx as int, cpp_type@),
                    metadatas: old(self)@.metadatas.update(idx as int, meta@),
                    ..old(self)@
                }
            },
    {
        assert(old(self)@.types[idx as int] == self.cpp_types@[idx as int]@);
        if !self.cpp_types[idx].same(&cpp_type) {
            self.cpp_types.set(idx, cpp_type);
            self.metadatas.set(idx, meta);
            assert(self@.types =~= old(self)@.types.update(idx as int, cpp_type@));
            assert(self@.metadatas =~= old(self)@.metadatas.update(idx as int, meta@));
        }
    }

    /// Whether `cpp_type` may be registered under `name`.
    pub fn accepts(&self, name: &str, cpp_type: &CppTypes) -> (r: bool)
        requires
            self@.wf_registry(),
        ensures
            r == self@.accepts(name@, cpp_type@),
    {
        match self.get_index_from_name(name) {
            Some(i) => {
                proof {
                    lemma_position(self@.names, name@);
                }
                assert(self@.types[i as int] == self.cpp_types@[i as int]@);
                match &self.cpp_types[i] {
                    CppTypes::Incomplete => true,
                    other => other.same(cpp_type),
                }
            },
            None => true,
        }
    }

    /// Registers `cpp_type` under `name` and gives the name back with its
    /// position. An unknown name gets the next position; a placeholder is
    /// replaced where it stands, with its annotations; the same shape again
    /// changes nothing. Registering another shape under a defined name is
    /// outside the contract.
    pub fn add_or_replace_cpp_type(&mut self, name: &str, cpp_type: CppTypes, meta: Metadata) -> (r:
        (String, usize))
        requires
            old(self)@.wf_registry(),
            old(self)@.accepts(name@, cpp_type@),
            cpp_type@.wf(),
            cpp_type@.refers_below(old(self)@.types.len() as int),
        ensures
            final(self)@ == old(self)@.registered(name@, cpp_type@, meta@),
            final(self)@.wf_registry(),
            old(self)@.wf() ==> final(self)@.wf(),
            r.0@ == name@,
            r.1 == old(self)@.resolved_index(name@),
            final(self)@.index_of(name@) == Some(r.1 as int),
            final(self)@.types[r.1 as int] == cpp_type@,
    {
        proof {
            lemma_position(self@.names, name@);
        }
        let r = match self.get_index_from_name(name) {
            Some(i) => {
                self.replace_incomplete(i, cpp_type, meta);
                (name.to_owned(), i)
            },
            None => self.add_cpp_type(name, cpp_type, meta),
        };
        proof {
            self.lemma_len_fits();
            old(self)@.lemma_registered(name@, cpp_type@, meta@);
            if old(self)@.wf() {
                old(self)@.lemma_root_kept(self@, name@);
            }
        }
        r
    }

    /// Resolves a reference to `name` and gives the name back with its
    /// position. A name that is not known yet gets a placeholder at the
    /// next position.
    pub fn add_incomplete(&mut self, name: &str) -> (r: (String, usize))
        requires
            old(self)@.wf_registry(),
        ensures
            final(self)@ == old(self)@.with_incomplete(name@),
            final(self)@.wf_registry(),
            old(self)@.wf() ==> final(self)@.wf(),
            r.0@ == name@,
            r.1 == old(self)@.resolved_index(name@),
            final(self)@.index_of(name@) == Some(r.1 as int),
            r.1 < final(self)@.types.len(),
    {
        let r = match self.get_index_from_name(name) {
            Some(i) => (name.to_owned(), i),
            None => self.add_cpp_type(name, CppTypes::Incomplete, Metadata::default()),
        };
        proof {
            self.lemma_len_fits();
            old(self)@.lemma_with_incomplete(name@);
            if old(self)@.wf() {
                old(self)@.lemma_root_kept(self@, name@);
            }
        }
        r
    }

    /// Records a header that the generated header file needs, and says
    /// whether it was new.
    pub fn add_include_file(&mut self, file: &str) -> (added: bool)
        requires
            old(self)@.wf_registry(),
        ensures
            final(self)@ == old(self)@.with_include(file@),
            final(self)@.wf_registry(),
            old(self)@.wf() ==> final(self)@.wf(),
            added == !old(self)@.include_files.contains(file@),
    {
        proof {
            lemma_with_file(self@.include_files, file@);
        }
        insert_file(&mut self.include_files, file)
    }

    /// Records a header that only the generated source file needs, and
    /// says whether it was new.
    pub fn add_src_include_file(&mut self, file: &str) -> (added: bool)
        requires
            old(self)@.wf_registry(),
        ensures
            final(self)@ == old(self)@.with_src_include(file@),
            final(self)@.wf_registry(),
            old(self)@.wf() ==> final(self)@.wf(),
            added == !old(self)@.src_include_files.contains(file@),
    {
        proof {
            lemma_with_file(self@.src_include_files, file@);
        }
        insert_file(&mut self.src_include_files, file)
    }

    /// The shape at position `idx`, if the registry has that position.
    pub fn get_type(&self, idx: TypeIndex) -> (r: Option<&CppTypes>)
        ensures
            match r {
                Some(shape) => idx < self@.types.len() && shape@ == self@.types[idx as int],
                None => idx >= self@.types.len(),
            },
    {
        if idx < self.cpp_types.len() {
            assert(self@.types[idx as int] == self.cpp_types@[idx as int]@);
            Some(&self.cpp_types[idx])
        } else {
            None
        }
    }

    /// The name of the root, once one was chosen.
    pub fn get_root_name(&self) -> (r: Option<&str>)
        ensures
            match r {
                Some(name) => self@.root_type == Some(name@),
                None => self@.root_type is None,
            },
    {
        match &self.root_type {
            Some(name) => Some(name.as_str()),
            None => None,
        }
    }

    /// Proposes `name` as the root. Only the first proposal is kept.
    pub(crate) fn set_root_type(&mut self, name: &str)
        ensures
            final(self)@ == old(self)@.with_root(name@),
    {
        match self.root_type {
            Some(_) => {},
            None => {
                self.root_type = Some(name.to_owned());
            },
        }
    }
}

} // verus!
