//! The C++ target: a configuration and the name of the schema's root.

use vstd::prelude::*;
use crate::props::{CppProps, PropsView};

verus! {

pub struct Target {
    props: CppProps,
    root_name: String,
}

pub struct TargetView {
    pub props: PropsView,
    pub root_name: Seq<char>,
}

impl View for Target {
    type V = TargetView;

    closed spec fn view(&self) -> TargetView {
        TargetView { props: self.props@, root_name: self.root_name@ }
    }
}

impl TargetView {
    /// The one file that the generated source goes to.
    pub open spec fn file_name_text(self) -> Seq<char> {
        self.root_name + ".cpp"@
    }
}

impl Target {
    pub fn new(props: CppProps, root_name: String) -> (r: Target)
        ensures
            r@ == (TargetView { props: props@, root_name: root_name@ }),
    {
        Target { props, root_name }
    }

    /// The configuration that the target renders under.
    pub fn props(&self) -> (r: &CppProps)
        ensures
            r@ == self@.props,
    {
        &self.props
    }

    /// The name of the one file that the generated source goes to.
    pub fn file_name(&self) -> (r: String)
        ensures
            r@ == self@.file_name_text(),
    {
        let mut r = String::new();
        r.append(self.root_name.as_str());
        r.append(".cpp");
        assert(r@ =~= self@.file_name_text());
        r
    }
}

} // verus!
