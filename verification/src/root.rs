use vstd::prelude::*;

use serde_json::Value;

use crate::fragment::{Child, ChildDiff, Fragment, FragmentDiff, FragmentDiffView};
use crate::statics::ComponentStatics;

verus! {

/// A component: its children, its statics and its root flag.
#[derive(Debug, PartialEq)]
pub struct Component {
    pub children: Vec<(String, Child)>,
    pub statics: ComponentStatics,
    pub is_root: Option<i8>,
}

/// An update to a component: a full replacement, or a diff of its
/// children.
#[derive(Debug, PartialEq)]
pub enum ComponentDiff {
    ReplaceCurrent {
        children: Vec<(String, Child)>,
        statics: ComponentStatics,
        new_render: Option<bool>,
        is_root: Option<i8>,
    },
    UpdateRegular { children: Vec<(String, ChildDiff)>, is_root: Option<i8> },
}

/// A complete interpolation tree and its components.
#[derive(Debug, PartialEq)]
pub struct Root {
    pub new_render: Option<bool>,
    pub fragment: Fragment,
    pub components: Vec<(String, Component)>,
}

/// The diff that comes across the wire to update a [`Root`].
#[derive(Debug, PartialEq)]
pub struct RootDiff {
    pub new_render: Option<bool>,
    pub fragment: FragmentDiff,
    pub components: Vec<(String, ComponentDiff)>,
}

/// The event that a diff carries: that of a comprehension or regular
/// update; a keyed comprehension's event is not reported.
pub open spec fn diff_event(d: FragmentDiffView) -> Option<Value> {
    match d {
        FragmentDiffView::UpdateComprehension { event, .. } => event,
        FragmentDiffView::UpdateRegular { event, .. } => event,
        FragmentDiffView::UpdateKeyedComprehension { .. } => None,
    }
}

impl RootDiff {
    /// The event payload that the diff carries, if any.
    pub fn event(&self) -> (r: Option<&Value>)
        ensures
            r is None <==> diff_event(self.fragment@) is None,
            r matches Some(v) ==> diff_event(self.fragment@) == Some(*v),
    {
        match &self.fragment {
            FragmentDiff::UpdateComprehension { event: Some(event), .. } => Some(event),
            FragmentDiff::UpdateRegular { event: Some(event), .. } => Some(event),
            _ => None,
        }
    }
}

} // verus!
