use vstd::prelude::*;

use serde_json::Value;

use crate::statics::{
    clone_strings, opt_statics_view, strings_view, templates_view, OneOrManyStrings,
    OneOrManyView, Statics, StaticsView, Templates, TemplatesView,
};
use crate::stream::{
    opt_stream_view, stream_update_view, Stream, StreamAttributeView, StreamUpdate, StreamView,
};

verus! {

// ---------------------------------------------------------------------------
// Full fragments
// ---------------------------------------------------------------------------

/// A child of a fragment: a nested fragment, a reference to a component, or
/// plain text.
#[derive(Debug, PartialEq)]
pub enum Child {
    Fragment(Fragment),
    ComponentID(i32),
    String(OneOrManyStrings),
}

/// An item of a keyed comprehension:
/// - moved from an old position and changed by a diff,
/// - moved from an old position unchanged,
/// - a new or fully replaced fragment.
#[derive(Debug, PartialEq)]
pub enum KeyedItem {
    MovedWithDiff(i32, Box<FragmentDiff>),
    MovedFrom(i32),
    Fragment(Box<Fragment>),
}

/// The items of a keyed comprehension, each under the decimal rendering of
/// its position, and the number of items (`kc` on the wire).
#[derive(Debug, PartialEq)]
pub struct KeyedItems {
    pub items: Vec<(String, KeyedItem)>,
    pub key_count: i32,
}

/// A complete interpolation tree.
#[derive(Debug, PartialEq)]
pub enum Fragment {
    Comprehension {
        dynamics: Vec<Vec<Child>>,
        statics: Option<Statics>,
        is_root: Option<i8>,
        templates: Templates,
        stream: Option<Stream>,
        new_render: Option<bool>,
    },
    /// Keyed comprehension: keyed items in place of rows of dynamics.
    KeyedComprehension {
        keyed: KeyedItems,
        statics: Option<Statics>,
        is_root: Option<i8>,
        templates: Templates,
        new_render: Option<bool>,
    },
    Regular {
        statics: Option<Statics>,
        is_root: Option<i8>,
        children: Vec<(String, Child)>,
        templates: Templates,
        new_render: Option<bool>,
    },
}

// ---------------------------------------------------------------------------
// Diffs
// ---------------------------------------------------------------------------

/// A child of a fragment diff.
#[derive(Debug, PartialEq)]
pub enum ChildDiff {
    Fragment(FragmentDiff),
    ComponentID(i32),
    String(OneOrManyStrings),
}

/// An item of a keyed comprehension diff.
#[derive(Debug, PartialEq)]
pub enum KeyedItemDiff {
    MovedWithDiff(i32, Box<FragmentDiff>),
    MovedFrom(i32),
    FragmentDiff(Box<FragmentDiff>),
}

/// The items of a keyed comprehension diff and their number.
#[derive(Debug, PartialEq)]
pub struct KeyedItemsDiff {
    pub items: Vec<(String, KeyedItemDiff)>,
    pub key_count: i32,
}

/// An update to an interpolation tree, as it comes over the wire.
#[derive(Debug, PartialEq)]
pub enum FragmentDiff {
    UpdateComprehension {
        dynamics: Vec<Vec<ChildDiff>>,
        templates: Templates,
        statics: Option<Statics>,
        is_root: Option<i8>,
        stream: Option<StreamUpdate>,
        event: Option<Value>,
    },
    /// Keyed comprehension diff.
    UpdateKeyedComprehension {
        keyed: KeyedItemsDiff,
        templates: Templates,
        statics: Option<Statics>,
        is_root: Option<i8>,
        event: Option<Value>,
    },
    UpdateRegular {
        children: Vec<(String, ChildDiff)>,
        templates: Templates,
        statics: Option<Statics>,
        is_root: Option<i8>,
        event: Option<Value>,
    },
}

// ---------------------------------------------------------------------------
// Abstract values
// ---------------------------------------------------------------------------

/// Abstract value of [`Child`].
pub enum ChildView {
    Fragment(FragmentView),
    ComponentID(i32),
    String(OneOrManyView),
}

/// Abstract value of [`KeyedItem`].
pub enum KeyedItemView {
    MovedWithDiff(i32, FragmentDiffView),
    MovedFrom(i32),
    Fragment(FragmentView),
}

/// Abstract value of [`KeyedItems`].
pub struct KeyedItemsView {
    pub items: Seq<(Seq<char>, KeyedItemView)>,
    pub key_count: i32,
}

/// Abstract value of [`Fragment`].
pub enum FragmentView {
    Comprehension {
        dynamics: Seq<Seq<ChildView>>,
        statics: Option<StaticsView>,
        is_root: Option<i8>,
        templates: TemplatesView,
        stream: Option<StreamView>,
        new_render: Option<bool>,
    },
    KeyedComprehension {
        keyed: KeyedItemsView,
        statics: Option<StaticsView>,
        is_root: Option<i8>,
        templates: TemplatesView,
        new_render: Option<bool>,
    },
    Regular {
        statics: Option<StaticsView>,
        is_root: Option<i8>,
        children: Seq<(Seq<char>, ChildView)>,
        templates: TemplatesView,
        new_render: Option<bool>,
    },
}

/// Abstract value of [`ChildDiff`].
pub enum ChildDiffView {
    Fragment(FragmentDiffView),
    ComponentID(i32),
    String(OneOrManyView),
}

/// Abstract value of [`KeyedItemDiff`].
pub enum KeyedItemDiffView {
    MovedWithDiff(i32, FragmentDiffView),
    MovedFrom(i32),
    FragmentDiff(FragmentDiffView),
}

/// Abstract value of [`KeyedItemsDiff`].
pub struct KeyedItemsDiffView {
    pub items: Seq<(Seq<char>, KeyedItemDiffView)>,
    pub key_count: i32,
}

/// Abstract value of [`FragmentDiff`].
pub enum FragmentDiffView {
    UpdateComprehension {
        dynamics: Seq<Seq<ChildDiffView>>,
        templates: TemplatesView,
        statics: Option<StaticsView>,
        is_root: Option<i8>,
        stream: Option<Seq<StreamAttributeView>>,
        event: Option<Value>,
    },
    UpdateKeyedComprehension {
        keyed: KeyedItemsDiffView,
        templates: TemplatesView,
        statics: Option<StaticsView>,
        is_root: Option<i8>,
        event: Option<Value>,
    },
    UpdateRegular {
        children: Seq<(Seq<char>, ChildDiffView)>,
        templates: TemplatesView,
        statics: Option<StaticsView>,
        is_root: Option<i8>,
        event: Option<Value>,
    },
}

/// Abstract value of a diff.
pub open spec fn diff_view(d: FragmentDiff) -> FragmentDiffView
    decreases d,
{
    match d {
        FragmentDiff::UpdateComprehension { dynamics, templates, statics, is_root, stream, event } =>
            FragmentDiffView::UpdateComprehension {
            dynamics: rows_diff_view(dynamics@),
            templates: templates_view(templates),
            statics: opt_statics_view(statics),
            is_root,
            stream: match stream {
                Some(u) => Some(stream_update_view(u@)),
                None => None,
            },
            event,
        },
        FragmentDiff::UpdateKeyedComprehension { keyed, templates, statics, is_root, event } =>
            FragmentDiffView::UpdateKeyedComprehension {
            keyed: KeyedItemsDiffView {
                items: keyed_items_diff_view(keyed.items@),
                key_count: keyed.key_count,
            },
            templates: templates_view(templates),
            statics: opt_statics_view(statics),
            is_root,
            event,
        },
        FragmentDiff::UpdateRegular { children, templates, statics, is_root, event } =>
            FragmentDiffView::UpdateRegular {
            children: children_diff_view(children@),
            templates: templates_view(templates),
            statics: opt_statics_view(statics),
            is_root,
            event,
        },
    }
}

/// Abstract value of a child diff.
pub open spec fn child_diff_view(c: ChildDiff) -> ChildDiffView
    decreases c,
{
    match c {
        ChildDiff::Fragment(d) => ChildDiffView::Fragment(diff_view(d)),
        ChildDiff::ComponentID(id) => ChildDiffView::ComponentID(id),
        ChildDiff::String(s) => ChildDiffView::String(s@),
    }
}

/// Abstract value of a keyed item diff.
pub open spec fn keyed_item_diff_view(k: KeyedItemDiff) -> KeyedItemDiffView
    decreases k,
{
    match k {
        KeyedItemDiff::MovedWithDiff(p, d) => KeyedItemDiffView::MovedWithDiff(p, diff_view(*d)),
        KeyedItemDiff::MovedFrom(p) => KeyedItemDiffView::MovedFrom(p),
        KeyedItemDiff::FragmentDiff(d) => KeyedItemDiffView::FragmentDiff(diff_view(*d)),
    }
}

/// Abstract value of the children of a diff.
pub open spec fn children_diff_view(cs: Seq<(String, ChildDiff)>) -> Seq<(Seq<char>, ChildDiffView)>
    decreases cs,
{
    Seq::new(
        cs.len(),
        |i: int|
            (
                cs[i].0@,
                if 0 <= i < cs.len() {
                    child_diff_view(cs[i].1)
                } else {
                    ChildDiffView::ComponentID(0)
                },
            ),
    )
}

/// Abstract value of one row of dynamics of a diff.
pub open spec fn row_diff_view(r: Seq<ChildDiff>) -> Seq<ChildDiffView>
    decreases r,
{
    Seq::new(
        r.len(),
        |i: int|
            if 0 <= i < r.len() {
                child_diff_view(r[i])
            } else {
                ChildDiffView::ComponentID(0)
            },
    )
}

/// Abstract value of the rows of dynamics of a diff.
pub open spec fn rows_diff_view(d: Seq<Vec<ChildDiff>>) -> Seq<Seq<ChildDiffView>>
    decreases d,
{
    Seq::new(
        d.len(),
        |i: int|
            if 0 <= i < d.len() {
                row_diff_view(d[i]@)
            } else {
                Seq::empty()
            },
    )
}

/// Abstract value of the items of a keyed comprehension diff.
pub open spec fn keyed_items_diff_view(items: Seq<(String, KeyedItemDiff)>) -> Seq<
    (Seq<char>, KeyedItemDiffView),
>
    decreases items,
{
    Seq::new(
        items.len(),
        |i: int|
            (
                items[i].0@,
                if 0 <= i < items.len() {
                    keyed_item_diff_view(items[i].1)
                } else {
                    KeyedItemDiffView::MovedFrom(0)
                },
            ),
    )
}

/// Abstract value of a fragment.
pub open spec fn fragment_view(f: Fragment) -> FragmentView
    decreases f,
{
    match f {
        Fragment::Comprehension { dynamics, statics, is_root, templates, stream, new_render } =>
            FragmentView::Comprehension {
            dynamics: rows_view(dynamics@),
            statics: opt_statics_view(statics),
            is_root,
            templates: templates_view(templates),
            stream: opt_stream_view(stream),
            new_render,
        },
        Fragment::KeyedComprehension { keyed, statics, is_root, templates, new_render } =>
            FragmentView::KeyedComprehension {
            keyed: KeyedItemsView { items: keyed_items_view(keyed.items@), key_count: keyed.key_count },
            statics: opt_statics_view(statics),
            is_root,
            templates: templates_view(templates),
            new_render,
        },
        Fragment::Regular { statics, is_root, children, templates, new_render } =>
            FragmentView::Regular {
            statics: opt_statics_view(statics),
            is_root,
            children: children_view(children@),
            templates: templates_view(templates),
            new_render,
        },
    }
}

/// Abstract value of a child.
pub open spec fn child_view(c: Child) -> ChildView
    decreases c,
{
    match c {
        Child::Fragment(f) => ChildView::Fragment(fragment_view(f)),
        Child::ComponentID(id) => ChildView::ComponentID(id),
        Child::String(s) => ChildView::String(s@),
    }
}

/// Abstract value of a keyed item.
pub open spec fn keyed_item_view(k: KeyedItem) -> KeyedItemView
    decreases k,
{
    match k {
        KeyedItem::MovedWithDiff(p, d) => KeyedItemView::MovedWithDiff(p, diff_view(*d)),
        KeyedItem::MovedFrom(p) => KeyedItemView::MovedFrom(p),
        KeyedItem::Fragment(f) => KeyedItemView::Fragment(fragment_view(*f)),
    }
}

/// Abstract value of the children of a fragment.
pub open spec fn children_view(cs: Seq<(String, Child)>) -> Seq<(Seq<char>, ChildView)>
    decreases cs,
{
    Seq::new(
        cs.len(),
        |i: int|
            (
                cs[i].0@,
                if 0 <= i < cs.len() {
                    child_view(cs[i].1)
                } else {
                    ChildView::ComponentID(0)
                },
            ),
    )
}

/// Abstract value of one row of dynamics.
pub open spec fn row_view(r: Seq<Child>) -> Seq<ChildView>
    decreases r,
{
    Seq::new(
        r.len(),
        |i: int|
            if 0 <= i < r.len() {
                child_view(r[i])
            } else {
                ChildView::ComponentID(0)
            },
    )
}

/// Abstract value of the rows of dynamics.
pub open spec fn rows_view(d: Seq<Vec<Child>>) -> Seq<Seq<ChildView>>
    decreases d,
{
    Seq::new(
        d.len(),
        |i: int|
            if 0 <= i < d.len() {
                row_view(d[i]@)
            } else {
                Seq::empty()
            },
    )
}

/// Abstract value of the items of a keyed comprehension.
pub open spec fn keyed_items_view(items: Seq<(String, KeyedItem)>) -> Seq<(Seq<char>, KeyedItemView)>
    decreases items,
{
    Seq::new(
        items.len(),
        |i: int|
            (
                items[i].0@,
                if 0 <= i < items.len() {
                    keyed_item_view(items[i].1)
                } else {
                    KeyedItemView::MovedFrom(0)
                },
            ),
    )
}

impl View for Fragment {
    type V = FragmentView;

    open spec fn view(&self) -> FragmentView {
        fragment_view(*self)
    }
}

impl View for FragmentDiff {
    type V = FragmentDiffView;

    open spec fn view(&self) -> FragmentDiffView {
        diff_view(*self)
    }
}

impl View for Child {
    type V = ChildView;

    open spec fn view(&self) -> ChildView {
        child_view(*self)
    }
}

impl View for ChildDiff {
    type V = ChildDiffView;

    open spec fn view(&self) -> ChildDiffView {
        child_diff_view(*self)
    }
}

impl View for KeyedItem {
    type V = KeyedItemView;

    open spec fn view(&self) -> KeyedItemView {
        keyed_item_view(*self)
    }
}

impl View for KeyedItemDiff {
    type V = KeyedItemDiffView;

    open spec fn view(&self) -> KeyedItemDiffView {
        keyed_item_diff_view(*self)
    }
}

impl View for KeyedItems {
    type V = KeyedItemsView;

    open spec fn view(&self) -> KeyedItemsView {
        KeyedItemsView { items: keyed_items_view(self.items@), key_count: self.key_count }
    }
}

impl View for KeyedItemsDiff {
    type V = KeyedItemsDiffView;

    open spec fn view(&self) -> KeyedItemsDiffView {
        KeyedItemsDiffView { items: keyed_items_diff_view(self.items@), key_count: self.key_count }
    }
}

// ---------------------------------------------------------------------------
// Keyed items as read from the wire
// ---------------------------------------------------------------------------

/// The key count of keyed items: the `kc` field when present, else the
/// number of items (as a 32-bit integer).
pub open spec fn key_count_or_len(kc: Option<i32>, n: nat) -> i32 {
    match kc {
        Some(k) => k,
        None => n as i32,
    }
}

impl KeyedItems {
    /// Keyed items from the entries of a `k` map and its optional `kc`
    /// field.
    pub fn from_entries(items: Vec<(String, KeyedItem)>, key_count: Option<i32>) -> (r: KeyedItems)
        ensures
            r.items@ == items@,
            r.key_count == key_count_or_len(key_count, items@.len()),
    {
        let key_count = match key_count {
            Some(k) => k,
            None => items.len() as i32,
        };
        KeyedItems { items, key_count }
    }
}

impl KeyedItemsDiff {
    /// Keyed item diffs from the entries of a `k` map and its optional `kc`
    /// field.
    pub fn from_entries(items: Vec<(String, KeyedItemDiff)>, key_count: Option<i32>) -> (r:
        KeyedItemsDiff)
        ensures
            r.items@ == items@,
            r.key_count == key_count_or_len(key_count, items@.len()),
    {
        let key_count = match key_count {
            Some(k) => k,
            None => items.len() as i32,
        };
        KeyedItemsDiff { items, key_count }
    }
}

// ---------------------------------------------------------------------------
// Queries
// ---------------------------------------------------------------------------

/// The statics of a fragment, whatever its kind.
pub open spec fn fragment_statics(f: FragmentView) -> Option<StaticsView> {
    match f {
        FragmentView::Comprehension { statics, .. } => statics,
        FragmentView::KeyedComprehension { statics, .. } => statics,
        FragmentView::Regular { statics, .. } => statics,
    }
}

/// The list of statics of a child: present when the child is a fragment
/// whose statics are a list of strings.
pub open spec fn child_statics(c: ChildView) -> Option<Seq<Seq<char>>> {
    match c {
        ChildView::Fragment(f) => match fragment_statics(f) {
            Some(StaticsView::Statics(s)) => Some(s),
            _ => None,
        },
        _ => None,
    }
}

impl Child {
    /// A copy of the statics of this child, when it is a fragment whose
    /// statics are a list of strings.
    pub fn statics(&self) -> (r: Option<Vec<String>>)
        ensures
            r is Some <==> child_statics(self@) is Some,
            r matches Some(v) ==> child_statics(self@) == Some(strings_view(v@)),
    {
        match self {
            Child::Fragment(Fragment::Regular { statics: Some(Statics::Statics(statics)), .. }) =>
                Some(clone_strings(statics)),
            Child::Fragment(
                Fragment::Comprehension { statics: Some(Statics::Statics(statics)), .. },
            ) => Some(clone_strings(statics)),
            Child::Fragment(
                Fragment::KeyedComprehension { statics: Some(Statics::Statics(statics)), .. },
            ) => Some(clone_strings(statics)),
            _ => None,
        }
    }
}

} // verus!
