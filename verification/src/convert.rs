use vstd::prelude::*;

use crate::error::{MergeError, StreamConversionError};
use crate::fragment::{
    child_diff_view, child_view, children_diff_view, children_view, keyed_item_diff_view,
    keyed_item_view, keyed_items_diff_view, keyed_items_view, row_diff_view, row_view,
    rows_diff_view, rows_view, Child, ChildDiff, ChildDiffView, ChildView, Fragment,
    FragmentDiff, FragmentDiffView, FragmentView, KeyedItem, KeyedItemDiff, KeyedItemDiffView,
    KeyedItemView, KeyedItems, KeyedItemsView,
};
use crate::stream::{stream_of_update, update_stream_id, Stream};

verus! {

// ---------------------------------------------------------------------------
// What the conversion of a diff into a fragment means
// ---------------------------------------------------------------------------

/// Whether a child diff can be turned into a child.
pub open spec fn child_convertible(c: ChildDiffView) -> bool
    decreases c,
{
    match c {
        ChildDiffView::Fragment(d) => diff_convertible(d),
        _ => true,
    }
}

/// Whether a keyed item diff can be turned into a keyed item.
pub open spec fn keyed_item_convertible(k: KeyedItemDiffView) -> bool
    decreases k,
{
    match k {
        KeyedItemDiffView::FragmentDiff(d) => diff_convertible(d),
        _ => true,
    }
}

/// Whether a diff can be turned into a full fragment: every stream update
/// in it, outside keyed items that stay diffs, has a stream id.
pub open spec fn diff_convertible(d: FragmentDiffView) -> bool
    decreases d,
{
    match d {
        FragmentDiffView::UpdateComprehension { dynamics, stream, .. } => {
            &&& forall|i: int, j: int|
                0 <= i < dynamics.len() && 0 <= j < dynamics[i].len() ==> child_convertible(
                    #[trigger] dynamics[i][j],
                )
            &&& stream matches Some(u) ==> update_stream_id(u) is Some
        },
        FragmentDiffView::UpdateKeyedComprehension { keyed, .. } => forall|i: int|
            0 <= i < keyed.items.len() ==> keyed_item_convertible(#[trigger] keyed.items[i].1),
        FragmentDiffView::UpdateRegular { children, .. } => forall|i: int|
            0 <= i < children.len() ==> child_convertible(#[trigger] children[i].1),
    }
}

/// The child that a child diff describes.
pub open spec fn converted_child(c: ChildDiffView) -> ChildView
    decreases c,
{
    match c {
        ChildDiffView::Fragment(d) => ChildView::Fragment(converted_diff(d)),
        ChildDiffView::ComponentID(id) => ChildView::ComponentID(id),
        ChildDiffView::String(s) => ChildView::String(s),
    }
}

/// The keyed item that a keyed item diff describes: moves stay moves, and
/// a new item's diff becomes a fragment.
pub open spec fn converted_keyed_item(k: KeyedItemDiffView) -> KeyedItemView
    decreases k,
{
    match k {
        KeyedItemDiffView::MovedWithDiff(p, d) => KeyedItemView::MovedWithDiff(p, d),
        KeyedItemDiffView::MovedFrom(p) => KeyedItemView::MovedFrom(p),
        KeyedItemDiffView::FragmentDiff(d) => KeyedItemView::Fragment(converted_diff(d)),
    }
}

/// The fragment that a diff describes: the same kind of fragment with the
/// same statics, templates and root flag, every child converted, the
/// stream update turned into a stream, no event and no render flag.
pub open spec fn converted_diff(d: FragmentDiffView) -> FragmentView
    decreases d,
{
    match d {
        FragmentDiffView::UpdateComprehension { dynamics, templates, statics, is_root, stream, .. } =>
            FragmentView::Comprehension {
            dynamics: Seq::new(
                dynamics.len(),
                |i: int|
                    if 0 <= i < dynamics.len() {
                        Seq::new(
                            dynamics[i].len(),
                            |j: int|
                                if 0 <= j < dynamics[i].len() {
                                    converted_child(dynamics[i][j])
                                } else {
                                    ChildView::ComponentID(0)
                                },
                        )
                    } else {
                        Seq::empty()
                    },
            ),
            statics,
            is_root,
            templates,
            stream: match stream {
                Some(u) => Some(stream_of_update(u)),
                None => None,
            },
            new_render: None,
        },
        FragmentDiffView::UpdateKeyedComprehension { keyed, templates, statics, is_root, .. } =>
            FragmentView::KeyedComprehension {
            keyed: KeyedItemsView {
                items: Seq::new(
                    keyed.items.len(),
                    |i: int|
                        (
                            keyed.items[i].0,
                            if 0 <= i < keyed.items.len() {
                                converted_keyed_item(keyed.items[i].1)
                            } else {
                                KeyedItemView::MovedFrom(0)
                            },
                        ),
                ),
                key_count: keyed.key_count,
            },
            statics,
            is_root,
            templates,
            new_render: None,
        },
        FragmentDiffView::UpdateRegular { children, templates, statics, is_root, .. } =>
            FragmentView::Regular {
            statics,
            is_root,
            children: Seq::new(
                children.len(),
                |i: int|
                    (
                        children[i].0,
                        if 0 <= i < children.len() {
                            converted_child(children[i].1)
                        } else {
                            ChildView::ComponentID(0)
                        },
                    ),
            ),
            templates,
            new_render: None,
        },
    }
}

/// The error that a diff which cannot be converted gives.
pub open spec fn no_stream_id() -> MergeError {
    MergeError::Stream(StreamConversionError::NoStreamID)
}

// ---------------------------------------------------------------------------
// The conversion
// ---------------------------------------------------------------------------

impl Child {
    /// Turns a child diff into a child.
    pub fn try_from_diff(diff: ChildDiff) -> (r: Result<Child, MergeError>)
        ensures
            r is Ok <==> child_convertible(diff@),
            r matches Ok(c) ==> c@ == converted_child(diff@),
            r matches Err(e) ==> e == no_stream_id(),
        decreases diff,
    {
        match diff {
            ChildDiff::String(s) => Ok(Child::String(s)),
            ChildDiff::ComponentID(id) => Ok(Child::ComponentID(id)),
            ChildDiff::Fragment(d) => {
                let f = Fragment::try_from(d)?;
                Ok(Child::Fragment(f))
            },
        }
    }
}

fn convert_children(children: Vec<(String, ChildDiff)>) -> (r: Result<Vec<(String, Child)>, MergeError>)
    ensures
        r is Ok <==> forall|i: int|
            0 <= i < children@.len() ==> child_convertible(
                #[trigger] children_diff_view(children@)[i].1,
            ),
        r matches Ok(v) ==> children_view(v@) == Seq::new(
            children@.len(),
            |i: int|
                (
                    children_diff_view(children@)[i].0,
                    converted_child(children_diff_view(children@)[i].1),
                ),
        ),
        r matches Err(e) ==> e == no_stream_id(),
    decreases children,
{
    let ghost orig = children@;
    let ghost dv = children_diff_view(orig);
    let mut out: Vec<(String, Child)> = Vec::new();
    for entry in it: children
        invariant
            it.seq() == orig,
            dv == children_diff_view(orig),
            out@.len() == it.index(),
            forall|j: int| 0 <= j < it.index() ==> child_convertible(#[trigger] dv[j].1),
            forall|j: int|
                0 <= j < it.index() ==> (#[trigger] out@[j]).0@ == dv[j].0 && child_view(
                    out@[j].1,
                ) == converted_child(dv[j].1),
    {
        let ghost k = it.index() as int;
        assert(dv[k] == (orig[k].0@, child_diff_view(orig[k].1)));
        let (key, cd) = entry;
        match Child::try_from_diff(cd) {
            Ok(c) => {
                out.push((key, c));
            },
            Err(e) => {
                assert(!child_convertible(dv[k].1));
                return Err(e);
            },
        }
    }
    assert(children_view(out@) =~= Seq::new(
        orig.len(),
        |i: int| (dv[i].0, converted_child(dv[i].1)),
    ));
    Ok(out)
}

fn convert_row(row: Vec<ChildDiff>) -> (r: Result<Vec<Child>, MergeError>)
    ensures
        r is Ok <==> forall|j: int|
            0 <= j < row@.len() ==> child_convertible(#[trigger] row_diff_view(row@)[j]),
        r matches Ok(v) ==> row_view(v@) == Seq::new(
            row@.len(),
            |j: int| converted_child(row_diff_view(row@)[j]),
        ),
        r matches Err(e) ==> e == no_stream_id(),
    decreases row,
{
    let ghost orig = row@;
    let ghost dv = row_diff_view(orig);
    let mut out: Vec<Child> = Vec::new();
    for cd in it: row
        invariant
            it.seq() == orig,
            dv == row_diff_view(orig),
            out@.len() == it.index(),
            forall|j: int| 0 <= j < it.index() ==> child_convertible(#[trigger] dv[j]),
            forall|j: int|
                0 <= j < it.index() ==> child_view(#[trigger] out@[j]) == converted_child(dv[j]),
    {
        let ghost k = it.index() as int;
        assert(dv[k] == child_diff_view(orig[k]));
        let c = Child::try_from_diff(cd)?;
        out.push(c);
    }
    assert(row_view(out@) =~= Seq::new(orig.len(), |j: int| converted_child(dv[j])));
    Ok(out)
}

fn convert_rows(rows: Vec<Vec<ChildDiff>>) -> (r: Result<Vec<Vec<Child>>, MergeError>)
    ensures
        r is Ok <==> forall|i: int, j: int|
            0 <= i < rows@.len() && 0 <= j < rows_diff_view(rows@)[i].len() ==> child_convertible(
                #[trigger] rows_diff_view(rows@)[i][j],
            ),
        r matches Ok(v) ==> rows_view(v@) == Seq::new(
            rows@.len(),
            |i: int|
                Seq::new(
                    rows_diff_view(rows@)[i].len(),
                    |j: int| converted_child(rows_diff_view(rows@)[i][j]),
                ),
        ),
        r matches Err(e) ==> e == no_stream_id(),
    decreases rows,
{
    let ghost orig = rows@;
    let ghost dv = rows_diff_view(orig);
    let mut out: Vec<Vec<Child>> = Vec::new();
    for row in it: rows
        invariant
            it.seq() == orig,
            dv == rows_diff_view(orig),
            out@.len() == it.index(),
            forall|i: int, j: int|
                0 <= i < it.index() && 0 <= j < dv[i].len() ==> child_convertible(
                    #[trigger] dv[i][j],
                ),
            forall|i: int|
                0 <= i < it.index() ==> row_view((#[trigger] out@[i])@) == Seq::new(
                    dv[i].len(),
                    |j: int| converted_child(dv[i][j]),
                ),
    {
        let ghost k = it.index() as int;
        assert(dv[k] == row_diff_view(orig[k]@));
        let converted = convert_row(row);
        match converted {
            Ok(v) => {
                out.push(v);
            },
            Err(e) => {
                return Err(e);
            },
        }
    }
    assert(rows_view(out@) =~= Seq::new(
        orig.len(),
        |i: int| Seq::new(dv[i].len(), |j: int| converted_child(dv[i][j])),
    ));
    Ok(out)
}

/// Turns a keyed item diff into a keyed item: moves stay as they are, and
/// a new item's diff is converted into a fragment.
pub fn keyed_item_diff_to_keyed_item(diff: KeyedItemDiff) -> (r: Result<KeyedItem, MergeError>)
    ensures
        r is Ok <==> keyed_item_convertible(diff@),
        r matches Ok(k) ==> k@ == converted_keyed_item(diff@),
        r matches Err(e) ==> e == no_stream_id(),
    decreases diff,
{
    match diff {
        KeyedItemDiff::MovedFrom(pos) => Ok(KeyedItem::MovedFrom(pos)),
        KeyedItemDiff::MovedWithDiff(pos, d) => Ok(KeyedItem::MovedWithDiff(pos, d)),
        KeyedItemDiff::FragmentDiff(d) => {
            let f = Fragment::try_from(*d)?;
            Ok(KeyedItem::Fragment(Box::new(f)))
        },
    }
}

fn convert_keyed_items(items: Vec<(String, KeyedItemDiff)>) -> (r: Result<
    Vec<(String, KeyedItem)>,
    MergeError,
>)
    ensures
        r is Ok <==> forall|i: int|
            0 <= i < items@.len() ==> keyed_item_convertible(
                #[trigger] keyed_items_diff_view(items@)[i].1,
            ),
        r matches Ok(v) ==> keyed_items_view(v@) == Seq::new(
            items@.len(),
            |i: int|
                (
                    keyed_items_diff_view(items@)[i].0,
                    converted_keyed_item(keyed_items_diff_view(items@)[i].1),
                ),
        ),
        r matches Err(e) ==> e == no_stream_id(),
    decreases items,
{
    let ghost orig = items@;
    let ghost dv = keyed_items_diff_view(orig);
    let mut out: Vec<(String, KeyedItem)> = Vec::new();
    for entry in it: items
        invariant
            it.seq() == orig,
            dv == keyed_items_diff_view(orig),
            out@.len() == it.index(),
            forall|j: int| 0 <= j < it.index() ==> keyed_item_convertible(#[trigger] dv[j].1),
            forall|j: int|
                0 <= j < it.index() ==> (#[trigger] out@[j]).0@ == dv[j].0 && keyed_item_view(
                    out@[j].1,
                ) == converted_keyed_item(dv[j].1),
    {
        let ghost k = it.index() as int;
        assert(dv[k] == (orig[k].0@, keyed_item_diff_view(orig[k].1)));
        let (key, kd) = entry;
        match keyed_item_diff_to_keyed_item(kd) {
            Ok(item) => {
                out.push((key, item));
            },
            Err(e) => {
                assert(!keyed_item_convertible(dv[k].1));
                return Err(e);
            },
        }
    }
    assert(keyed_items_view(out@) =~= Seq::new(
        orig.len(),
        |i: int| (dv[i].0, converted_keyed_item(dv[i].1)),
    ));
    Ok(out)
}

impl Fragment {
    /// Turns a diff into the full fragment that it describes. It fails
    /// exactly when a stream update in the diff has no stream id.
    pub fn try_from(value: FragmentDiff) -> (r: Result<Fragment, MergeError>)
        ensures
            r is Ok <==> diff_convertible(value@),
            r matches Ok(f) ==> f@ == converted_diff(value@),
            r matches Err(e) ==> e == no_stream_id(),
        decreases value,
    {
        let ghost vv = value@;
        match value {
            FragmentDiff::UpdateRegular { children, templates, statics, is_root, .. } => {
                let new_children = convert_children(children)?;
                assert(children_view(new_children@) =~= converted_diff(vv)->Regular_children);
                let f = Fragment::Regular {
                    children: new_children,
                    statics,
                    is_root,
                    templates,
                    new_render: None,
                };
                Ok(f)
            },
            FragmentDiff::UpdateComprehension { dynamics, templates, statics, stream, is_root, .. } => {
                let ghost dv = rows_diff_view(dynamics@);
                let dynamics = convert_rows(dynamics)?;
                let ghost target = converted_diff(vv)->Comprehension_dynamics;
                assert(rows_view(dynamics@) =~= target) by {
                    assert forall|i: int| 0 <= i < dv.len() implies rows_view(dynamics@)[i] =~= target[i] by {}
                }
                let stream = match stream {
                    Some(update) => match Stream::from_update(update) {
                        Ok(s) => Some(s),
                        Err(e) => {
                            return Err(MergeError::Stream(e));
                        },
                    },
                    None => None,
                };
                let f = Fragment::Comprehension {
                    dynamics,
                    statics,
                    templates,
                    stream,
                    is_root,
                    new_render: None,
                };
                Ok(f)
            },
            FragmentDiff::UpdateKeyedComprehension { keyed, templates, statics, is_root, .. } => {
                let key_count = keyed.key_count;
                let items = convert_keyed_items(keyed.items)?;
                assert(keyed_items_view(items@) =~= converted_diff(vv)->KeyedComprehension_keyed.items);
                let f = Fragment::KeyedComprehension {
                    keyed: KeyedItems { items, key_count },
                    statics,
                    templates,
                    is_root,
                    new_render: None,
                };
                Ok(f)
            },
        }
    }
}

} // verus!
