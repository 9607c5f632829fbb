use vstd::prelude::*;

use crate::fragment::{
    child_view, children_view, keyed_item_view, keyed_items_view, row_view, rows_view, Child,
    ChildView, Fragment, FragmentView, KeyedItem, KeyedItemView, KeyedItems, KeyedItemsView,
};
use crate::statics::{
    clone_strings, lookup_template, opt_statics_view, template_for, templates_view, Statics,
    StaticsView, Templates, TemplatesView,
};

verus! {

// ---------------------------------------------------------------------------
// What expanding the statics of a fragment means
// ---------------------------------------------------------------------------

/// The templates in effect for a fragment that replaces its parent's
/// templates with its own: its own if it has any, else its parent's.
pub open spec fn own_first(own: TemplatesView, parent: TemplatesView) -> TemplatesView {
    if own is Some {
        own
    } else {
        parent
    }
}

/// The templates in effect for a keyed comprehension: its parent's if there
/// are any, else its own.
pub open spec fn parent_first(own: TemplatesView, parent: TemplatesView) -> TemplatesView {
    if parent is Some {
        parent
    } else {
        own
    }
}

/// The templates of a fragment, whatever its kind.
pub open spec fn fragment_templates(f: FragmentView) -> TemplatesView {
    match f {
        FragmentView::Comprehension { templates, .. } => templates,
        FragmentView::KeyedComprehension { templates, .. } => templates,
        FragmentView::Regular { templates, .. } => templates,
    }
}

/// The templates in effect for a fragment under its parent's templates:
/// own first for regular fragments and comprehensions, parent first for
/// keyed comprehensions.
pub open spec fn effective_templates(f: FragmentView, parent: TemplatesView) -> TemplatesView {
    match f {
        FragmentView::KeyedComprehension { templates, .. } => parent_first(templates, parent),
        _ => own_first(fragment_templates(f), parent),
    }
}

/// Statics after resolution against the templates in effect: a reference
/// to a template that exists becomes that template's list of strings;
/// anything else stays as it is.
pub open spec fn resolved_statics(s: Option<StaticsView>, eff: TemplatesView) -> Option<
    StaticsView,
> {
    match s {
        Some(StaticsView::TemplateRef(id)) => match eff {
            Some(t) => match template_for(t, id) {
                Some(v) => Some(StaticsView::Statics(v)),
                None => s,
            },
            None => s,
        },
        _ => s,
    }
}

/// A child after expansion: nested fragments are expanded, anything else
/// stays.
pub open spec fn expanded_child(c: ChildView, eff: TemplatesView) -> ChildView
    decreases c,
{
    match c {
        ChildView::Fragment(f) => ChildView::Fragment(expanded(f, eff)),
        _ => c,
    }
}

/// A keyed item after expansion: fragments are expanded, moves stay.
pub open spec fn expanded_item(k: KeyedItemView, eff: TemplatesView) -> KeyedItemView
    decreases k,
{
    match k {
        KeyedItemView::Fragment(f) => KeyedItemView::Fragment(expanded(f, eff)),
        _ => k,
    }
}

/// A fragment after every template reference in it was resolved against
/// the templates in effect, and every template table was deleted.
/// `parent` are the templates in effect above the fragment.
pub open spec fn expanded(f: FragmentView, parent: TemplatesView) -> FragmentView
    decreases f,
{
    match f {
        FragmentView::Regular { statics, is_root, children, templates, new_render } => {
            let eff = effective_templates(f, parent);
            FragmentView::Regular {
                statics: resolved_statics(statics, eff),
                is_root,
                children: Seq::new(
                    children.len(),
                    |i: int|
                        (
                            children[i].0,
                            if 0 <= i < children.len() {
                                expanded_child(children[i].1, eff)
                            } else {
                                ChildView::ComponentID(0)
                            },
                        ),
                ),
                templates: None,
                new_render,
            }
        },
        FragmentView::Comprehension { dynamics, statics, is_root, templates, stream, new_render } => {
            let eff = effective_templates(f, parent);
            FragmentView::Comprehension {
                dynamics: Seq::new(
                    dynamics.len(),
                    |i: int|
                        if 0 <= i < dynamics.len() {
                            Seq::new(
                                dynamics[i].len(),
                                |j: int|
                                    if 0 <= j < dynamics[i].len() {
                                        expanded_child(dynamics[i][j], eff)
                                    } else {
                                        ChildView::ComponentID(0)
                                    },
                            )
                        } else {
                            Seq::empty()
                        },
                ),
                statics: resolved_statics(statics, eff),
                is_root,
                templates: None,
                stream,
                new_render,
            }
        },
        FragmentView::KeyedComprehension { keyed, statics, is_root, templates, new_render } => {
            let eff = effective_templates(f, parent);
            FragmentView::KeyedComprehension {
                keyed: KeyedItemsView {
                    items: Seq::new(
                        keyed.items.len(),
                        |i: int|
                            (
                                keyed.items[i].0,
                                if 0 <= i < keyed.items.len() {
                                    expanded_item(keyed.items[i].1, eff)
                                } else {
                                    KeyedItemView::MovedFrom(0)
                                },
                            ),
                    ),
                    key_count: keyed.key_count,
                },
                statics: resolved_statics(statics, eff),
                is_root,
                templates: None,
                new_render,
            }
        },
    }
}

// ---------------------------------------------------------------------------
// The expansion
// ---------------------------------------------------------------------------

/// Replaces a template reference by the template it names, where the
/// templates in effect hold it.
fn resolve_statics(statics: &mut Option<Statics>, effective: &Templates)
    ensures
        opt_statics_view(*final(statics)) == resolved_statics(
            opt_statics_view(*old(statics)),
            templates_view(*effective),
        ),
{
    let id = match statics {
        Some(Statics::TemplateRef(id)) => Some(*id),
        _ => None,
    };
    if let Some(id) = id {
        if let Some(table) = effective {
            if let Some(resolved) = lookup_template(table, id) {
                *statics = Some(Statics::Statics(clone_strings(resolved)));
            }
        }
    }
}

fn expand_child(child: Child, effective: &Templates) -> (r: Child)
    ensures
        r@ == expanded_child(child@, templates_view(*effective)),
    decreases child,
{
    match child {
        Child::Fragment(f) => Child::Fragment(f.expand_statics_with_parent(effective)),
        other => other,
    }
}

fn expand_children(children: Vec<(String, Child)>, effective: &Templates) -> (r: Vec<(String, Child)>)
    ensures
        children_view(r@) == Seq::new(
            children@.len(),
            |i: int|
                (
                    children_view(children@)[i].0,
                    expanded_child(children_view(children@)[i].1, templates_view(*effective)),
                ),
        ),
    decreases children,
{
    let ghost orig = children@;
    let ghost cv = children_view(orig);
    let ghost ev = templates_view(*effective);
    let mut out: Vec<(String, Child)> = Vec::new();
    for entry in it: children
        invariant
            it.seq() == orig,
            cv == children_view(orig),
            ev == templates_view(*effective),
            out@.len() == it.index(),
            forall|j: int|
                0 <= j < it.index() ==> (#[trigger] out@[j]).0@ == cv[j].0 && child_view(out@[j].1)
                    == expanded_child(cv[j].1, ev),
    {
        let (key, child) = entry;
        out.push((key, expand_child(child, effective)));
    }
    assert(children_view(out@) =~= Seq::new(
        orig.len(),
        |i: int| (cv[i].0, expanded_child(cv[i].1, ev)),
    ));
    out
}

fn expand_row(row: Vec<Child>, effective: &Templates) -> (r: Vec<Child>)
    ensures
        row_view(r@) == Seq::new(
            row@.len(),
            |j: int| expanded_child(row_view(row@)[j], templates_view(*effective)),
        ),
    decreases row,
{
    let ghost orig = row@;
    let ghost rv = row_view(orig);
    let ghost ev = templates_view(*effective);
    let mut out: Vec<Child> = Vec::new();
    for child in it: row
        invariant
            it.seq() == orig,
            rv == row_view(orig),
            ev == templates_view(*effective),
            out@.len() == it.index(),
            forall|j: int|
                0 <= j < it.index() ==> child_view(#[trigger] out@[j]) == expanded_child(rv[j], ev),
    {
        out.push(expand_child(child, effective));
    }
    assert(row_view(out@) =~= Seq::new(orig.len(), |j: int| expanded_child(rv[j], ev)));
    out
}

fn expand_rows(rows: Vec<Vec<Child>>, effective: &Templates) -> (r: Vec<Vec<Child>>)
    ensures
        rows_view(r@) == Seq::new(
            rows@.len(),
            |i: int|
                Seq::new(
                    rows_view(rows@)[i].len(),
                    |j: int| expanded_child(rows_view(rows@)[i][j], templates_view(*effective)),
                ),
        ),
    decreases rows,
{
    let ghost orig = rows@;
    let ghost rv = rows_view(orig);
    let ghost ev = templates_view(*effective);
    let mut out: Vec<Vec<Child>> = Vec::new();
    for row in it: rows
        invariant
            it.seq() == orig,
            rv == rows_view(orig),
            ev == templates_view(*effective),
            out@.len() == it.index(),
            forall|i: int|
                0 <= i < it.index() ==> row_view((#[trigger] out@[i])@) == Seq::new(
                    rv[i].len(),
                    |j: int| expanded_child(rv[i][j], ev),
                ),
    {
        out.push(expand_row(row, effective));
    }
    assert(rows_view(out@) =~= Seq::new(
        orig.len(),
        |i: int| Seq::new(rv[i].len(), |j: int| expanded_child(rv[i][j], ev)),
    ));
    out
}

fn expand_item(item: KeyedItem, effective: &Templates) -> (r: KeyedItem)
    ensures
        r@ == expanded_item(item@, templates_view(*effective)),
    decreases item,
{
    match item {
        KeyedItem::Fragment(f) => KeyedItem::Fragment(Box::new((*f).expand_statics_with_parent(effective))),
        other => other,
    }
}

fn expand_items(items: Vec<(String, KeyedItem)>, effective: &Templates) -> (r: Vec<(String, KeyedItem)>)
    ensures
        keyed_items_view(r@) == Seq::new(
            items@.len(),
            |i: int|
                (
                    keyed_items_view(items@)[i].0,
                    expanded_item(keyed_items_view(items@)[i].1, templates_view(*effective)),
                ),
        ),
    decreases items,
{
    let ghost orig = items@;
    let ghost kv = keyed_items_view(orig);
    let ghost ev = templates_view(*effective);
    let mut out: Vec<(String, KeyedItem)> = Vec::new();
    for entry in it: items
        invariant
            it.seq() == orig,
            kv == keyed_items_view(orig),
            ev == templates_view(*effective),
            out@.len() == it.index(),
            forall|j: int|
                0 <= j < it.index() ==> (#[trigger] out@[j]).0@ == kv[j].0 && keyed_item_view(
                    out@[j].1,
                ) == expanded_item(kv[j].1, ev),
    {
        let (key, item) = entry;
        out.push((key, expand_item(item, effective)));
    }
    assert(keyed_items_view(out@) =~= Seq::new(
        orig.len(),
        |i: int| (kv[i].0, expanded_item(kv[i].1, ev)),
    ));
    out
}

impl Fragment {
    /// Resolves every template reference in place, then deletes the
    /// templates, as a client does when it renders the tree.
    pub fn expand_statics(&mut self)
        ensures
            final(self)@ == expanded(old(self)@, None),
    {
        let mut taken = Fragment::Regular {
            statics: None,
            is_root: None,
            children: Vec::new(),
            templates: None,
            new_render: None,
        };
        std::mem::swap(&mut taken, self);
        let none: Templates = None;
        *self = taken.expand_statics_with_parent(&none);
    }

    /// Expands the statics of this fragment under the templates of its
    /// parent. Own templates replace the parent's; a keyed comprehension
    /// resolves with its parent's templates and falls back to its own at
    /// the root.
    fn expand_statics_with_parent(self, parent_templates: &Templates) -> (r: Fragment)
        ensures
            r@ == expanded(self@, templates_view(*parent_templates)),
        decreases self,
    {
        let ghost sv = self@;
        let ghost pv = templates_view(*parent_templates);
        match self {
            Fragment::Regular { statics, is_root, children, templates, new_render } => {
                let effective: &Templates = if templates.is_some() {
                    &templates
                } else {
                    parent_templates
                };
                let mut statics = statics;
                resolve_statics(&mut statics, effective);
                let children = expand_children(children, effective);
                let r = Fragment::Regular { statics, is_root, children, templates: None, new_render };
                assert(children_view(children@) =~= expanded(sv, pv)->Regular_children);
                r
            },
            Fragment::Comprehension { dynamics, statics, is_root, templates, stream, new_render } => {
                let effective: &Templates = if templates.is_some() {
                    &templates
                } else {
                    parent_templates
                };
                let mut statics = statics;
                resolve_statics(&mut statics, effective);
                let dynamics = expand_rows(dynamics, effective);
                let ghost target = expanded(sv, pv)->Comprehension_dynamics;
                assert(rows_view(dynamics@) =~= target) by {
                    assert forall|j: int| 0 <= j < target.len() implies rows_view(dynamics@)[j]
                        =~= target[j] by {}
                }
                Fragment::Comprehension {
                    dynamics,
                    statics,
                    is_root,
                    templates: None,
                    stream,
                    new_render,
                }
            },
            Fragment::KeyedComprehension { keyed, statics, is_root, templates, new_render } => {
                let effective: &Templates = if parent_templates.is_some() {
                    parent_templates
                } else {
                    &templates
                };
                let mut statics = statics;
                resolve_statics(&mut statics, effective);
                let key_count = keyed.key_count;
                let items = expand_items(keyed.items, effective);
                assert(keyed_items_view(items@) =~= expanded(
                    sv,
                    pv,
                )->KeyedComprehension_keyed.items);
                Fragment::KeyedComprehension {
                    keyed: KeyedItems { items, key_count },
                    statics,
                    is_root,
                    templates: None,
                    new_render,
                }
            },
        }
    }
}

} // verus!
