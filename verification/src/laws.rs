use vstd::prelude::*;

use crate::convert::{
    child_convertible, converted_child, converted_diff, converted_keyed_item, diff_convertible,
    keyed_item_convertible,
};
use crate::expand::{effective_templates, expanded, expanded_child, fragment_templates};
use crate::fragment::{
    child_statics, fragment_statics, key_count_or_len, ChildDiffView, ChildView, FragmentDiffView, FragmentView,
    KeyedItemDiffView, KeyedItemView, KeyedItemsView,
};
use crate::lookup_laws::lemma_template_for_exact_key;
use crate::root::diff_event;
use crate::statics::{decimal, template_for, StaticsView, TemplatesView};
use serde_json::Value;

verus! {

// ---------------------------------------------------------------------------
// Template-free trees
// ---------------------------------------------------------------------------

/// Whether no fragment in a tree holds templates (keyed items that are
/// still diffs are not looked into).
pub open spec fn templates_free(f: FragmentView) -> bool
    decreases f,
{
    match f {
        FragmentView::Regular { children, templates, .. } => {
            &&& templates is None
            &&& forall|i: int|
                0 <= i < children.len() ==> child_templates_free(#[trigger] children[i].1)
        },
        FragmentView::Comprehension { dynamics, templates, .. } => {
            &&& templates is None
            &&& forall|i: int, j: int|
                0 <= i < dynamics.len() && 0 <= j < dynamics[i].len() ==> child_templates_free(
                    #[trigger] dynamics[i][j],
                )
        },
        FragmentView::KeyedComprehension { keyed, templates, .. } => {
            &&& templates is None
            &&& forall|i: int|
                0 <= i < keyed.items.len() ==> item_templates_free(#[trigger] keyed.items[i].1)
        },
    }
}

/// Whether a child holds no templates.
pub open spec fn child_templates_free(c: ChildView) -> bool
    decreases c,
{
    match c {
        ChildView::Fragment(f) => templates_free(f),
        _ => true,
    }
}

/// Whether a keyed item holds no templates.
pub open spec fn item_templates_free(k: KeyedItemView) -> bool
    decreases k,
{
    match k {
        KeyedItemView::Fragment(f) => templates_free(f),
        _ => true,
    }
}

/// Expansion deletes the templates of every fragment in the tree.
pub proof fn lemma_expanded_templates_free(f: FragmentView, parent: TemplatesView)
    ensures
        templates_free(expanded(f, parent)),
    decreases f,
{
    let eff = effective_templates(f, parent);
    let g = expanded(f, parent);
    match f {
        FragmentView::Regular { children, .. } => {
            assert forall|i: int| 0 <= i < children.len() implies child_templates_free(
                #[trigger] g->Regular_children[i].1,
            ) by {
                if let ChildView::Fragment(h) = children[i].1 {
                    lemma_expanded_templates_free(h, eff);
                }
            }
        },
        FragmentView::Comprehension { dynamics, .. } => {
            assert forall|i: int, j: int|
                0 <= i < g->Comprehension_dynamics.len() && 0 <= j
                    < g->Comprehension_dynamics[i].len() implies child_templates_free(
                #[trigger] g->Comprehension_dynamics[i][j],
            ) by {
                if let ChildView::Fragment(h) = dynamics[i][j] {
                    lemma_expanded_templates_free(h, eff);
                }
            }
        },
        FragmentView::KeyedComprehension { keyed, .. } => {
            assert forall|i: int| 0 <= i < keyed.items.len() implies item_templates_free(
                #[trigger] g->KeyedComprehension_keyed.items[i].1,
            ) by {
                if let KeyedItemView::Fragment(h) = keyed.items[i].1 {
                    lemma_expanded_templates_free(h, eff);
                }
            }
        },
    }
}

/// A tree without templates and without a parent's templates is left as
/// it is by expansion.
pub proof fn lemma_expand_templates_free_is_identity(f: FragmentView)
    requires
        templates_free(f),
    ensures
        expanded(f, None) == f,
    decreases f,
{
    let g = expanded(f, None);
    assert(effective_templates(f, None) is None);
    match f {
        FragmentView::Regular { children, .. } => {
            assert forall|i: int| 0 <= i < children.len() implies #[trigger] g->Regular_children[i]
                == children[i] by {
                assert(child_templates_free(children[i].1));
                if let ChildView::Fragment(h) = children[i].1 {
                    lemma_expand_templates_free_is_identity(h);
                }
            }
            assert(g->Regular_children =~= children);
        },
        FragmentView::Comprehension { dynamics, .. } => {
            assert forall|i: int| 0 <= i < dynamics.len() implies #[trigger] g->Comprehension_dynamics[i]
                == dynamics[i] by {
                assert forall|j: int| 0 <= j < dynamics[i].len() implies #[trigger] g->Comprehension_dynamics[i][j]
                    == dynamics[i][j] by {
                    assert(child_templates_free(dynamics[i][j]));
                    if let ChildView::Fragment(h) = dynamics[i][j] {
                        lemma_expand_templates_free_is_identity(h);
                    }
                }
                assert(g->Comprehension_dynamics[i] =~= dynamics[i]);
            }
            assert(g->Comprehension_dynamics =~= dynamics);
        },
        FragmentView::KeyedComprehension { keyed, .. } => {
            assert forall|i: int| 0 <= i < keyed.items.len() implies #[trigger] g->KeyedComprehension_keyed.items[i]
                == keyed.items[i] by {
                assert(item_templates_free(keyed.items[i].1));
                if let KeyedItemView::Fragment(h) = keyed.items[i].1 {
                    lemma_expand_templates_free_is_identity(h);
                }
            }
            assert(g->KeyedComprehension_keyed.items =~= keyed.items);
        },
    }
}

/// Expanding statics twice is the same as expanding them once: the second
/// pass finds no templates left to resolve with.
pub proof fn lemma_expand_idempotent(f: FragmentView, parent: TemplatesView)
    ensures
        expanded(expanded(f, parent), None) == expanded(f, parent),
{
    lemma_expanded_templates_free(f, parent);
    lemma_expand_templates_free_is_identity(expanded(f, parent));
}

// ---------------------------------------------------------------------------
// Which templates a fragment resolves with
// ---------------------------------------------------------------------------

/// A regular fragment or comprehension with templates of its own expands
/// the same under any parent: its own templates replace the parent's, they
/// are not merged with them.
pub proof fn lemma_own_templates_replace_parent(
    f: FragmentView,
    parent1: TemplatesView,
    parent2: TemplatesView,
)
    requires
        !(f is KeyedComprehension),
        fragment_templates(f) is Some,
    ensures
        expanded(f, parent1) == expanded(f, parent2),
{
    assert(effective_templates(f, parent1) == effective_templates(f, parent2));
}

/// A keyed comprehension under templates of its parent resolves with the
/// parent's: which templates it holds itself makes no difference.
pub proof fn lemma_keyed_resolves_with_parent_templates(
    keyed: KeyedItemsView,
    statics: Option<StaticsView>,
    is_root: Option<i8>,
    own1: TemplatesView,
    own2: TemplatesView,
    new_render: Option<bool>,
    parent: TemplatesView,
)
    requires
        parent is Some,
    ensures
        expanded(
            FragmentView::KeyedComprehension { keyed, statics, is_root, templates: own1, new_render },
            parent,
        ) == expanded(
            FragmentView::KeyedComprehension { keyed, statics, is_root, templates: own2, new_render },
            parent,
        ),
{
    let f1 = FragmentView::KeyedComprehension {
        keyed,
        statics,
        is_root,
        templates: own1,
        new_render,
    };
    let f2 = FragmentView::KeyedComprehension {
        keyed,
        statics,
        is_root,
        templates: own2,
        new_render,
    };
    assert(effective_templates(f1, parent) == effective_templates(f2, parent));
    assert(expanded(f1, parent)->KeyedComprehension_keyed.items =~= expanded(
        f2,
        parent,
    )->KeyedComprehension_keyed.items);
}

/// A keyed comprehension without templates above it resolves with its own.
pub proof fn lemma_keyed_at_root_uses_own_templates(f: FragmentView)
    requires
        f is KeyedComprehension,
    ensures
        effective_templates(f, None) == fragment_templates(f),
{
}

/// After expansion, a child fragment whose statics referred to a template
/// that is in effect reports that template as its statics.
pub proof fn lemma_expanded_child_statics(
    f: FragmentView,
    parent: TemplatesView,
    id: i32,
    template: Seq<Seq<char>>,
)
    requires
        fragment_statics(f) == Some(StaticsView::TemplateRef(id)),
        effective_templates(f, parent) matches Some(table) && template_for(table, id) == Some(
            template,
        ),
    ensures
        child_statics(expanded_child(ChildView::Fragment(f), parent)) == Some(template),
{
}

/// Statics that are not a template reference are left as they are by
/// expansion.
pub proof fn lemma_plain_statics_kept(f: FragmentView, parent: TemplatesView)
    requires
        !(fragment_statics(f) matches Some(StaticsView::TemplateRef(_))),
    ensures
        fragment_statics(expanded(f, parent)) == fragment_statics(f),
{
}

// ---------------------------------------------------------------------------
// What expansion does, node by node
// ---------------------------------------------------------------------------

/// The templates a fragment resolves with under its parent's: a regular
/// fragment or a comprehension uses its own when it has them, else its
/// parent's; a keyed comprehension uses its parent's when there are any,
/// else its own.
pub open spec fn templates_in_effect(f: FragmentView, parent: TemplatesView) -> TemplatesView {
    let own = match f {
        FragmentView::Comprehension { templates, .. } => templates,
        FragmentView::KeyedComprehension { templates, .. } => templates,
        FragmentView::Regular { templates, .. } => templates,
    };
    if f is KeyedComprehension {
        if parent is Some {
            parent
        } else {
            own
        }
    } else {
        if own is Some {
            own
        } else {
            parent
        }
    }
}

/// Expanding a fragment resolves its statics: a reference to an id whose
/// decimal rendering is a key of the templates in effect becomes the list
/// stored under the first such key; any other statics are kept.
pub proof fn lemma_expanded_statics(f: FragmentView, parent: TemplatesView)
    ensures
        match (fragment_statics(f), templates_in_effect(f, parent)) {
            (Some(StaticsView::TemplateRef(id)), Some(t)) => {
                &&& forall|i: int|
                    0 <= i < t.len() && #[trigger] t[i].0 == decimal(id as int) && (forall|j: int|
                        0 <= j < i ==> t[j].0 != decimal(id as int)) ==> fragment_statics(
                        expanded(f, parent),
                    ) == Some(StaticsView::Statics(t[i].1))
                &&& (forall|i: int| 0 <= i < t.len() ==> #[trigger] t[i].0 != decimal(id as int))
                    ==> fragment_statics(expanded(f, parent)) == fragment_statics(f)
            },
            _ => fragment_statics(expanded(f, parent)) == fragment_statics(f),
        },
{
    assert(effective_templates(f, parent) == templates_in_effect(f, parent));
    if let (Some(StaticsView::TemplateRef(id)), Some(t)) = (
        fragment_statics(f),
        templates_in_effect(f, parent),
    ) {
        lemma_template_for_exact_key(t, id);
    }
}

/// Expansion keeps the kind of a fragment, its root and render flags, its
/// stream and key count, the keys of its children and items, and every
/// child or item that is not a fragment; each nested fragment is expanded
/// under the templates in effect; no template table is left.
pub proof fn lemma_expanded_structure(f: FragmentView, parent: TemplatesView)
    ensures
        ({
            let g = expanded(f, parent);
            let eff = templates_in_effect(f, parent);
            &&& fragment_templates(g) is None
            &&& match f {
                FragmentView::Regular { children, is_root, new_render, .. } => {
                    &&& g matches FragmentView::Regular {
                        children: c2,
                        is_root: r2,
                        new_render: n2,
                        ..
                    }
                    &&& r2 == is_root && n2 == new_render
                    &&& c2.len() == children.len()
                    &&& forall|i: int|
                        0 <= i < children.len() ==> {
                            &&& (#[trigger] c2[i]).0 == children[i].0
                            &&& c2[i].1 == match children[i].1 {
                                ChildView::Fragment(h) => ChildView::Fragment(expanded(h, eff)),
                                other => other,
                            }
                        }
                },
                FragmentView::Comprehension { dynamics, is_root, stream, new_render, .. } => {
                    &&& g matches FragmentView::Comprehension {
                        dynamics: d2,
                        is_root: r2,
                        stream: s2,
                        new_render: n2,
                        ..
                    }
                    &&& r2 == is_root && s2 == stream && n2 == new_render
                    &&& d2.len() == dynamics.len()
                    &&& forall|i: int|
                        0 <= i < dynamics.len() ==> (#[trigger] d2[i]).len() == dynamics[i].len()
                    &&& forall|i: int, j: int|
                        0 <= i < dynamics.len() && 0 <= j < dynamics[i].len() ==> #[trigger] d2[i][j]
                            == match dynamics[i][j] {
                            ChildView::Fragment(h) => ChildView::Fragment(expanded(h, eff)),
                            other => other,
                        }
                },
                FragmentView::KeyedComprehension { keyed, is_root, new_render, .. } => {
                    &&& g matches FragmentView::KeyedComprehension {
                        keyed: k2,
                        is_root: r2,
                        new_render: n2,
                        ..
                    }
                    &&& r2 == is_root && n2 == new_render
                    &&& k2.key_count == keyed.key_count
                    &&& k2.items.len() == keyed.items.len()
                    &&& forall|i: int|
                        0 <= i < keyed.items.len() ==> {
                            &&& (#[trigger] k2.items[i]).0 == keyed.items[i].0
                            &&& k2.items[i].1 == match keyed.items[i].1 {
                                KeyedItemView::Fragment(h) => KeyedItemView::Fragment(
                                    expanded(h, eff),
                                ),
                                other => other,
                            }
                        }
                },
            }
        }),
{
    assert(effective_templates(f, parent) == templates_in_effect(f, parent));
}

// ---------------------------------------------------------------------------
// Converting diffs into fragments
// ---------------------------------------------------------------------------

/// Whether a diff holds no stream update (keyed items that stay diffs are
/// not looked into).
pub open spec fn stream_free(d: FragmentDiffView) -> bool
    decreases d,
{
    match d {
        FragmentDiffView::UpdateComprehension { dynamics, stream, .. } => {
            &&& stream is None
            &&& forall|i: int, j: int|
                0 <= i < dynamics.len() && 0 <= j < dynamics[i].len() ==> child_stream_free(
                    #[trigger] dynamics[i][j],
                )
        },
        FragmentDiffView::UpdateKeyedComprehension { keyed, .. } => forall|i: int|
            0 <= i < keyed.items.len() ==> item_stream_free(#[trigger] keyed.items[i].1),
        FragmentDiffView::UpdateRegular { children, .. } => forall|i: int|
            0 <= i < children.len() ==> child_stream_free(#[trigger] children[i].1),
    }
}

/// Whether a child diff holds no stream update.
pub open spec fn child_stream_free(c: ChildDiffView) -> bool
    decreases c,
{
    match c {
        ChildDiffView::Fragment(d) => stream_free(d),
        _ => true,
    }
}

/// Whether a keyed item diff holds no stream update.
pub open spec fn item_stream_free(k: KeyedItemDiffView) -> bool
    decreases k,
{
    match k {
        KeyedItemDiffView::FragmentDiff(d) => stream_free(d),
        _ => true,
    }
}

/// A diff without stream updates always converts into a fragment.
pub proof fn lemma_stream_free_converts(d: FragmentDiffView)
    requires
        stream_free(d),
    ensures
        diff_convertible(d),
    decreases d,
{
    match d {
        FragmentDiffView::UpdateComprehension { dynamics, .. } => {
            assert forall|i: int, j: int|
                0 <= i < dynamics.len() && 0 <= j < dynamics[i].len() implies child_convertible(
                #[trigger] dynamics[i][j],
            ) by {
                assert(child_stream_free(dynamics[i][j]));
                if let ChildDiffView::Fragment(e) = dynamics[i][j] {
                    lemma_stream_free_converts(e);
                }
            }
        },
        FragmentDiffView::UpdateKeyedComprehension { keyed, .. } => {
            assert forall|i: int| 0 <= i < keyed.items.len() implies keyed_item_convertible(
                #[trigger] keyed.items[i].1,
            ) by {
                assert(item_stream_free(keyed.items[i].1));
                if let KeyedItemDiffView::FragmentDiff(e) = keyed.items[i].1 {
                    lemma_stream_free_converts(e);
                }
            }
        },
        FragmentDiffView::UpdateRegular { children, .. } => {
            assert forall|i: int| 0 <= i < children.len() implies child_convertible(
                #[trigger] children[i].1,
            ) by {
                assert(child_stream_free(children[i].1));
                if let ChildDiffView::Fragment(e) = children[i].1 {
                    lemma_stream_free_converts(e);
                }
            }
        },
    }
}

/// The templates of a diff, whatever its kind.
pub open spec fn diff_templates(d: FragmentDiffView) -> TemplatesView {
    match d {
        FragmentDiffView::UpdateComprehension { templates, .. } => templates,
        FragmentDiffView::UpdateKeyedComprehension { templates, .. } => templates,
        FragmentDiffView::UpdateRegular { templates, .. } => templates,
    }
}

/// The statics of a diff, whatever its kind.
pub open spec fn diff_statics(d: FragmentDiffView) -> Option<StaticsView> {
    match d {
        FragmentDiffView::UpdateComprehension { statics, .. } => statics,
        FragmentDiffView::UpdateKeyedComprehension { statics, .. } => statics,
        FragmentDiffView::UpdateRegular { statics, .. } => statics,
    }
}

/// Converting a diff keeps its template table, statics and root flag, and
/// gives the matching kind of fragment without a render flag; children and
/// rows keep their keys and shape, keyed items their keys and key count.
pub proof fn lemma_converted_keeps_diff(d: FragmentDiffView)
    ensures
        ({
            let f = converted_diff(d);
            &&& fragment_templates(f) == diff_templates(d)
            &&& fragment_statics(f) == diff_statics(d)
            &&& match d {
                FragmentDiffView::UpdateRegular { children, is_root, .. } => {
                    &&& f matches FragmentView::Regular { children: c2, is_root: r2, new_render, .. }
                    &&& r2 == is_root && new_render is None
                    &&& c2.len() == children.len()
                    &&& forall|i: int|
                        0 <= i < children.len() ==> (#[trigger] c2[i]).0 == children[i].0 && c2[i].1
                            == converted_child(children[i].1)
                },
                FragmentDiffView::UpdateComprehension { dynamics, is_root, stream, .. } => {
                    &&& f matches FragmentView::Comprehension {
                        dynamics: d2,
                        is_root: r2,
                        stream: s2,
                        new_render,
                        ..
                    }
                    &&& r2 == is_root && new_render is None
                    &&& (s2 is Some <==> stream is Some)
                    &&& d2.len() == dynamics.len()
                    &&& forall|i: int|
                        0 <= i < dynamics.len() ==> (#[trigger] d2[i]).len() == dynamics[i].len()
                    &&& forall|i: int, j: int|
                        0 <= i < dynamics.len() && 0 <= j < dynamics[i].len() ==> #[trigger] d2[i][j]
                            == converted_child(dynamics[i][j])
                },
                FragmentDiffView::UpdateKeyedComprehension { keyed, is_root, .. } => {
                    &&& f matches FragmentView::KeyedComprehension {
                        keyed: k2,
                        is_root: r2,
                        new_render,
                        ..
                    }
                    &&& r2 == is_root && new_render is None
                    &&& k2.key_count == keyed.key_count
                    &&& k2.items.len() == keyed.items.len()
                    &&& forall|i: int|
                        0 <= i < keyed.items.len() ==> (#[trigger] k2.items[i]).0 == keyed.items[i].0
                            && k2.items[i].1 == converted_keyed_item(keyed.items[i].1)
                },
            }
        }),
{
}

/// Converting a child diff: text and component references are kept as
/// they are, and a nested diff becomes the fragment it describes.
pub proof fn lemma_converted_child(c: ChildDiffView)
    ensures
        match c {
            ChildDiffView::String(s) => converted_child(c) == ChildView::String(s),
            ChildDiffView::ComponentID(id) => converted_child(c) == ChildView::ComponentID(id),
            ChildDiffView::Fragment(d) => converted_child(c) == ChildView::Fragment(converted_diff(d)),
        },
{
}

/// Converting a keyed item diff: a move keeps its old position, a move with
/// changes keeps its old position and its diff unchanged, and a new item's
/// diff becomes the fragment it describes.
pub proof fn lemma_converted_keyed_item(k: KeyedItemDiffView)
    ensures
        match k {
            KeyedItemDiffView::MovedFrom(p) => converted_keyed_item(k) == KeyedItemView::MovedFrom(p),
            KeyedItemDiffView::MovedWithDiff(p, d) => converted_keyed_item(k)
                == KeyedItemView::MovedWithDiff(p, d),
            KeyedItemDiffView::FragmentDiff(d) => converted_keyed_item(k) == KeyedItemView::Fragment(
                converted_diff(d),
            ),
        },
{
}

/// A comprehension diff whose stream update holds no stream id cannot be
/// converted.
pub proof fn lemma_stream_without_id_not_convertible(d: FragmentDiffView)
    requires
        d matches FragmentDiffView::UpdateComprehension { stream: Some(u), .. } && forall|i: int|
            0 <= i < u.len() ==> !((#[trigger] u[i]) is StreamID),
    ensures
        !diff_convertible(d),
{
    let u = d->UpdateComprehension_stream->0;
    crate::stream_laws::lemma_update_stream_id_first(u);
}

/// A diff converts exactly when each of its children, rows and keyed items
/// converts, and, for a comprehension, its stream update has an id.
pub proof fn lemma_convertible_parts(d: FragmentDiffView)
    ensures
        match d {
            FragmentDiffView::UpdateRegular { children, .. } => diff_convertible(d) <==> forall|i: int|
                0 <= i < children.len() ==> child_convertible(#[trigger] children[i].1),
            FragmentDiffView::UpdateComprehension { dynamics, stream, .. } => diff_convertible(d)
                <==> ((forall|i: int, j: int|
                0 <= i < dynamics.len() && 0 <= j < dynamics[i].len() ==> child_convertible(
                    #[trigger] dynamics[i][j],
                )) && (stream matches Some(u) ==> exists|k: int|
                0 <= k < u.len() && (#[trigger] u[k]) is StreamID)),
            FragmentDiffView::UpdateKeyedComprehension { keyed, .. } => diff_convertible(d) <==> forall|i: int|
                0 <= i < keyed.items.len() ==> keyed_item_convertible(#[trigger] keyed.items[i].1),
        },
        forall|c: ChildDiffView| #[trigger] child_convertible(c) <==> (c matches ChildDiffView::Fragment(e) ==> diff_convertible(e)),
{
    if let FragmentDiffView::UpdateComprehension { stream: Some(u), .. } = d {
        crate::stream_laws::lemma_update_stream_id_first(u);
    }
}

/// The key count of keyed items read from the wire is the `kc` field when
/// present and otherwise the number of items.
pub proof fn lemma_key_count(kc: Option<i32>, n: nat)
    ensures
        kc matches Some(k) ==> key_count_or_len(kc, n) == k,
        kc is None && n <= i32::MAX ==> key_count_or_len(kc, n) == n,
{
}

/// A diff reports the event of a regular or comprehension update, and no
/// event for a keyed comprehension.
pub proof fn lemma_diff_event(d: FragmentDiffView)
    ensures
        match d {
            FragmentDiffView::UpdateRegular { event, .. } => diff_event(d) == event,
            FragmentDiffView::UpdateComprehension { event, .. } => diff_event(d) == event,
            FragmentDiffView::UpdateKeyedComprehension { .. } => diff_event(d) == Option::<Value>::None,
        },
{
}

// ---------------------------------------------------------------------------
// The statics of a child
// ---------------------------------------------------------------------------

/// A child reports statics exactly when it is a fragment whose statics are
/// present and are a list of strings, and then reports that list; a
/// fragment without statics, with a single string or with a template
/// reference, and a child that is not a fragment, report none.
pub proof fn lemma_child_statics(c: ChildView)
    ensures
        child_statics(c) is Some <==> (c matches ChildView::Fragment(f) && fragment_statics(
            f,
        ) matches Some(StaticsView::Statics(_))),
        child_statics(c) matches Some(s) ==> (c matches ChildView::Fragment(f) && fragment_statics(f)
            == Some(StaticsView::Statics(s))),
        c matches ChildView::Fragment(f) && fragment_statics(f) is None ==> child_statics(c) is None,
        !(c is Fragment) ==> child_statics(c) is None,
{
}

} // verus!
