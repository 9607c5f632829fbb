use vstd::prelude::*;

use crate::stream::{
    insert_items, stream_of_update, update_stream_id, update_stream_items, InsertView,
    StreamAttributeView, StreamItemView,
};

verus! {

/// The id of a stream update is that of its first `StreamID` attribute;
/// there is none exactly when no attribute is a `StreamID`.
pub proof fn lemma_update_stream_id_first(u: Seq<StreamAttributeView>)
    ensures
        update_stream_id(u) is Some <==> exists|i: int|
            0 <= i < u.len() && (#[trigger] u[i]) is StreamID,
        forall|i: int|
            0 <= i < u.len() && (#[trigger] u[i]) is StreamID && (forall|j: int|
                0 <= j < i ==> !(u[j] is StreamID)) ==> update_stream_id(u) == Some(
                u[i]->StreamID_0,
            ),
    decreases u.len(),
{
    if u.len() > 0 {
        let p = u.drop_last();
        lemma_update_stream_id_first(p);
        assert forall|i: int| 0 <= i < p.len() implies p[i] == u[i] by {}
        if update_stream_id(p) is Some {
            let i0 = choose|i: int| 0 <= i < p.len() && (#[trigger] p[i]) is StreamID;
            assert(u[i0] is StreamID);
        }
        assert forall|i: int|
            0 <= i < u.len() && (#[trigger] u[i]) is StreamID && (forall|j: int|
                0 <= j < i ==> !(u[j] is StreamID)) implies update_stream_id(u) == Some(
            u[i]->StreamID_0,
        ) by {
            if i < u.len() - 1 {
                assert(p[i] is StreamID);
                assert forall|j: int| 0 <= j < i implies !(p[j] is StreamID) by {
                    assert(p[j] == u[j]);
                }
            } else {
                if update_stream_id(p) is Some {
                    let k = choose|k: int| 0 <= k < p.len() && (#[trigger] p[k]) is StreamID;
                    assert(u[k] is StreamID);
                }
            }
        }
    }
}

/// The items of the inserts of one attribute: one item per insert, with
/// its id, index and limit.
pub proof fn lemma_insert_items(ins: Seq<InsertView>)
    ensures
        insert_items(ins).len() == ins.len(),
        forall|i: int|
            0 <= i < ins.len() ==> #[trigger] insert_items(ins)[i] == (StreamItemView {
                id: ins[i].0,
                index: ins[i].1,
                limit: ins[i].2,
            }),
{
}

/// The items of a stream update are those of its parts in order: an
/// update made of two parts has the items of the first followed by those
/// of the second; an `Inserts` attribute alone gives its inserts' items and
/// any other attribute alone gives none.
pub proof fn lemma_update_stream_items_concat(
    u1: Seq<StreamAttributeView>,
    u2: Seq<StreamAttributeView>,
)
    ensures
        update_stream_items(u1 + u2) == update_stream_items(u1) + update_stream_items(u2),
    decreases u2.len(),
{
    if u2.len() == 0 {
        assert(u1 + u2 =~= u1);
        assert(update_stream_items(u1) + update_stream_items(u2) =~= update_stream_items(u1));
    } else {
        lemma_update_stream_items_concat(u1, u2.drop_last());
        assert((u1 + u2).drop_last() =~= u1 + u2.drop_last());
        assert((u1 + u2).last() == u2.last());
        assert(update_stream_items(u1 + u2) =~= update_stream_items(u1) + update_stream_items(u2));
    }
}

/// The items of a single attribute.
pub proof fn lemma_update_stream_items_single(a: StreamAttributeView)
    ensures
        update_stream_items(seq![a]) == match a {
            StreamAttributeView::Inserts(ins) => insert_items(ins),
            _ => Seq::<StreamItemView>::empty(),
        },
{
    assert(seq![a].drop_last() =~= Seq::<StreamAttributeView>::empty());
    assert(seq![a].last() == a);
    assert(update_stream_items(Seq::<StreamAttributeView>::empty()) == Seq::<StreamItemView>::empty());
    assert(update_stream_items(seq![a]) =~= match a {
        StreamAttributeView::Inserts(ins) => insert_items(ins),
        _ => Seq::<StreamItemView>::empty(),
    });
}

/// The stream an update describes carries the update's id and items.
pub proof fn lemma_stream_of_update(u: Seq<StreamAttributeView>)
    requires
        update_stream_id(u) is Some,
    ensures
        Some(stream_of_update(u).id) == update_stream_id(u),
        stream_of_update(u).stream_items == update_stream_items(u),
{
}

} // verus!
