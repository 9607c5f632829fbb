use vstd::prelude::*;

use crate::error::StreamConversionError;
use crate::statics::strings_view;

verus! {

/// One item of a stream: its DOM id, the index it is inserted at and an
/// optional limit on the stream's length.
#[derive(Debug, Clone, PartialEq)]
pub struct StreamItem {
    pub id: String,
    pub index: i32,
    pub limit: Option<i32>,
}

/// Abstract value of [`StreamItem`].
pub struct StreamItemView {
    pub id: Seq<char>,
    pub index: i32,
    pub limit: Option<i32>,
}

impl View for StreamItem {
    type V = StreamItemView;

    open spec fn view(&self) -> StreamItemView {
        StreamItemView { id: self.id@, index: self.index, limit: self.limit }
    }
}

/// A stream: its id (a decimal number written as a string) and the items
/// inserted into it.
#[derive(Debug, Clone, PartialEq)]
pub struct Stream {
    pub id: String,
    pub stream_items: Vec<StreamItem>,
}

/// Abstract value of [`Stream`].
pub struct StreamView {
    pub id: Seq<char>,
    pub stream_items: Seq<StreamItemView>,
}

/// Abstract value of a list of stream items.
pub open spec fn stream_items_view(items: Seq<StreamItem>) -> Seq<StreamItemView> {
    items.map_values(|it: StreamItem| it@)
}

impl View for Stream {
    type V = StreamView;

    open spec fn view(&self) -> StreamView {
        StreamView { id: self.id@, stream_items: stream_items_view(self.stream_items@) }
    }
}

/// Abstract value of an optional stream.
pub open spec fn opt_stream_view(s: Option<Stream>) -> Option<StreamView> {
    match s {
        Some(st) => Some(st@),
        None => None,
    }
}

/// One attribute of a stream update as it comes over the wire.
#[derive(Debug, Clone, PartialEq)]
pub enum StreamAttribute {
    StreamID(String),
    Inserts(Vec<(String, i32, Option<i32>)>),
    DeleteIDs(Vec<String>),
    ResetStream(bool),
}

/// Abstract value of an insert: the item's id, index and limit.
pub type InsertView = (Seq<char>, i32, Option<i32>);

/// Abstract value of [`StreamAttribute`].
pub enum StreamAttributeView {
    StreamID(Seq<char>),
    Inserts(Seq<InsertView>),
    DeleteIDs(Seq<Seq<char>>),
    ResetStream(bool),
}

/// Abstract value of a list of inserts.
pub open spec fn inserts_view(ins: Seq<(String, i32, Option<i32>)>) -> Seq<InsertView> {
    ins.map_values(|t: (String, i32, Option<i32>)| (t.0@, t.1, t.2))
}

impl View for StreamAttribute {
    type V = StreamAttributeView;

    open spec fn view(&self) -> StreamAttributeView {
        match self {
            StreamAttribute::StreamID(s) => StreamAttributeView::StreamID(s@),
            StreamAttribute::Inserts(v) => StreamAttributeView::Inserts(inserts_view(v@)),
            StreamAttribute::DeleteIDs(v) => StreamAttributeView::DeleteIDs(strings_view(v@)),
            StreamAttribute::ResetStream(b) => StreamAttributeView::ResetStream(*b),
        }
    }
}

/// Where a stream item goes: at an index, or under a limit.
#[derive(Debug, Clone, PartialEq)]
pub enum StreamInsert {
    StreamAt(i32),
    Limit(Option<i32>),
}

/// The attributes of a stream update, in wire order.
pub type StreamUpdate = Vec<StreamAttribute>;

/// Abstract value of a stream update.
pub open spec fn stream_update_view(u: Seq<StreamAttribute>) -> Seq<StreamAttributeView> {
    u.map_values(|a: StreamAttribute| a@)
}

/// The id of a stream update: that of its first `StreamID` attribute.
pub open spec fn update_stream_id(u: Seq<StreamAttributeView>) -> Option<Seq<char>>
    decreases u.len(),
{
    if u.len() == 0 {
        None
    } else {
        match update_stream_id(u.drop_last()) {
            Some(id) => Some(id),
            None => match u.last() {
                StreamAttributeView::StreamID(id) => Some(id),
                _ => None,
            },
        }
    }
}

/// The stream items that a list of inserts describes.
pub open spec fn insert_items(ins: Seq<InsertView>) -> Seq<StreamItemView> {
    ins.map_values(|t: InsertView| StreamItemView { id: t.0, index: t.1, limit: t.2 })
}

/// The items of a stream update: those of all its `Inserts` attributes, in
/// order.
pub open spec fn update_stream_items(u: Seq<StreamAttributeView>) -> Seq<StreamItemView>
    decreases u.len(),
{
    if u.len() == 0 {
        seq![]
    } else {
        update_stream_items(u.drop_last()) + match u.last() {
            StreamAttributeView::Inserts(ins) => insert_items(ins),
            _ => seq![],
        }
    }
}

/// The stream that an update with an id describes.
pub open spec fn stream_of_update(u: Seq<StreamAttributeView>) -> StreamView {
    StreamView { id: update_stream_id(u).unwrap(), stream_items: update_stream_items(u) }
}

impl Stream {
    /// Builds the stream that a stream update describes. It fails exactly
    /// when the update carries no stream id.
    pub fn from_update(update: StreamUpdate) -> (r: Result<Stream, StreamConversionError>)
        ensures
            r is Ok <==> update_stream_id(stream_update_view(update@)) is Some,
            r matches Ok(s) ==> s@ == stream_of_update(stream_update_view(update@)),
            r matches Err(e) ==> e == StreamConversionError::NoStreamID,
    {
        let ghost uv = stream_update_view(update@);
        let ghost orig = update@;
        let mut id: Option<String> = None;
        let mut items: Vec<StreamItem> = Vec::new();
        for attr in it: update
            invariant
                it.seq() == orig,
                uv == stream_update_view(orig),
                match id {
                    Some(s) => update_stream_id(uv.take(it.index() as int)) == Some(s@),
                    None => update_stream_id(uv.take(it.index() as int)) is None,
                },
                stream_items_view(items@) == update_stream_items(uv.take(it.index() as int)),
        {
            let ghost k = it.index() as int;
            let ghost before = stream_items_view(items@);
            assert(uv.take(k + 1).drop_last() =~= uv.take(k));
            assert(uv.take(k + 1).last() == attr@);
            match attr {
                StreamAttribute::StreamID(s) => {
                    if id.is_none() {
                        id = Some(s);
                    }
                    assert(stream_items_view(items@) =~= update_stream_items(uv.take(k + 1)));
                },
                StreamAttribute::Inserts(ins) => {
                    let ghost iv = inserts_view(ins@);
                    let ghost ins_orig = ins@;
                    for t in jt: ins
                        invariant
                            jt.seq() == ins_orig,
                            iv == inserts_view(ins_orig),
                            stream_items_view(items@) == before + insert_items(
                                iv.take(jt.index() as int),
                            ),
                    {
                        let ghost j = jt.index() as int;
                        let ghost prev = stream_items_view(items@);
                        let (sid, index, limit) = t;
                        items.push(StreamItem { id: sid, index, limit });
                        assert(insert_items(iv.take(j + 1)) =~= insert_items(iv.take(j)).push(
                            StreamItemView { id: iv[j].0, index: iv[j].1, limit: iv[j].2 },
                        ));
                        assert(stream_items_view(items@) =~= prev.push(
                            StreamItemView { id: iv[j].0, index: iv[j].1, limit: iv[j].2 },
                        ));
                    }
                    assert(iv.take(ins_orig.len() as int) =~= iv);
                },
                _ => {
                    assert(stream_items_view(items@) =~= update_stream_items(uv.take(k + 1)));
                },
            }
        }
        assert(uv.take(orig.len() as int) =~= uv);
        match id {
            Some(s) => Ok(Stream { id: s, stream_items: items }),
            None => Err(StreamConversionError::NoStreamID),
        }
    }
}

} // verus!
