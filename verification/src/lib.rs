//! A verified model of the interpolation trees exchanged by a LiveView
//! client: full fragments, the diffs that update them, the conversion of a
//! diff into a fragment, and the expansion of template references.
//!
//! Maps keyed by strings are held as vectors of `(key, value)` pairs in the
//! order in which their entries were read.

pub mod convert;
pub mod error;
pub mod expand;
pub mod fragment;
pub mod json;
pub mod laws;
pub mod root;
pub mod statics;
pub mod stream;

pub use error::{MergeError, StreamConversionError};
pub use fragment::{
    Child, ChildDiff, Fragment, FragmentDiff, KeyedItem, KeyedItemDiff, KeyedItems, KeyedItemsDiff,
};
pub use root::{Component, ComponentDiff, Root, RootDiff};
pub use statics::{ComponentStatics, OneOrManyStrings, Statics, Templates};
pub use stream::{Stream, StreamAttribute, StreamInsert, StreamItem, StreamUpdate};
pub mod lookup_laws;
pub mod stream_laws;
