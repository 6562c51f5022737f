//! State in the dataflow and in the state store.
//!
//! A state store is a log of changes keyed by [`StoreKey`], each carrying a
//! change of [`StateBytes`]. The store itself is someone else's: here are
//! only the shape of what it holds, the capabilities it has to offer, and
//! the summary of its changes that garbage collection works on.

use crate::change::{Change, ChangeType, KChange, KReader, KWriter};
use crate::keys::{FlowKey, FlowKeyView, StoreKey, StoreKeyView};
use vstd::prelude::*;

verus! {

/// A snapshot of state for a specific key within a step.
///
/// The recovery system only deals in bytes, so that each operator can store
/// its own types. It never looks into them.
#[derive(Debug)]
pub struct StateBytes(pub Vec<u8>);

impl View for StateBytes {
    type V = Seq<u8>;

    open spec fn view(&self) -> Seq<u8> {
        self.0@
    }
}

impl Clone for StateBytes {
    fn clone(&self) -> (res: Self)
        ensures
            res@ == self@,
    {
        StateBytes(self.0.clone())
    }
}

/// A change to state within the dataflow.
pub type FlowChange = KChange<FlowKey, StateBytes>;

/// A change to the state store.
pub type StoreChange = KChange<StoreKey, Change<StateBytes>>;

/// A change to the state store that keeps only the kind of the change to
/// the state, not the state itself.
///
/// With it garbage collection need not hold full snapshots.
pub type StoreChangeSummary = KChange<StoreKey, ChangeType>;

/// What a [`FlowChange`] stands for.
pub type FlowChangeView = KChange<FlowKeyView, Seq<u8>>;

/// What a [`StoreChange`] stands for.
pub type StoreChangeView = KChange<StoreKeyView, Change<Seq<u8>>>;

/// What a [`StoreChangeSummary`] stands for.
pub type StoreChangeSummaryView = KChange<StoreKeyView, ChangeType>;

/// All state stores have to implement this writer.
///
/// A writer is either owned by the one who writes, or shared among several
/// collaborators within a worker. A worker runs on a single thread, so a
/// store needs no locking of its own.
pub trait StateWriter: KWriter<StoreKey, Change<StateBytes>> {

}

/// All state stores have to implement this reader.
///
/// A reader is owned by the one who reads and is read once, during resume.
pub trait StateReader: KReader<StoreKey, Change<StateBytes>> {

}

impl<P: StateWriter + ?Sized> StateWriter for Box<P> {

}

impl<P: StateReader + ?Sized> StateReader for Box<P> {

}

/// The summary of a change to the state store: the same key, and the kind
/// of the change to the state in place of the change.
pub open spec fn summary_of(change: StoreChangeView) -> StoreChangeSummaryView {
    KChange(
        change.0,
        match change.1 {
            Change::Upsert(state_change) => Change::Upsert(state_change.change_type()),
            Change::Discard => Change::Discard,
        },
    )
}

/// Summarizes a change to the state store for garbage collection, without
/// copying any state.
pub fn summarize(change: &StoreChange) -> (summary: StoreChangeSummary)
    ensures
        summary@ == summary_of(change@),
{
    let kind = match &change.1 {
        Change::Upsert(state_change) => Change::Upsert(state_change.change_type()),
        Change::Discard => Change::Discard,
    };
    KChange(change.0.clone(), kind)
}

/// The summary of a change to the state store does not depend on the state
/// that the change carries: two changes under the same key whose changes to
/// the state are of the same kind have the same summary.
pub proof fn lemma_summary_ignores_state(first: StoreChangeView, second: StoreChangeView)
    requires
        first.0 == second.0,
        first.1 is Upsert <==> second.1 is Upsert,
        first.1 is Upsert ==> first.1->Upsert_0.change_type() == second.1->Upsert_0.change_type(),
    ensures
        summary_of(first) == summary_of(second),
{
}

} // verus!
