//! The snapshot that resume builds: all state of the dataflow, by step and
//! within a step by state key.
//!
//! The changes to the state of the dataflow are replayed into a
//! [`FlowStateBytes`] in the order in which they were written. For each key
//! the last change decides. Each step then claims its [`StepStateBytes`],
//! and with that the snapshot is taken apart again.

use crate::change::{
    apply_change, apply_changes, change_views, lookup, outcome, Change, KChange, KWriter,
};
use crate::keys::{FlowKey, FlowKeyView, StateKey, StepId};
use crate::state::{FlowChange, FlowChangeView, StateBytes};
use crate::table::{entry_key_views, enumerates, key_views, Table};
use vstd::prelude::*;
use vstd::std_specs::vec::into_iter_elts;

verus! {

/// What a [`StepStateBytes`] stands for: the bytes under each state key.
pub type StepView = Map<Seq<char>, Seq<u8>>;

/// What a [`FlowStateBytes`] stands for: the state of each step for which
/// any is held.
pub type FlowView = Map<Seq<char>, StepView>;

/// The state of a step within the state of a dataflow: empty where nothing
/// is held for that step.
pub open spec fn step_of(flow: FlowView, step: Seq<char>) -> StepView {
    if flow.contains_key(step) {
        flow[step]
    } else {
        Map::empty()
    }
}

/// The state under a flow key within the state of a dataflow.
pub open spec fn flow_lookup(flow: FlowView, key: FlowKeyView) -> Option<Seq<u8>> {
    lookup(step_of(flow, key.0), key.1)
}

/// The state of a dataflow after one change: the change is applied to the
/// state of its step, which from then on is held, be it empty.
pub open spec fn apply_flow_change(flow: FlowView, kchange: FlowChangeView) -> FlowView {
    flow.insert(
        kchange.0.0,
        apply_change(step_of(flow, kchange.0.0), KChange(kchange.0.1, kchange.1)),
    )
}

/// The state of a dataflow after a log of changes was replayed into it,
/// first to last.
pub open spec fn replay(flow: FlowView, log: Seq<FlowChangeView>) -> FlowView
    decreases log.len(),
{
    if log.len() == 0 {
        flow
    } else {
        apply_flow_change(replay(flow, log.drop_last()), log.last())
    }
}

/// A diagnostic that claiming state during resume can raise. It is no
/// failure: the step goes on with the state that was handed out.
#[derive(Debug, Clone, Copy, PartialEq, Eq, Structural)]
pub enum ResumeWarning {
    /// There is no resume state for the step, but other steps have state.
    /// Was a step added or renamed without its state being set up or
    /// migrated?
    MissingStepState,
}

/// The warning that is due when `step` claims its state from `flow`.
pub open spec fn claim_warning(flow: FlowView, step: Seq<char>) -> Option<ResumeWarning> {
    if !flow.contains_key(step) && !flow.is_empty() {
        Some(ResumeWarning::MissingStepState)
    } else {
        None
    }
}

/// The bytes under each key of a table of state.
spec fn bytes_views(entries: Map<Seq<char>, StateBytes>) -> StepView {
    Map::new(|key: Seq<char>| entries.contains_key(key), |key: Seq<char>| entries[key]@)
}

/// The state under each step of a table of steps.
spec fn step_views(steps: Map<Seq<char>, StepStateBytes>) -> FlowView {
    Map::new(|step: Seq<char>| steps.contains_key(step), |step: Seq<char>| steps[step]@)
}

/// A snapshot of all state within a step.
///
/// Built up during the resume process, and handed to the step when it
/// starts.
#[derive(Debug)]
pub struct StepStateBytes {
    entries: Table<StateKey, StateBytes>,
}

impl View for StepStateBytes {
    type V = StepView;

    closed spec fn view(&self) -> StepView {
        bytes_views(self.entries@)
    }
}

impl Default for StepStateBytes {
    fn default() -> (state: Self)
        ensures
            state@ == StepView::empty(),
    {
        StepStateBytes { entries: Table::new() }
    }
}

impl StepStateBytes {
    /// Takes the state under `key` out of the snapshot, if there is any.
    pub fn remove(&mut self, key: &StateKey) -> (removed: Option<StateBytes>)
        ensures
            final(self)@ == old(self)@.remove(key@),
            removed is Some <==> old(self)@.contains_key(key@),
            removed matches Some(bytes) ==> bytes@ == old(self)@[key@],
    {
        self.entries.remove(key)
    }

    /// Tells whether the snapshot holds no state.
    pub fn is_empty(&self) -> (empty: bool)
        ensures
            empty == self@.is_empty(),
    {
        self.entries.is_empty()
    }

    /// The keys under which the snapshot holds state, each once, in no
    /// promised order.
    pub fn keys(&self) -> (keys: Vec<StateKey>)
        ensures
            enumerates(key_views(keys@), self@.dom()),
    {
        self.entries.keys()
    }

    /// Hands out the state, each key once with its bytes, in no promised
    /// order.
    pub fn into_entries(self) -> (entries: Vec<(StateKey, StateBytes)>)
        ensures
            enumerates(entry_key_views(entries@), self@.dom()),
            forall|i: int|
                0 <= i < entries@.len() ==> self@[#[trigger] entries@[i].0@] == entries@[i].1@,
    {
        let entries = self.entries.into_entries();
        assert forall|i: int| 0 <= i < entries@.len() implies self@[#[trigger] entries@[i].0@]
            == entries@[i].1@ by {
            assert(entry_key_views(entries@)[i] == entries@[i].0@);
        }
        entries
    }

    /// Applies a log of changes to the snapshot, first to last.
    pub fn write_many(&mut self, kchanges: Vec<KChange<StateKey, StateBytes>>)
        ensures
            final(self)@ == apply_changes(old(self)@, change_views(kchanges@)),
    {
        let ghost items = kchanges@;
        let ghost log = change_views(items);
        for kchange in it: kchanges.into_iter()
            invariant
                it.seq() == items,
                log == change_views(items),
                self@ == apply_changes(old(self)@, log.take(it.index())),
        {
            assert(log.take(it.index() + 1).drop_last() =~= log.take(it.index()));
            self.write(kchange);
        }
        assert(log.take(log.len() as int) =~= log);
    }
}

impl KWriter<StateKey, StateBytes> for StepStateBytes {
    /// Applies the change: an upsert sets the bytes under its key, a
    /// discard removes the key.
    fn write(&mut self, kchange: KChange<StateKey, StateBytes>)
        ensures
            final(self)@ == apply_change(old(self)@, kchange@),
    {
        let KChange(key, change) = kchange;
        match change {
            Change::Upsert(bytes) => {
                self.entries.insert(key, bytes);
            },
            Change::Discard => {
                self.entries.remove(&key);
            },
        }
    }
}

impl IntoIterator for StepStateBytes {
    type Item = (StateKey, StateBytes);

    type IntoIter = std::vec::IntoIter<(StateKey, StateBytes)>;

    /// Hands out the state, each key once with its bytes, in no promised
    /// order.
    fn into_iter(self) -> (iter: std::vec::IntoIter<(StateKey, StateBytes)>)
        ensures
            enumerates(entry_key_views(into_iter_elts(iter)), self@.dom()),
            forall|i: int|
                0 <= i < into_iter_elts(iter).len() ==> self@[#[trigger] into_iter_elts(
                    iter,
                )[i].0@] == into_iter_elts(iter)[i].1@,
    {
        self.into_entries().into_iter()
    }
}

/// What a step gets when it claims its state.
#[derive(Debug)]
pub struct ClaimedState {
    /// The state of the step; empty if none was held for it.
    pub state: StepStateBytes,
    /// The warning to pass on, if one is due.
    pub warning: Option<ResumeWarning>,
}

/// A snapshot of all state within a dataflow.
///
/// Built up during the resume process, and taken apart as each step claims
/// its state.
#[derive(Debug)]
pub struct FlowStateBytes {
    steps: Table<StepId, StepStateBytes>,
}

impl View for FlowStateBytes {
    type V = FlowView;

    closed spec fn view(&self) -> FlowView {
        step_views(self.steps@)
    }
}

impl FlowStateBytes {
    /// Makes a snapshot that holds no state for any step.
    pub fn new() -> (flow: Self)
        ensures
            flow@ == FlowView::empty(),
    {
        FlowStateBytes { steps: Table::new() }
    }

    /// Claims the state of a step: takes it out of the snapshot and hands it
    /// over.
    ///
    /// A step for which nothing is held gets empty state. That is worth a
    /// warning if the snapshot holds state for other steps, and
    /// unremarkable if it holds none at all.
    pub fn remove(&mut self, step_id: &StepId) -> (claim: ClaimedState)
        ensures
            final(self)@ == old(self)@.remove(step_id@),
            claim.state@ == step_of(old(self)@, step_id@),
            claim.warning == claim_warning(old(self)@, step_id@),
    {
        match self.steps.remove(step_id) {
            Some(state) => ClaimedState { state, warning: None },
            None => {
                let warning = if !self.is_empty() {
                    Some(ResumeWarning::MissingStepState)
                } else {
                    None
                };
                ClaimedState { state: StepStateBytes::default(), warning }
            },
        }
    }

    /// Tells whether the snapshot holds state for no step.
    pub fn is_empty(&self) -> (empty: bool)
        ensures
            empty == self@.is_empty(),
    {
        self.steps.is_empty()
    }

    /// The steps for which the snapshot holds state, each once, in no
    /// promised order.
    pub fn keys(&self) -> (keys: Vec<StepId>)
        ensures
            enumerates(key_views(keys@), self@.dom()),
    {
        self.steps.keys()
    }

    /// Replays a log of changes into the snapshot, first to last.
    pub fn write_many(&mut self, kchanges: Vec<FlowChange>)
        ensures
            final(self)@ == replay(old(self)@, change_views(kchanges@)),
    {
        let ghost items = kchanges@;
        let ghost log = change_views(items);
        for kchange in it: kchanges.into_iter()
            invariant
                it.seq() == items,
                log == change_views(items),
                self@ == replay(old(self)@, log.take(it.index())),
        {
            assert(log.take(it.index() + 1).drop_last() =~= log.take(it.index()));
            self.write(kchange);
        }
        assert(log.take(log.len() as int) =~= log);
    }
}

impl KWriter<FlowKey, StateBytes> for FlowStateBytes {
    /// Applies the change to the state of its step. The snapshot holds
    /// state for that step from then on, be it empty.
    fn write(&mut self, kchange: KChange<FlowKey, StateBytes>)
        ensures
            final(self)@ == apply_flow_change(old(self)@, kchange@),
    {
        let KChange(FlowKey(step_id, state_key), change) = kchange;
        let mut state = match self.steps.remove(&step_id) {
            Some(state) => state,
            None => StepStateBytes::default(),
        };
        state.write(KChange(state_key, change));
        self.steps.insert(step_id, state);
    }
}

/// Last write wins: after a replay, the state under a flow key whose last
/// change stands at `i` of the log is the value of that change if it is an
/// upsert, and there is none if it is a discard.
pub proof fn lemma_replay_last_write_wins(flow: FlowView, log: Seq<FlowChangeView>, i: int)
    requires
        0 <= i < log.len(),
        forall|j: int| i < j < log.len() ==> (#[trigger] log[j]).0 != log[i].0,
    ensures
        flow_lookup(replay(flow, log), log[i].0) == outcome(log[i].1),
    decreases log.len(),
{
    if i < log.len() - 1 {
        lemma_replay_last_write_wins(flow, log.drop_last(), i);
    }
}

/// After a replay, the state under a flow key that no change of the log
/// names is what it was before.
pub proof fn lemma_replay_keeps_unchanged(
    flow: FlowView,
    log: Seq<FlowChangeView>,
    key: FlowKeyView,
)
    requires
        forall|j: int| 0 <= j < log.len() ==> (#[trigger] log[j]).0 != key,
    ensures
        flow_lookup(replay(flow, log), key) == flow_lookup(flow, key),
    decreases log.len(),
{
    if log.len() > 0 {
        lemma_replay_keeps_unchanged(flow, log.drop_last(), key);
    }
}

/// After a replay, state is held for exactly the steps for which it was
/// held before and the steps that a change of the log names.
pub proof fn lemma_replay_steps(flow: FlowView, log: Seq<FlowChangeView>, step: Seq<char>)
    ensures
        replay(flow, log).contains_key(step) <==> flow.contains_key(step) || exists|j: int|
            0 <= j < log.len() && (#[trigger] log[j]).0.0 == step,
    decreases log.len(),
{
    if log.len() > 0 {
        let earlier = log.drop_last();
        lemma_replay_steps(flow, earlier, step);
        if exists|j: int| 0 <= j < log.len() && (#[trigger] log[j]).0.0 == step {
            let j = choose|j: int| 0 <= j < log.len() && (#[trigger] log[j]).0.0 == step;
            if j < earlier.len() {
                assert(log[j] == earlier[j]);
            }
        }
    }
}

/// Claiming is safe to repeat: once a step has claimed its state, a second
/// claim for the same step yields empty state and leaves the snapshot as
/// the first claim left it. It raises a warning exactly when other steps
/// still have state to claim.
pub proof fn lemma_second_claim_is_empty(flow: FlowView, step: Seq<char>)
    ensures
        step_of(flow.remove(step), step) == StepView::empty(),
        flow.remove(step).remove(step) == flow.remove(step),
        claim_warning(flow.remove(step), step) is Some <==> !flow.remove(step).is_empty(),
{
}

/// A claim leaves the state of every other step as it was.
pub proof fn lemma_claim_keeps_other_steps(flow: FlowView, step: Seq<char>, other: Seq<char>)
    requires
        other != step,
    ensures
        flow.remove(step).contains_key(other) == flow.contains_key(other),
        step_of(flow.remove(step), other) == step_of(flow, other),
{
}

/// A cold start raises no warning: from a snapshot that holds no state at
/// all, every claim yields empty state without a warning.
pub proof fn lemma_cold_start_is_silent(step: Seq<char>)
    ensures
        step_of(FlowView::empty(), step) == StepView::empty(),
        claim_warning(FlowView::empty(), step) is None,
{
}

} // verus!
