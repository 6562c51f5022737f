//! Identifiers that scope state to a step of the dataflow, to a routing key
//! within that step, and to the epoch at whose end a snapshot was taken.
//!
//! Every key is a plain value. Two keys are equal when their views are, and
//! each kind of key is totally ordered: step ids and state keys as text,
//! epochs as numbers, composite keys by their components from left to right.

use crate::order::{
    compare_text, compare_u64, lemma_text_order_equal, lemma_text_order_reverse,
    lemma_text_order_transitive, nat_order, text_order, KeyOrder,
};
use crate::table::TableKey;
use std::cmp::Ordering;
use vstd::prelude::*;
use vstd::std_specs::cmp::PartialEqSpecImpl;
use vstd::std_specs::cmp::PartialOrdSpecImpl;

verus! {

/// What a [`FlowKey`] stands for: the step id and the state key.
pub type FlowKeyView = (Seq<char>, Seq<char>);

/// What a [`StoreKey`] stands for: the epoch, the step id and the state key.
pub type StoreKeyView = (nat, Seq<char>, Seq<char>);

/// The order of two flow keys: by step id, then by state key.
pub open spec fn flow_key_order(a: FlowKeyView, b: FlowKeyView) -> KeyOrder {
    text_order(a.0, b.0).and_then(text_order(a.1, b.1))
}

/// The order of two store keys: by epoch, then by step id, then by state key.
pub open spec fn store_key_order(a: StoreKeyView, b: StoreKeyView) -> KeyOrder {
    nat_order(a.0, b.0).and_then(text_order(a.1, b.1).and_then(text_order(a.2, b.2)))
}

/// The standard ordering that says what `order` says.
pub open spec fn ordering_of(order: KeyOrder) -> Ordering {
    match order {
        KeyOrder::Less => Ordering::Less,
        KeyOrder::Equal => Ordering::Equal,
        KeyOrder::Greater => Ordering::Greater,
    }
}

/// The standard ordering that says what `order` says.
#[verifier::when_used_as_spec(ordering_of)]
pub fn std_ordering(order: KeyOrder) -> (res: Ordering)
    ensures
        res == ordering_of(order),
{
    match order {
        KeyOrder::Less => Ordering::Less,
        KeyOrder::Equal => Ordering::Equal,
        KeyOrder::Greater => Ordering::Greater,
    }
}

/// Unique ID for a step in a dataflow.
///
/// Recovery data is keyed off of this so that state is never mixed between
/// operators.
#[derive(Debug, Hash, Ord)]
pub struct StepId(pub String);

impl View for StepId {
    type V = Seq<char>;

    open spec fn view(&self) -> Seq<char> {
        self.0@
    }
}

impl StepId {
    /// Compares two step ids as text.
    pub fn compare(&self, other: &Self) -> (order: KeyOrder)
        ensures
            order == text_order(self@, other@),
            order == KeyOrder::Equal <==> self@ == other@,
    {
        proof {
            lemma_text_order_equal(self@, other@);
        }
        compare_text(self.0.as_str(), other.0.as_str())
    }
}

impl Clone for StepId {
    fn clone(&self) -> (res: Self)
        ensures
            res@ == self@,
    {
        StepId(self.0.clone())
    }
}

impl PartialEq for StepId {
    fn eq(&self, other: &Self) -> (res: bool) {
        self.0 == other.0
    }
}

impl Eq for StepId {

}

impl PartialEqSpecImpl for StepId {
    open spec fn obeys_eq_spec() -> bool {
        true
    }

    open spec fn eq_spec(&self, other: &Self) -> bool {
        self@ == other@
    }
}

impl PartialOrd for StepId {
    fn partial_cmp(&self, other: &Self) -> (res: Option<Ordering>) {
        Some(std_ordering(self.compare(other)))
    }
}

impl PartialOrdSpecImpl for StepId {
    open spec fn obeys_partial_cmp_spec() -> bool {
        true
    }

    open spec fn partial_cmp_spec(&self, other: &Self) -> Option<Ordering> {
        Some(std_ordering(text_order(self@, other@)))
    }
}

impl TableKey for StepId {
    fn same_key(&self, other: &Self) -> (same: bool) {
        self.0 == other.0
    }

    fn copy_key(&self) -> (copy: Self) {
        self.clone()
    }
}

/// Key to route state within a dataflow step.
///
/// This is the key that users see, since users only work with state within
/// a step.
#[derive(Debug, Hash, Ord)]
pub struct StateKey(pub String);

impl View for StateKey {
    type V = Seq<char>;

    open spec fn view(&self) -> Seq<char> {
        self.0@
    }
}

impl StateKey {
    /// Compares two state keys as text.
    pub fn compare(&self, other: &Self) -> (order: KeyOrder)
        ensures
            order == text_order(self@, other@),
            order == KeyOrder::Equal <==> self@ == other@,
    {
        proof {
            lemma_text_order_equal(self@, other@);
        }
        compare_text(self.0.as_str(), other.0.as_str())
    }
}

impl Clone for StateKey {
    fn clone(&self) -> (res: Self)
        ensures
            res@ == self@,
    {
        StateKey(self.0.clone())
    }
}

impl PartialEq for StateKey {
    fn eq(&self, other: &Self) -> (res: bool) {
        self.0 == other.0
    }
}

impl Eq for StateKey {

}

impl PartialEqSpecImpl for StateKey {
    open spec fn obeys_eq_spec() -> bool {
        true
    }

    open spec fn eq_spec(&self, other: &Self) -> bool {
        self@ == other@
    }
}

impl PartialOrd for StateKey {
    fn partial_cmp(&self, other: &Self) -> (res: Option<Ordering>) {
        Some(std_ordering(self.compare(other)))
    }
}

impl PartialOrdSpecImpl for StateKey {
    open spec fn obeys_partial_cmp_spec() -> bool {
        true
    }

    open spec fn partial_cmp_spec(&self, other: &Self) -> Option<Ordering> {
        Some(std_ordering(text_order(self@, other@)))
    }
}

impl TableKey for StateKey {
    fn same_key(&self, other: &Self) -> (same: bool) {
        self.0 == other.0
    }

    fn copy_key(&self) -> (copy: Self) {
        self.clone()
    }
}

/// Key to route state within a whole dataflow.
#[derive(Debug, Hash, Ord)]
pub struct FlowKey(pub StepId, pub StateKey);

impl View for FlowKey {
    type V = FlowKeyView;

    open spec fn view(&self) -> FlowKeyView {
        (self.0@, self.1@)
    }
}

impl FlowKey {
    /// Compares two flow keys: by step id, then by state key.
    pub fn compare(&self, other: &Self) -> (order: KeyOrder)
        ensures
            order == flow_key_order(self@, other@),
            order == KeyOrder::Equal <==> self@ == other@,
    {
        proof {
            lemma_flow_key_order_equal(self@, other@);
        }
        self.0.compare(&other.0).and_then(self.1.compare(&other.1))
    }
}

impl Clone for FlowKey {
    fn clone(&self) -> (res: Self)
        ensures
            res@ == self@,
    {
        FlowKey(self.0.clone(), self.1.clone())
    }
}

impl PartialEq for FlowKey {
    fn eq(&self, other: &Self) -> (res: bool) {
        self.0 == other.0 && self.1 == other.1
    }
}

impl Eq for FlowKey {

}

impl PartialEqSpecImpl for FlowKey {
    open spec fn obeys_eq_spec() -> bool {
        true
    }

    open spec fn eq_spec(&self, other: &Self) -> bool {
        self@ == other@
    }
}

impl PartialOrd for FlowKey {
    fn partial_cmp(&self, other: &Self) -> (res: Option<Ordering>) {
        Some(std_ordering(self.compare(other)))
    }
}

impl PartialOrdSpecImpl for FlowKey {
    open spec fn obeys_partial_cmp_spec() -> bool {
        true
    }

    open spec fn partial_cmp_spec(&self, other: &Self) -> Option<Ordering> {
        Some(std_ordering(flow_key_order(self@, other@)))
    }
}

/// A state snapshot happened at the end of this epoch.
#[derive(Debug, Clone, Copy, Hash, Ord)]
pub struct SnapshotEpoch(pub u64);

impl View for SnapshotEpoch {
    type V = nat;

    open spec fn view(&self) -> nat {
        self.0 as nat
    }
}

impl SnapshotEpoch {
    /// Compares two epochs as numbers.
    pub fn compare(&self, other: &Self) -> (order: KeyOrder)
        ensures
            order == nat_order(self@, other@),
            order == KeyOrder::Equal <==> self@ == other@,
    {
        compare_u64(self.0, other.0)
    }
}

impl PartialEq for SnapshotEpoch {
    fn eq(&self, other: &Self) -> (res: bool) {
        self.0 == other.0
    }
}

impl Eq for SnapshotEpoch {

}

impl PartialEqSpecImpl for SnapshotEpoch {
    open spec fn obeys_eq_spec() -> bool {
        true
    }

    open spec fn eq_spec(&self, other: &Self) -> bool {
        self@ == other@
    }
}

impl PartialOrd for SnapshotEpoch {
    fn partial_cmp(&self, other: &Self) -> (res: Option<Ordering>) {
        Some(std_ordering(self.compare(other)))
    }
}

impl PartialOrdSpecImpl for SnapshotEpoch {
    open spec fn obeys_partial_cmp_spec() -> bool {
        true
    }

    open spec fn partial_cmp_spec(&self, other: &Self) -> Option<Ordering> {
        Some(std_ordering(nat_order(self@, other@)))
    }
}

/// Key to route state within the state store.
///
/// Several store keys may share a flow key across epochs; together they are
/// the history of that flow key.
#[derive(Debug, Hash, Ord)]
pub struct StoreKey(pub SnapshotEpoch, pub FlowKey);

impl View for StoreKey {
    type V = StoreKeyView;

    open spec fn view(&self) -> StoreKeyView {
        (self.0@, self.1.0@, self.1.1@)
    }
}

impl StoreKey {
    /// Compares two store keys: by epoch, then by step id, then by state
    /// key.
    pub fn compare(&self, other: &Self) -> (order: KeyOrder)
        ensures
            order == store_key_order(self@, other@),
            order == KeyOrder::Equal <==> self@ == other@,
    {
        proof {
            lemma_store_key_order_equal(self@, other@);
        }
        self.0.compare(&other.0).and_then(self.1.compare(&other.1))
    }
}

impl Clone for StoreKey {
    fn clone(&self) -> (res: Self)
        ensures
            res@ == self@,
    {
        StoreKey(self.0, self.1.clone())
    }
}

impl PartialEq for StoreKey {
    fn eq(&self, other: &Self) -> (res: bool) {
        self.0 == other.0 && self.1 == other.1
    }
}

impl Eq for StoreKey {

}

impl PartialEqSpecImpl for StoreKey {
    open spec fn obeys_eq_spec() -> bool {
        true
    }

    open spec fn eq_spec(&self, other: &Self) -> bool {
        self@ == other@
    }
}

impl PartialOrd for StoreKey {
    fn partial_cmp(&self, other: &Self) -> (res: Option<Ordering>) {
        Some(std_ordering(self.compare(other)))
    }
}

impl PartialOrdSpecImpl for StoreKey {
    open spec fn obeys_partial_cmp_spec() -> bool {
        true
    }

    open spec fn partial_cmp_spec(&self, other: &Self) -> Option<Ordering> {
        Some(std_ordering(store_key_order(self@, other@)))
    }
}

/// Two flow keys compare as equal exactly when they are the same.
pub proof fn lemma_flow_key_order_equal(a: FlowKeyView, b: FlowKeyView)
    ensures
        flow_key_order(a, b) == KeyOrder::Equal <==> a == b,
{
    lemma_text_order_equal(a.0, b.0);
    lemma_text_order_equal(a.1, b.1);
}

/// Swapping two flow keys reverses their order.
pub proof fn lemma_flow_key_order_reverse(a: FlowKeyView, b: FlowKeyView)
    ensures
        flow_key_order(b, a) == flow_key_order(a, b).reverse(),
{
    lemma_text_order_reverse(a.0, b.0);
    lemma_text_order_reverse(a.1, b.1);
}

/// The order of flow keys is transitive.
pub proof fn lemma_flow_key_order_transitive(a: FlowKeyView, b: FlowKeyView, c: FlowKeyView)
    requires
        flow_key_order(a, b) == KeyOrder::Less,
        flow_key_order(b, c) == KeyOrder::Less,
    ensures
        flow_key_order(a, c) == KeyOrder::Less,
{
    lemma_text_order_equal(a.0, b.0);
    lemma_text_order_equal(b.0, c.0);
    lemma_text_order_equal(a.0, c.0);
    if text_order(a.0, b.0) == KeyOrder::Less && text_order(b.0, c.0) == KeyOrder::Less {
        lemma_text_order_transitive(a.0, b.0, c.0);
    } else if a.0 == b.0 && b.0 == c.0 {
        lemma_text_order_transitive(a.1, b.1, c.1);
    }
}

/// Two store keys compare as equal exactly when they have the same epoch,
/// the same step id and the same state key.
pub proof fn lemma_store_key_order_equal(a: StoreKeyView, b: StoreKeyView)
    ensures
        store_key_order(a, b) == KeyOrder::Equal <==> a == b,
{
    lemma_flow_key_order_equal((a.1, a.2), (b.1, b.2));
}

/// Swapping two store keys reverses their order.
pub proof fn lemma_store_key_order_reverse(a: StoreKeyView, b: StoreKeyView)
    ensures
        store_key_order(b, a) == store_key_order(a, b).reverse(),
{
    lemma_flow_key_order_reverse((a.1, a.2), (b.1, b.2));
}

/// The order of store keys is transitive.
pub proof fn lemma_store_key_order_transitive(a: StoreKeyView, b: StoreKeyView, c: StoreKeyView)
    requires
        store_key_order(a, b) == KeyOrder::Less,
        store_key_order(b, c) == KeyOrder::Less,
    ensures
        store_key_order(a, c) == KeyOrder::Less,
{
    if a.0 == b.0 && b.0 == c.0 {
        lemma_flow_key_order_transitive((a.1, a.2), (b.1, b.2), (c.1, c.2));
    }
}

} // verus!
