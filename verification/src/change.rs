//! The change log model: single changes to a key, the kind of a change
//! without its value, and the two capabilities by which a store takes part
//! in a log.
//!
//! A log is an ordered sequence of changes. Replaying it in the order in
//! which it was appended rebuilds what was written: for each key the last
//! change decides.

use vstd::prelude::*;

verus! {

/// The kind of a change, without its value.
#[derive(Debug, Clone, Copy, PartialEq, Eq, Hash, Structural)]
pub enum ChangeType {
    /// The key was set to a value.
    Upsert,
    /// The key was removed.
    Discard,
}

impl View for ChangeType {
    type V = ChangeType;

    open spec fn view(&self) -> ChangeType {
        *self
    }
}

/// A change to a key: either it is set to a value, or it is removed.
#[derive(Debug)]
pub enum Change<V> {
    /// Set the key to this value, whether or not it had one.
    Upsert(V),
    /// Remove the key and its value.
    Discard,
}

impl<V: View> View for Change<V> {
    type V = Change<V::V>;

    open spec fn view(&self) -> Change<V::V> {
        match self {
            Change::Upsert(value) => Change::Upsert(value@),
            Change::Discard => Change::Discard,
        }
    }
}

impl<V> Change<V> {
    /// The kind of this change.
    pub open spec fn spec_change_type(&self) -> ChangeType {
        match self {
            Change::Upsert(_) => ChangeType::Upsert,
            Change::Discard => ChangeType::Discard,
        }
    }

    /// The kind of this change. The value of an upsert is not looked at.
    #[verifier::when_used_as_spec(spec_change_type)]
    pub fn change_type(&self) -> (kind: ChangeType)
        ensures
            kind == self.spec_change_type(),
    {
        match self {
            Change::Upsert(_) => ChangeType::Upsert,
            Change::Discard => ChangeType::Discard,
        }
    }
}

/// A change to a key within a log.
#[derive(Debug)]
pub struct KChange<K, V>(pub K, pub Change<V>);

impl<K: View, V: View> View for KChange<K, V> {
    type V = KChange<K::V, V::V>;

    open spec fn view(&self) -> KChange<K::V, V::V> {
        KChange(self.0@, self.1@)
    }
}

/// What a sequence of changes stands for.
pub open spec fn change_views<K: View, V: View>(kchanges: Seq<KChange<K, V>>) -> Seq<
    KChange<K::V, V::V>,
> {
    Seq::new(kchanges.len(), |i: int| kchanges[i]@)
}

/// A map after one change was applied to it.
pub open spec fn apply_change<K, V>(m: Map<K, V>, kchange: KChange<K, V>) -> Map<K, V> {
    match kchange.1 {
        Change::Upsert(value) => m.insert(kchange.0, value),
        Change::Discard => m.remove(kchange.0),
    }
}

/// A map after the changes of a log were applied to it, first to last.
pub open spec fn apply_changes<K, V>(m: Map<K, V>, log: Seq<KChange<K, V>>) -> Map<K, V>
    decreases log.len(),
{
    if log.len() == 0 {
        m
    } else {
        apply_change(apply_changes(m, log.drop_last()), log.last())
    }
}

/// What a key is mapped to, if it is mapped.
pub open spec fn lookup<K, V>(m: Map<K, V>, key: K) -> Option<V> {
    if m.contains_key(key) {
        Some(m[key])
    } else {
        None
    }
}

/// What a key is mapped to once this change was its last: the value of an
/// upsert, nothing after a discard.
pub open spec fn outcome<V>(change: Change<V>) -> Option<V> {
    match change {
        Change::Upsert(value) => Some(value),
        Change::Discard => None,
    }
}

/// Something that changes to keys can be written to.
///
/// Writing appends one change. A later change to a key supersedes the
/// earlier ones, so the same key may be written any number of times.
pub trait KWriter<K, V> {
    /// Writes one change.
    fn write(&mut self, kchange: KChange<K, V>);
}

/// Something that the changes it retains can be read from.
///
/// The changes to one key come in the order in which they were written.
/// `None` says that there are no more.
pub trait KReader<K, V> {
    /// Reads the next change.
    fn read(&mut self) -> Option<KChange<K, V>>;
}

impl<K, V, P: KWriter<K, V> + ?Sized> KWriter<K, V> for Box<P> {
    /// Writes the change to the boxed writer: the change is handed on as it
    /// is, and the box holds afterwards what that write left.
    fn write(&mut self, kchange: KChange<K, V>)
        ensures
            exists|target: &mut P|
                &*target == &**old(self) && &*final(target) == &**final(self)
                    && #[trigger] call_ensures(<P as KWriter<K, V>>::write, (target, kchange), ()),
    {
        let target: &mut P = &mut **self;
        target.write(kchange)
    }
}

impl<K, V, P: KReader<K, V> + ?Sized> KReader<K, V> for Box<P> {
    /// Reads the next change from the boxed reader: what that read
    /// returned is returned as it is, and the box holds afterwards what
    /// that read left.
    fn read(&mut self) -> (next: Option<KChange<K, V>>)
        ensures
            exists|source: &mut P|
                &*source == &**old(self) && &*final(source) == &**final(self)
                    && #[trigger] call_ensures(<P as KReader<K, V>>::read, (source,), next),
    {
        let source: &mut P = &mut **self;
        source.read()
    }
}

/// The kind of a change does not depend on its value: two changes that are
/// both upserts, or both discards, have the same kind, whatever they carry.
pub proof fn lemma_change_type_ignores_value<V, W>(first: Change<V>, second: Change<W>)
    requires
        first is Upsert <==> second is Upsert,
    ensures
        first.change_type() == second.change_type(),
{
}

/// The kind of a change is that of its view.
pub proof fn lemma_change_type_of_view<V: View>(change: Change<V>)
    ensures
        change@.change_type() == change.change_type(),
{
}

/// Last write wins: after a log was applied, a key whose last change stands
/// at `i` is mapped as that change says.
pub proof fn lemma_last_change_decides<K, V>(m: Map<K, V>, log: Seq<KChange<K, V>>, i: int)
    requires
        0 <= i < log.len(),
        forall|j: int| i < j < log.len() ==> (#[trigger] log[j]).0 != log[i].0,
    ensures
        lookup(apply_changes(m, log), log[i].0) == outcome(log[i].1),
    decreases log.len(),
{
    if i < log.len() - 1 {
        lemma_last_change_decides(m, log.drop_last(), i);
    }
}

/// A key that no change of the log names is mapped as it was before.
pub proof fn lemma_unchanged_key_keeps_value<K, V>(m: Map<K, V>, log: Seq<KChange<K, V>>, key: K)
    requires
        forall|j: int| 0 <= j < log.len() ==> (#[trigger] log[j]).0 != key,
    ensures
        lookup(apply_changes(m, log), key) == lookup(m, key),
    decreases log.len(),
{
    if log.len() > 0 {
        lemma_unchanged_key_keeps_value(m, log.drop_last(), key);
    }
}

} // verus!
