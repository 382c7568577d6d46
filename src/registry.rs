use vstd::prelude::*;
use slab::Slab;

verus! {

#[verifier::external_type_specification]
#[verifier::external_body]
#[verifier::reject_recursive_types(T)]
pub struct ExSlab<T>(Slab<T>);

/// The occupied entries of a slab of channel handles, by key.
pub uninterp spec fn slab_entries(s: Slab<u64>) -> Map<usize, u64>;

/// Relies on `Slab::new`: a new slab holds no entry.
#[verifier::external_body]
fn slab_new() -> (r: Slab<u64>)
    ensures
        slab_entries(r).dom() == Set::<usize>::empty(),
{
    Slab::new()
}

/// Relies on `Slab::insert`: the value is stored under a key that was vacant, which
/// is returned.
#[verifier::external_body]
fn slab_insert(s: &mut Slab<u64>, v: u64) -> (k: usize)
    requires
        slab_entries(*old(s)).len() < usize::MAX,
    ensures
        !slab_entries(*old(s)).contains_key(k),
        slab_entries(*final(s)) == slab_entries(*old(s)).insert(k, v),
{
    s.insert(v)
}

/// Relies on `Slab::try_remove`: an occupied key is vacated and its value returned;
/// a vacant key leaves the slab as it was.
#[verifier::external_body]
fn slab_try_remove(s: &mut Slab<u64>, k: usize) -> (r: Option<u64>)
    ensures
        slab_entries(*final(s)) == slab_entries(*old(s)).remove(k),
        r is Some <==> slab_entries(*old(s)).contains_key(k),
        r is Some ==> r->0 == slab_entries(*old(s))[k],
{
    s.try_remove(k)
}

/// Relies on `Slab::len`: the number of stored values.
#[verifier::external_body]
fn slab_len(s: &Slab<u64>) -> (r: usize)
    ensures
        r == slab_entries(*s).len(),
{
    s.len()
}

/// Relies on `Slab::iter`: every occupied entry once, in increasing key order.
#[verifier::external_body]
fn slab_entries_in_order(s: &Slab<u64>) -> (r: Vec<(usize, u64)>)
    ensures
        forall|i: int| 0 <= i < r@.len() ==> slab_entries(*s).contains_key(#[trigger] r@[i].0)
            && slab_entries(*s)[r@[i].0] == r@[i].1,
        forall|k: usize| slab_entries(*s).contains_key(k) ==> exists|i: int| 0 <= i < r@.len() && #[trigger] r@[i].0 == k,
        forall|i: int, j: int| 0 <= i < j < r@.len() ==> r@[i].0 < r@[j].0,
{
    s.iter().map(|(k, v)| (k, *v)).collect()
}

/// `t` lists every entry of `m` once, by increasing slot id.
pub open spec fn lists_entries(t: Seq<(usize, u64)>, m: Map<usize, u64>) -> bool {
    &&& forall|i: int| 0 <= i < t.len() ==> m.contains_key(#[trigger] t[i].0) && m[t[i].0] == t[i].1
    &&& forall|k: usize| m.contains_key(k) ==> exists|i: int| 0 <= i < t.len() && #[trigger] t[i].0 == k
    &&& forall|i: int, j: int| 0 <= i < j < t.len() ==> t[i].0 < t[j].0
}

/// The table of live subscriber channels. Each entry maps a slot id to the handle of
/// the channel that events for that subscriber are sent on.
pub struct Registry {
    slab: Slab<u64>,
}

impl View for Registry {
    type V = Map<usize, u64>;

    closed spec fn view(&self) -> Map<usize, u64> {
        slab_entries(self.slab)
    }
}

impl Registry {
    pub open spec fn wf(&self) -> bool {
        self@.dom().finite()
    }

    /// An empty registry.
    pub fn new() -> (r: Registry)
        ensures
            r.wf(),
            r@.dom() == Set::<usize>::empty(),
    {
        Registry { slab: slab_new() }
    }

    /// Adds a channel and returns the fresh slot id it is registered under.
    pub fn register(&mut self, channel: u64) -> (slot: usize)
        requires
            old(self).wf(),
            old(self)@.len() < usize::MAX,
        ensures
            final(self).wf(),
            !old(self)@.contains_key(slot),
            final(self)@ == old(self)@.insert(slot, channel),
    {
        slab_insert(&mut self.slab, channel)
    }

    /// Removes the entry of `slot`, if there is one; returns whether there was.
    pub fn deregister(&mut self, slot: usize) -> (removed: bool)
        requires
            old(self).wf(),
        ensures
            final(self).wf(),
            removed == old(self)@.contains_key(slot),
            final(self)@ == old(self)@.remove(slot),
    {
        let r = slab_try_remove(&mut self.slab, slot);
        r.is_some()
    }

    /// The number of live entries.
    pub fn len(&self) -> (r: usize)
        ensures
            r == self@.len(),
    {
        slab_len(&self.slab)
    }

    /// The entries that a published event is sent to: every live entry once, by
    /// increasing slot id.
    pub fn targets(&self) -> (r: Vec<(usize, u64)>)
        ensures
            lists_entries(r@, self@),
    {
        slab_entries_in_order(&self.slab)
    }

    /// Ends a fanout pass: removes, after the whole pass, the entries whose send failed.
    pub fn prune(&mut self, failed: &Vec<usize>)
        requires
            old(self).wf(),
        ensures
            final(self).wf(),
            final(self)@ == old(self)@.remove_keys(failed@.to_set()),
    {
        let mut i: usize = 0;
        while i < failed.len()
            invariant
                i <= failed@.len(),
                self.wf(),
                self@ == old(self)@.remove_keys(failed@.subrange(0, i as int).to_set()),
            decreases failed@.len() - i,
        {
            let ghost before = self@;
            self.deregister(failed[i]);
            assert(failed@.subrange(0, i + 1) =~= failed@.subrange(0, i as int).push(failed@[i as int]));
            proof {
                failed@.subrange(0, i as int).lemma_push_to_set_commute(failed@[i as int]);
            }
            assert(self@ =~= old(self)@.remove_keys(failed@.subrange(0, i + 1).to_set()));
            i = i + 1;
        }
        assert(failed@.subrange(0, failed@.len() as int) =~= failed@);
    }
}

/// Deregistering is idempotent: after a first removal of `slot` the slot is absent,
/// so a second removal reports nothing removed and leaves every entry as it was.
pub proof fn lemma_deregister_idempotent(m: Map<usize, u64>, slot: usize)
    ensures
        !m.remove(slot).contains_key(slot),
        m.remove(slot).remove(slot) == m.remove(slot),
        forall|k: usize| k != slot ==> (#[trigger] m.remove(slot).contains_key(k) <==> m.contains_key(k)),
{
    assert(m.remove(slot).remove(slot) =~= m.remove(slot));
}

/// A failed send isolates only its own subscriber: when the one entry `slot` fails
/// during a fanout over all entries, every other entry was a target of the pass and
/// stays registered, and exactly one entry fewer remains.
pub proof fn lemma_fanout_isolation(m: Map<usize, u64>, targets: Seq<(usize, u64)>, slot: usize)
    requires
        m.dom().finite(),
        m.contains_key(slot),
        lists_entries(targets, m),
    ensures
        m.remove_keys(seq![slot].to_set()).len() == m.len() - 1,
        forall|k: usize| #[trigger] m.contains_key(k) && k != slot ==> m.remove_keys(seq![slot].to_set()).contains_key(k)
            && m.remove_keys(seq![slot].to_set())[k] == m[k]
            && exists|i: int| 0 <= i < targets.len() && #[trigger] targets[i] == (k, m[k]),
        !m.remove_keys(seq![slot].to_set()).contains_key(slot),
{
    let s = seq![slot];
    assert(s.to_set() =~= set![slot]) by {
        assert(s[0] == slot);
    }
    assert(m.remove_keys(s.to_set()) =~= m.remove(slot));
    assert forall|k: usize| #[trigger] m.contains_key(k) && k != slot implies exists|i: int|
        0 <= i < targets.len() && #[trigger] targets[i] == (k, m[k]) by {
        let i = choose|i: int| 0 <= i < targets.len() && #[trigger] targets[i].0 == k;
        assert(targets[i] == (k, m[k]));
    }
}

} // verus!
