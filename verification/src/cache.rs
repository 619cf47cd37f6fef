//! A cache of fetched resources that lets one caller fetch each key and makes
//! the others wait for that fetch.
//!
//! The cache does no fetching itself. A caller asks with `begin` what to do for
//! a key: fetch it, wait for the fetch that another caller has started, or take
//! the value that is there. The caller that fetched reports with `complete`. A
//! failed fetch leaves no trace, so the next caller fetches again.

use crate::pubkey::{keys_view, Pubkey};
use dashmap::DashMap;
use vstd::prelude::*;

verus! {

#[verifier::external_type_specification]
#[verifier::external_body]
#[verifier::reject_recursive_types(K)]
#[verifier::reject_recursive_types(V)]
#[verifier::reject_recursive_types(S)]
pub struct ExDashMap<K, V, S>(DashMap<K, V, S>);

/// The keys that a `DashMap` from keys to slot numbers holds, each with its
/// slot number.
pub uninterp spec fn index_contents(index: DashMap<[u8; 32], usize>) -> Map<Seq<u8>, usize>;

/// The map without any key.
pub open spec fn empty_index() -> Map<Seq<u8>, usize> {
    Map::empty()
}

/// Calls `DashMap::new`, which makes a map that holds nothing.
#[verifier::external_body]
fn index_new() -> (index: DashMap<[u8; 32], usize>)
    ensures
        index_contents(index) == empty_index(),
{
    DashMap::new()
}

/// Calls `DashMap::get` and copies the value out: the slot number stored under
/// `key`, if the map holds the key.
#[verifier::external_body]
fn index_get(index: &DashMap<[u8; 32], usize>, key: &[u8; 32]) -> (slot: Option<usize>)
    ensures
        slot == (if index_contents(*index).contains_key(key@) {
            Some(index_contents(*index)[key@])
        } else {
            None
        }),
{
    index.get(key).map(|entry| *entry)
}

/// Calls `DashMap::insert`, which stores `slot` under `key` and leaves every
/// other key as it was.
#[verifier::external_body]
fn index_insert(index: &mut DashMap<[u8; 32], usize>, key: [u8; 32], slot: usize)
    ensures
        index_contents(*final(index)) == index_contents(*old(index)).insert(key@, slot),
{
    index.insert(key, slot);
}

/// What the cache holds for a key.
pub enum Entry<V> {
    /// A caller is fetching the value.
    Pending,
    /// The value was fetched.
    Ready(V),
}

/// What a caller that asks for a key is told.
#[derive(Clone, Copy, Debug, PartialEq, Eq, Structural)]
pub enum Claim {
    /// The key is new: the caller fetches the value and reports the outcome.
    Fetch,
    /// Another caller is fetching the value: the caller waits and asks again.
    Wait,
    /// The value is there.
    Hit,
}

/// What a caller that asks for `key` is told.
pub open spec fn claim_of<V>(entries: Map<Seq<u8>, Entry<V>>, key: Seq<u8>) -> Claim {
    if !entries.contains_key(key) {
        Claim::Fetch
    } else if entries[key] is Pending {
        Claim::Wait
    } else {
        Claim::Hit
    }
}

/// The entries after a caller has asked for `key`: a new key is marked as
/// being fetched.
pub open spec fn after_begin<V>(entries: Map<Seq<u8>, Entry<V>>, key: Seq<u8>) -> Map<
    Seq<u8>,
    Entry<V>,
> {
    if entries.contains_key(key) {
        entries
    } else {
        entries.insert(key, Entry::Pending)
    }
}

/// The entries after the fetch of `key` has ended. A value is kept unless one
/// is there already; a failure removes the mark that the key is being fetched.
pub open spec fn after_complete<V>(
    entries: Map<Seq<u8>, Entry<V>>,
    key: Seq<u8>,
    outcome: Option<V>,
) -> Map<Seq<u8>, Entry<V>> {
    if entries.contains_key(key) && entries[key] is Ready {
        entries
    } else {
        match outcome {
            Some(value) => entries.insert(key, Entry::Ready(value)),
            None => entries.remove(key),
        }
    }
}

/// The value that is there for `key`.
pub open spec fn ready_value<V>(entries: Map<Seq<u8>, Entry<V>>, key: Seq<u8>) -> Option<V> {
    if entries.contains_key(key) {
        match entries[key] {
            Entry::Ready(value) => Some(value),
            Entry::Pending => None,
        }
    } else {
        None
    }
}

/// The entries after `n` callers in a row have asked for `key`.
pub open spec fn after_requests<V>(entries: Map<Seq<u8>, Entry<V>>, key: Seq<u8>, n: nat) -> Map<
    Seq<u8>,
    Entry<V>,
>
    decreases n,
{
    if n == 0 {
        entries
    } else {
        after_requests(after_begin(entries, key), key, (n - 1) as nat)
    }
}

/// The number of callers that are told to fetch when `n` callers in a row ask
/// for `key`.
pub open spec fn fetches_started<V>(entries: Map<Seq<u8>, Entry<V>>, key: Seq<u8>, n: nat) -> nat
    decreases n,
{
    if n == 0 {
        0
    } else {
        let first: nat = if claim_of(entries, key) == Claim::Fetch {
            1
        } else {
            0
        };
        first + fetches_started(after_begin(entries, key), key, (n - 1) as nat)
    }
}

/// Once a key is known, no caller is told to fetch it, and asking changes
/// nothing.
pub proof fn lemma_known_key_is_not_fetched<V>(entries: Map<Seq<u8>, Entry<V>>, key: Seq<u8>, n: nat)
    requires
        entries.contains_key(key),
    ensures
        fetches_started(entries, key, n) == 0,
        after_requests(entries, key, n) == entries,
    decreases n,
{
    if n > 0 {
        lemma_known_key_is_not_fetched(entries, key, (n - 1) as nat);
    }
}

/// Single flight: however many callers ask for a key before its fetch has
/// ended, at most one of them is told to fetch; exactly one where the key was
/// new. When the fetch then ends with a value, that value is there for all of
/// them, and it stays.
pub proof fn lemma_single_flight<V>(entries: Map<Seq<u8>, Entry<V>>, key: Seq<u8>, n: nat, value: V)
    requires
        n >= 1,
    ensures
        fetches_started(entries, key, n) <= 1,
        !entries.contains_key(key) ==> fetches_started(entries, key, n) == 1,
        !entries.contains_key(key) ==> ready_value(
            after_complete(after_requests(entries, key, n), key, Some(value)),
            key,
        ) == Some(value),
        !entries.contains_key(key) ==> claim_of(
            after_complete(after_requests(entries, key, n), key, Some(value)),
            key,
        ) == Claim::Hit,
{
    let next = after_begin(entries, key);
    lemma_known_key_is_not_fetched(next, key, (n - 1) as nat);
    assert(fetches_started(entries, key, n) == (if claim_of(entries, key) == Claim::Fetch {
        1nat
    } else {
        0nat
    }) + fetches_started(next, key, (n - 1) as nat));
    assert(after_requests(entries, key, n) == after_requests(next, key, (n - 1) as nat));
}

/// A value that is there stays, whatever is asked or reported for its key.
pub proof fn lemma_ready_stays<V>(
    entries: Map<Seq<u8>, Entry<V>>,
    key: Seq<u8>,
    outcome: Option<V>,
)
    requires
        ready_value(entries, key) is Some,
    ensures
        after_begin(entries, key) == entries,
        after_complete(entries, key, outcome) == entries,
        claim_of(entries, key) == Claim::Hit,
{
}

/// No failure is cached: when the fetch of a new key fails, the next caller is
/// told to fetch again, and a value that this second fetch brings is kept.
pub proof fn lemma_failure_is_not_cached<V>(entries: Map<Seq<u8>, Entry<V>>, key: Seq<u8>, value: V)
    requires
        !entries.contains_key(key),
    ensures
        claim_of(entries, key) == Claim::Fetch,
        after_complete(after_begin(entries, key), key, None) == entries,
        claim_of(after_complete(after_begin(entries, key), key, None), key) == Claim::Fetch,
        ready_value(
            after_complete(
                after_begin(after_complete(after_begin(entries, key), key, None), key),
                key,
                Some(value),
            ),
            key,
        ) == Some(value),
{
    assert(after_complete(after_begin(entries, key), key, None) =~= entries);
}

/// Asking or reporting for one key leaves every other key as it was.
pub proof fn lemma_other_keys_untouched<V>(
    entries: Map<Seq<u8>, Entry<V>>,
    key: Seq<u8>,
    other: Seq<u8>,
    outcome: Option<V>,
)
    requires
        key != other,
    ensures
        after_begin(entries, key).contains_key(other) == entries.contains_key(other),
        after_complete(entries, key, outcome).contains_key(other) == entries.contains_key(other),
        entries.contains_key(other) ==> after_begin(entries, key)[other] == entries[other]
            && after_complete(entries, key, outcome)[other] == entries[other],
{
}

/// The entries after a caller has asked for each key of `keys`, in order.
pub open spec fn begun<V>(entries: Map<Seq<u8>, Entry<V>>, keys: Seq<Seq<u8>>) -> Map<
    Seq<u8>,
    Entry<V>,
>
    decreases keys.len(),
{
    if keys.len() == 0 {
        entries
    } else {
        after_begin(begun(entries, keys.drop_last()), keys.last())
    }
}

/// The keys that a caller who asks for each key of `keys`, in order, is told
/// to fetch: those that were new at their turn.
pub open spec fn claimed<V>(entries: Map<Seq<u8>, Entry<V>>, keys: Seq<Seq<u8>>) -> Seq<Seq<u8>>
    decreases keys.len(),
{
    if keys.len() == 0 {
        Seq::empty()
    } else if claim_of(begun(entries, keys.drop_last()), keys.last()) == Claim::Fetch {
        claimed(entries, keys.drop_last()).push(keys.last())
    } else {
        claimed(entries, keys.drop_last())
    }
}

/// The entries after the fetch of each key of `keys` has failed.
pub open spec fn abandoned<V>(entries: Map<Seq<u8>, Entry<V>>, keys: Seq<Seq<u8>>) -> Map<
    Seq<u8>,
    Entry<V>,
>
    decreases keys.len(),
{
    if keys.len() == 0 {
        entries
    } else {
        after_complete(abandoned(entries, keys.drop_last()), keys.last(), None)
    }
}

/// The entries after the fetch of each key of `keys` has brought the value at
/// the same place in `values`, the last key reporting first.
pub open spec fn stored<V>(entries: Map<Seq<u8>, Entry<V>>, keys: Seq<Seq<u8>>, values: Seq<V>)
    -> Map<Seq<u8>, Entry<V>>
    decreases keys.len(),
{
    if keys.len() == 0 || values.len() == 0 {
        entries
    } else {
        stored(
            after_complete(entries, keys.last(), Some(values.last())),
            keys.drop_last(),
            values.drop_last(),
        )
    }
}

/// The views of `values`.
pub open spec fn views<V: View>(values: Seq<V>) -> Seq<V::V> {
    Seq::new(values.len(), |i: int| values[i]@)
}

/// Whether a value is there for every key of `keys`.
pub open spec fn all_ready<V>(entries: Map<Seq<u8>, Entry<V>>, keys: Seq<Seq<u8>>) -> bool {
    forall|i: int| 0 <= i < keys.len() ==> ready_value(entries, #[trigger] keys[i]) is Some
}

/// Asking for keys whose values are there starts no fetch and changes
/// nothing.
pub proof fn lemma_ready_keys_need_no_fetch<V>(entries: Map<Seq<u8>, Entry<V>>, keys: Seq<Seq<u8>>)
    requires
        all_ready(entries, keys),
    ensures
        begun(entries, keys) == entries,
        claimed(entries, keys).len() == 0,
    decreases keys.len(),
{
    if keys.len() > 0 {
        assert forall|i: int| 0 <= i < keys.drop_last().len() implies ready_value(
            entries,
            #[trigger] keys.drop_last()[i],
        ) is Some by {
            assert(keys.drop_last()[i] == keys[i]);
        }
        lemma_ready_keys_need_no_fetch(entries, keys.drop_last());
        assert(ready_value(entries, keys[keys.len() - 1]) is Some);
    }
}

/// The state of one slot of the cache.
enum Slot<V> {
    Vacant,
    Pending,
    Ready(V),
}

/// A cache of values of type `V` under keys of 32 bytes. Its view maps each
/// key that is known to what is there for it, a value by its own view.
pub struct ResourceCache<V: View> {
    index: DashMap<[u8; 32], usize>,
    slots: Vec<Slot<V>>,
}

impl<V: View> View for ResourceCache<V> {
    type V = Map<Seq<u8>, Entry<V::V>>;

    closed spec fn view(&self) -> Map<Seq<u8>, Entry<V::V>> {
        Map::new(
            |key: Seq<u8>|
                index_contents(self.index).contains_key(key) && !(self.slots@[index_contents(
                    self.index,
                )[key] as int] is Vacant),
            |key: Seq<u8>|
                match self.slots@[index_contents(self.index)[key] as int] {
                    Slot::Ready(value) => Entry::Ready(value@),
                    _ => Entry::Pending,
                },
        )
    }
}

/// What an optional value holds.
pub open spec fn outcome_view<V: View>(outcome: Option<V>) -> Option<V::V> {
    match outcome {
        Some(value) => Some(value@),
        None => None,
    }
}

impl<V: View> ResourceCache<V> {
    /// Every key has a slot of its own.
    pub closed spec fn wf(&self) -> bool {
        &&& forall|key: Seq<u8>| #[trigger]
            index_contents(self.index).contains_key(key) ==> index_contents(self.index)[key]
                < self.slots@.len()
        &&& forall|a: Seq<u8>, b: Seq<u8>|
            index_contents(self.index).contains_key(a) && index_contents(self.index).contains_key(b)
                && a != b ==> index_contents(self.index)[a] != index_contents(self.index)[b]
    }

    /// A cache that holds nothing.
    pub fn new() -> (r: Self)
        ensures
            r.wf(),
            r@ == Map::<Seq<u8>, Entry<V::V>>::empty(),
    {
        let r = ResourceCache { index: index_new(), slots: Vec::new() };
        assert(r@ =~= Map::<Seq<u8>, Entry<V::V>>::empty());
        r
    }

    /// Asks what to do for `key`, and marks a new key as being fetched by the
    /// caller.
    pub fn begin(&mut self, key: &[u8; 32]) -> (r: Claim)
        requires
            old(self).wf(),
        ensures
            final(self).wf(),
            r == claim_of(old(self)@, key@),
            final(self)@ == after_begin(old(self)@, key@),
    {
        match index_get(&self.index, key) {
            Some(slot) => {
                match &self.slots[slot] {
                    Slot::Ready(_) => Claim::Hit,
                    Slot::Pending => Claim::Wait,
                    Slot::Vacant => {
                        self.slots.set(slot, Slot::Pending);
                        assert(self@ =~= after_begin(old(self)@, key@));
                        Claim::Fetch
                    },
                }
            },
            None => {
                let slot = self.slots.len();
                self.slots.push(Slot::Pending);
                index_insert(&mut self.index, *key, slot);
                assert(self@ =~= after_begin(old(self)@, key@));
                Claim::Fetch
            },
        }
    }

    /// Reports how the fetch of `key` ended: with a value, or with a failure
    /// (`None`).
    pub fn complete(&mut self, key: &[u8; 32], outcome: Option<V>)
        requires
            old(self).wf(),
        ensures
            final(self).wf(),
            final(self)@ == after_complete(old(self)@, key@, outcome_view(outcome)),
    {
        match index_get(&self.index, key) {
            Some(slot) => {
                let ready = match &self.slots[slot] {
                    Slot::Ready(_) => true,
                    _ => false,
                };
                if !ready {
                    match outcome {
                        Some(value) => {
                            self.slots.set(slot, Slot::Ready(value));
                        },
                        None => {
                            self.slots.set(slot, Slot::Vacant);
                        },
                    }
                }
                assert(self@ =~= after_complete(old(self)@, key@, outcome_view(outcome)));
            },
            None => {
                match outcome {
                    Some(value) => {
                        let slot = self.slots.len();
                        self.slots.push(Slot::Ready(value));
                        index_insert(&mut self.index, *key, slot);
                    },
                    None => {},
                }
                assert(self@ =~= after_complete(old(self)@, key@, outcome_view(outcome)));
            },
        }
    }

    /// The value that is there for `key`.
    pub fn get(&self, key: &[u8; 32]) -> (r: Option<&V>)
        requires
            self.wf(),
        ensures
            match r {
                Some(value) => ready_value(self@, key@) == Some(value@),
                None => ready_value(self@, key@) is None,
            },
    {
        match index_get(&self.index, key) {
            Some(slot) => {
                match &self.slots[slot] {
                    Slot::Ready(value) => Some(value),
                    _ => None,
                }
            },
            None => None,
        }
    }

    /// Asks for each key of `keys`, in order, and returns those that the
    /// caller has to fetch.
    pub fn begin_all(&mut self, keys: &Vec<Pubkey>) -> (r: Vec<Pubkey>)
        requires
            old(self).wf(),
        ensures
            final(self).wf(),
            final(self)@ == begun(old(self)@, keys_view(keys@)),
            keys_view(r@) == claimed(old(self)@, keys_view(keys@)),
    {
        let mut to_fetch: Vec<Pubkey> = Vec::new();
        let mut i: usize = 0;
        proof {
            assert(keys_view(keys@.subrange(0, 0)) =~= Seq::<Seq<u8>>::empty());
            assert(keys_view(to_fetch@) =~= Seq::<Seq<u8>>::empty());
        }
        while i < keys.len()
            invariant
                i <= keys@.len(),
                self.wf(),
                self@ == begun(old(self)@, keys_view(keys@.subrange(0, i as int))),
                keys_view(to_fetch@) == claimed(old(self)@, keys_view(keys@.subrange(0, i as int))),
            decreases keys@.len() - i,
        {
            let ghost before = keys_view(to_fetch@);
            let claim = self.begin(&keys[i].bytes);
            proof {
                let upto = keys_view(keys@.subrange(0, i + 1));
                assert(upto.drop_last() =~= keys_view(keys@.subrange(0, i as int)));
                assert(upto.last() == keys@[i as int]@);
            }
            match claim {
                Claim::Fetch => {
                    to_fetch.push(keys[i]);
                    assert(keys_view(to_fetch@) =~= before.push(keys@[i as int]@));
                },
                _ => {},
            }
            i += 1;
        }
        assert(keys@.subrange(0, i as int) =~= keys@);
        to_fetch
    }

    /// Reports that the fetch of each key of `keys` has failed.
    pub fn abandon_all(&mut self, keys: &Vec<Pubkey>)
        requires
            old(self).wf(),
        ensures
            final(self).wf(),
            final(self)@ == abandoned(old(self)@, keys_view(keys@)),
    {
        let mut i: usize = 0;
        proof {
            assert(keys_view(keys@.subrange(0, 0)) =~= Seq::<Seq<u8>>::empty());
        }
        while i < keys.len()
            invariant
                i <= keys@.len(),
                self.wf(),
                self@ == abandoned(old(self)@, keys_view(keys@.subrange(0, i as int))),
            decreases keys@.len() - i,
        {
            self.complete(&keys[i].bytes, None);
            proof {
                let upto = keys_view(keys@.subrange(0, i + 1));
                assert(upto.drop_last() =~= keys_view(keys@.subrange(0, i as int)));
                assert(upto.last() == keys@[i as int]@);
            }
            i += 1;
        }
        assert(keys@.subrange(0, i as int) =~= keys@);
    }

    /// Reports that the fetch of each key of `keys` has brought the value at
    /// the same place in `values`.
    pub fn complete_all(&mut self, keys: &Vec<Pubkey>, values: Vec<V>)
        requires
            old(self).wf(),
            keys@.len() == values@.len(),
        ensures
            final(self).wf(),
            final(self)@ == stored(old(self)@, keys_view(keys@), views(values@)),
    {
        let mut values = values;
        let ghost all = views(values@);
        let mut i: usize = keys.len();
        proof {
            assert(keys_view(keys@).subrange(0, i as int) =~= keys_view(keys@));
            assert(all.subrange(0, i as int) =~= all);
        }
        while i > 0
            invariant
                i <= keys@.len(),
                self.wf(),
                values@.len() == i,
                all.len() == keys@.len(),
                views(values@) == all.subrange(0, i as int),
                stored(self@, keys_view(keys@).subrange(0, i as int), all.subrange(0, i as int))
                    == stored(old(self)@, keys_view(keys@), all),
            decreases i,
        {
            let ghost before = self@;
            let ghost held = views(values@);
            let value = values.pop().unwrap();
            i -= 1;
            proof {
                assert(value@ == held[i as int]);
                let ks = keys_view(keys@).subrange(0, i + 1);
                let vs = all.subrange(0, i + 1);
                assert(ks.last() == keys@[i as int]@);
                assert(vs.last() == value@);
                assert(ks.drop_last() =~= keys_view(keys@).subrange(0, i as int));
                assert(vs.drop_last() =~= all.subrange(0, i as int));
                assert(views(values@) =~= all.subrange(0, i as int));
            }
            self.complete(&keys[i].bytes, Some(value));
        }
    }
}

} // verus!
