//! Reference-counted sharing of immutable terms.
use std::collections::HashMap;
use std::sync::Arc;

use vstd::prelude::*;

verus! {

/// Another handle to the term behind `term`.
///
/// Calls `std::sync::Arc::clone`, which returns a second pointer to the same
/// allocation; the contract claims that both handles hold the same value.
#[verifier::external_body]
pub(crate) fn share<T>(term: &Arc<T>) -> (other: Arc<T>)
    ensures
        other == *term,
{
    Arc::clone(term)
}

/// Whether two handles point at one allocation.
///
/// Calls `std::sync::Arc::ptr_eq`; the contract claims only that handles of
/// one allocation hold the same value.
#[verifier::external_body]
pub(crate) fn same_allocation<T>(left: &Arc<T>, right: &Arc<T>) -> (same: bool)
    ensures
        same ==> *left == *right,
{
    Arc::ptr_eq(left, right)
}

/// The address of the allocation behind `term`, for bucketing only.
///
/// Calls `std::sync::Arc::as_ptr`; nothing is claimed of the address.
#[verifier::external_body]
pub(crate) fn allocation_address<T>(term: &Arc<T>) -> (address: usize) {
    Arc::as_ptr(term) as usize
}

/// Results already computed for shared terms, found again by the allocation of
/// the term. Holding a handle to each term keeps its address from being reused.
pub(crate) struct SharedCache<K, V> {
    slots: HashMap<usize, (Arc<K>, Arc<V>)>,
}

impl<K, V> View for SharedCache<K, V> {
    type V = Map<usize, (K, V)>;

    /// The recorded terms with their results, by the address of the term.
    closed spec fn view(&self) -> Map<usize, (K, V)> {
        self.slots@.map_values(|slot: (Arc<K>, Arc<V>)| (*slot.0, *slot.1))
    }
}

/// What a cache answers for an address, given whether the handle found there
/// points at the allocation that is asked for.
pub open spec fn answer<K, V>(
    slots: Map<usize, (K, V)>,
    address: usize,
    same: bool,
) -> Option<V> {
    if slots.contains_key(address) && same {
        Some(slots[address].1)
    } else {
        None
    }
}

impl<K, V> SharedCache<K, V> {
    /// Whether `value` is recorded as the result for a term equal to `key`.
    pub open spec fn records(&self, key: K, value: V) -> bool {
        exists|address: usize| #[trigger]
            self@.contains_key(address) && self@[address] == (key, value)
    }

    pub fn new() -> (cache: SharedCache<K, V>)
        ensures
            cache@ == Map::<usize, (K, V)>::empty(),
            forall|key: K, value: V| !cache.records(key, value),
    {
        broadcast use vstd::std_specs::hash::group_hash_axioms;

        SharedCache { slots: HashMap::new() }
    }

    /// The term and the result recorded under an address.
    fn slot(&self, address: usize) -> (found: Option<&(Arc<K>, Arc<V>)>)
        ensures
            match found {
                Some(slot) => self@.contains_key(address) && self@[address] == (*slot.0, *slot.1),
                None => !self@.contains_key(address),
            },
    {
        broadcast use vstd::std_specs::hash::group_hash_axioms;

        self.slots.get(&address)
    }

    /// The result in a slot, where the term in it is the `same` allocation as the
    /// one that is asked for.
    fn recall(slot: &(Arc<K>, Arc<V>), same: bool) -> (found: Option<Arc<V>>)
        ensures
            match found {
                Some(value) => same && value == slot.1,
                None => !same,
            },
    {
        if same {
            Some(share(&slot.1))
        } else {
            None
        }
    }

    /// The recorded result for this very term, if there is one.
    ///
    /// The address of the term and the comparison of allocations depend on the
    /// machine: the contract says what is found whatever they are.
    pub fn lookup(&self, key: &Arc<K>) -> (found: Option<Arc<V>>)
        ensures
            exists|address: usize, same: bool|
                {
                    &&& self@.contains_key(address) && same ==> self@[address].0 == **key
                    &&& #[trigger] answer(self@, address, same) == (match found {
                        Some(value) => Some(*value),
                        None => None,
                    })
                },
            found matches Some(value) ==> self.records(**key, *value),
    {
        let address: usize = allocation_address(key);
        match self.slot(address) {
            Some(slot) => {
                let same = same_allocation(&slot.0, key);
                let found = Self::recall(slot, same);
                assert(answer(self@, address, same) == (match found {
                    Some(value) => Some(*value),
                    None => None,
                }));
                found
            },
            None => {
                assert(answer(self@, address, false) == None::<V>);
                None
            },
        }
    }

    /// Records a result for a term, in place of what was recorded under the
    /// address of the term.
    pub fn remember(&mut self, key: &Arc<K>, value: &Arc<V>)
        ensures
            exists|address: usize|
                final(self)@ == #[trigger] old(self)@.insert(address, (**key, **value)),
            final(self).records(**key, **value),
            forall|k: K, v: V| #[trigger]
                final(self).records(k, v) ==> old(self).records(k, v) || (k == **key && v
                    == **value),
    {
        broadcast use vstd::std_specs::hash::group_hash_axioms;

        let address: usize = allocation_address(key);
        self.slots.insert(address, (share(key), share(value)));
        assert(self@ =~= old(self)@.insert(address, (**key, **value)));
        assert(self@.contains_key(address));
        assert forall|k: K, v: V| #[trigger] self.records(k, v) implies old(self).records(k, v) || (
        k == **key && v == **value) by {
            let at = choose|at: usize| #[trigger]
                self@.contains_key(at) && self@[at] == (k, v);
            if at != address {
                assert(old(self)@.contains_key(at));
            }
        }
    }
}

} // verus!
