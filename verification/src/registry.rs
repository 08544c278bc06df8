//! The registry of live transactions, by correlation index.

use crate::context::{TrContext, TrContextView, TrType};
use crate::error::QvOpenApiError;
use std::collections::HashMap;
use vstd::std_specs::hash::spec_keys_iter;
use vstd::std_specs::iter::IteratorSpec;
use vstd::prelude::*;

verus! {

/// Whether a transaction registered at `request_timestamp` is older than
/// `max_age` at the time `now`. A clock reading that lies before the
/// registration counts as no age at all.
pub open spec fn is_expired(request_timestamp: u64, now: u64, max_age: u64) -> bool {
    now > request_timestamp && now - request_timestamp > max_age
}

/// The indices of the transactions among `entries` that are older than
/// `max_age` at the time `now`.
pub open spec fn expired_indices(entries: Map<i32, TrContextView>, now: u64, max_age: u64) -> Set<
    i32,
> {
    Set::new(
        |k: i32| entries.contains_key(k) && is_expired(entries[k].request_timestamp, now, max_age),
    )
}

/// `contexts` are the values of `entries`, each once, in some order.
pub open spec fn holds_exactly(contexts: Seq<TrContext>, entries: Map<i32, TrContextView>) -> bool {
    &&& forall|i: int|
        0 <= i < contexts.len() ==> (#[trigger] contexts[i]).wf() && entries.contains_key(
            contexts[i].tr_index,
        ) && entries[contexts[i].tr_index] == contexts[i]@
    &&& forall|i: int, j: int|
        0 <= i < j < contexts.len() ==> contexts[i].tr_index != contexts[j].tr_index
    &&& forall|k: i32| #[trigger]
        entries.contains_key(k) ==> exists|i: int|
            0 <= i < contexts.len() && contexts[i].tr_index == k
}

/// The transactions that are in flight. An index is owned by at most one of
/// them, and none of them has ended.
#[derive(Debug)]
pub struct TrRegistry {
    contexts: HashMap<i32, TrContext>,
}

impl View for TrRegistry {
    type V = Map<i32, TrContextView>;

    closed spec fn view(&self) -> Map<i32, TrContextView> {
        Map::new(|k: i32| self.contexts@.contains_key(k), |k: i32| self.contexts@[k]@)
    }
}

/// The invariant of a registry, on its view: every transaction is filed under
/// the index it owns and has not ended.
pub open spec fn registry_inv(entries: Map<i32, TrContextView>) -> bool {
    forall|k: i32| #[trigger]
        entries.contains_key(k) ==> entries[k].tr_index == k && !entries[k].is_done()
}

impl TrRegistry {
    pub closed spec fn wf(&self) -> bool {
        &&& forall|k: i32| #[trigger] self.contexts@.contains_key(k) ==> self.contexts@[k].wf()
        &&& registry_inv(self@)
    }

    /// A well-formed registry keeps the registry invariant.
    pub proof fn lemma_wf_inv(&self)
        requires
            self.wf(),
        ensures
            registry_inv(self@),
    {
    }

    /// The empty registry.
    pub fn new() -> (registry: TrRegistry)
        ensures
            registry.wf(),
            registry@ == Map::<i32, TrContextView>::empty(),
    {
        let registry = TrRegistry { contexts: HashMap::new() };
        assert(registry@ =~= Map::<i32, TrContextView>::empty());
        registry
    }

    /// Whether a transaction owns `tr_index`.
    pub fn contains(&self, tr_index: i32) -> (live: bool)
        ensures
            live == self@.contains_key(tr_index),
    {
        self.contexts.contains_key(&tr_index)
    }

    /// Files a new transaction under `tr_index`, unless a live one owns it.
    pub fn register(
        &mut self,
        tr_index: i32,
        tr_type: TrType,
        request_timestamp: u64,
        serial: u64,
    ) -> (registered: Result<(), QvOpenApiError>)
        requires
            old(self).wf(),
        ensures
            final(self).wf(),
            old(self)@.contains_key(tr_index) ==> registered == Err::<(), QvOpenApiError>(
                QvOpenApiError::DuplicateIndexError { tr_index },
            ) && final(self)@ == old(self)@,
            !old(self)@.contains_key(tr_index) ==> registered is Ok && final(self)@ == old(self)@.insert(
                tr_index,
                TrContextView {
                    serial,
                    ..TrContextView::fresh(tr_index, tr_type, request_timestamp)
                },
            ),
    {
        if self.contexts.contains_key(&tr_index) {
            return Err(QvOpenApiError::DuplicateIndexError { tr_index });
        }
        let mut context = TrContext::new(tr_index, tr_type, request_timestamp);
        context.serial = serial;
        self.contexts.insert(tr_index, context);
        assert(self@ =~= old(self)@.insert(
            tr_index,
            TrContextView { serial, ..TrContextView::fresh(tr_index, tr_type, request_timestamp) },
        ));
        Ok(())
    }

    /// The transaction that owns `tr_index`, if one does.
    pub fn lookup(&self, tr_index: i32) -> (found: Option<&TrContext>)
        requires
            self.wf(),
        ensures
            match found {
                Some(context) => self@.contains_key(tr_index) && self@[tr_index] == context@
                    && context.wf(),
                None => !self@.contains_key(tr_index),
            },
    {
        self.contexts.get(&tr_index)
    }

    /// Takes the transaction that owns `tr_index` out of the registry. Where
    /// none owns it, nothing changes.
    pub fn remove(&mut self, tr_index: i32) -> (removed: Option<TrContext>)
        requires
            old(self).wf(),
        ensures
            final(self).wf(),
            final(self)@ == old(self)@.remove(tr_index),
            match removed {
                Some(context) => old(self)@.contains_key(tr_index) && old(self)@[tr_index]
                    == context@ && context.wf(),
                None => !old(self)@.contains_key(tr_index),
            },
    {
        let removed = self.contexts.remove(&tr_index);
        assert(self@ =~= old(self)@.remove(tr_index));
        removed
    }

    /// Files a live transaction under the index it owns.
    pub fn restore(&mut self, context: TrContext)
        requires
            old(self).wf(),
            context.wf(),
            !context@.is_done(),
            !old(self)@.contains_key(context.tr_index),
        ensures
            final(self).wf(),
            final(self)@ == old(self)@.insert(context.tr_index, context@),
    {
        let tr_index = context.tr_index;
        let ghost view = context@;
        self.contexts.insert(tr_index, context);
        assert(self@ =~= old(self)@.insert(tr_index, view));
    }

    /// The indices that are owned, each once.
    fn indices(&self) -> (indices: Vec<i32>)
        ensures
            indices@.no_duplicates(),
            forall|k: i32| indices@.contains(k) <==> self.contexts@.contains_key(k),
    {
        let mut indices: Vec<i32> = Vec::new();
        for k in it: self.contexts.keys()
            invariant
                indices@ == it.seq().unref().take(it.index()),
        {
            indices.push(*k);
        }
        proof {
            let keys = spec_keys_iter(&self.contexts).remaining();
            assert(indices@ == keys.unref());
            assert(indices@.to_set() == self.contexts@.dom());
            assert forall|k: i32| indices@.contains(k) <==> self.contexts@.contains_key(k) by {
                assert(indices@.to_set().contains(k) <==> indices@.contains(k));
            }
            assert forall|a: int, b: int|
                0 <= a < indices@.len() && 0 <= b < indices@.len() && a != b implies indices@[a]
                != indices@[b] by {
                assert(keys[a] != keys[b]);
            }
        }
        indices
    }

    /// Whether `k` stands among the first `upto` of `indices`.
    spec fn taken(indices: Seq<i32>, upto: int, k: i32) -> bool {
        exists|m: int| 0 <= m < upto && indices[m] == k
    }

    /// One more index is taken with each step.
    proof fn lemma_taken_next(indices: Seq<i32>, done: int, next: int)
        requires
            0 <= done < indices.len(),
            next == done + 1,
        ensures
            forall|k: i32| #[trigger]
                Self::taken(indices, next, k) <==> (Self::taken(indices, done, k) || k
                    == indices[done]),
    {
        assert forall|k: i32| #[trigger]
            Self::taken(indices, next, k) <==> (Self::taken(indices, done, k) || k
                == indices[done]) by {
            if Self::taken(indices, next, k) {
                let m = choose|m: int| 0 <= m < next && indices[m] == k;
                if m < done {
                    assert(Self::taken(indices, done, k));
                }
            }
            if Self::taken(indices, done, k) {
                let m = choose|m: int| 0 <= m < done && indices[m] == k;
                assert(0 <= m < next && indices[m] == k);
            }
            if k == indices[done] {
                assert(0 <= done < next && indices[done] == k);
            }
        }
    }

    /// Empties the registry and returns every transaction that was live.
    pub fn drain(&mut self) -> (drained: Vec<TrContext>)
        requires
            old(self).wf(),
        ensures
            final(self).wf(),
            final(self)@ == Map::<i32, TrContextView>::empty(),
            holds_exactly(drained@, old(self)@),
    {
        let indices = self.indices();
        let ghost before = self.contexts@;
        let mut drained: Vec<TrContext> = Vec::new();
        let mut i: usize = 0;
        proof {
            assert forall|k: i32| before.contains_key(k) implies Self::position(indices@, k)
                >= 0 by {
                assert(indices@.contains(k));
                Self::lemma_position_of(indices@, k);
            }
        }
        while i < indices.len()
            invariant
                i <= indices.len(),
                indices@.no_duplicates(),
                before == old(self).contexts@,
                forall|k: i32| indices@.contains(k) <==> before.contains_key(k),
                forall|k: i32| #[trigger]
                    self.contexts@.contains_key(k) <==> (before.contains_key(k) && Self::position(
                        indices@,
                        k,
                    ) >= i),
                forall|k: i32| #[trigger]
                    self.contexts@.contains_key(k) ==> self.contexts@[k] == before[k],
                drained@.len() == i,
                forall|j: int| 0 <= j < i ==> (#[trigger] drained@[j]) == before[indices@[j]],
            decreases indices.len() - i,
        {
            let tr_index = indices[i];
            let ghost prev = self.contexts@;
            proof {
                Self::lemma_position(indices@, i as int);
                assert(indices@.contains(tr_index));
                assert(prev.contains_key(tr_index));
            }
            let removed = self.contexts.remove(&tr_index);
            match removed {
                Some(context) => {
                    drained.push(context);
                },
                None => {},
            }
            proof {
                assert(self.contexts@ == prev.remove(tr_index));
                assert forall|k: i32| #[trigger]
                    self.contexts@.contains_key(k) <==> (before.contains_key(k) && Self::position(
                        indices@,
                        k,
                    ) >= i + 1) by {
                    assert(prev.contains_key(k) <==> (before.contains_key(k) && Self::position(
                        indices@,
                        k,
                    ) >= i));
                    if before.contains_key(k) {
                        assert(indices@.contains(k));
                        Self::lemma_position_of(indices@, k);
                    }
                }
            }
            i = i + 1;
        }
        proof {
            assert forall|k: i32| !self.contexts@.contains_key(k) by {
                if before.contains_key(k) {
                    assert(indices@.contains(k));
                    Self::lemma_position_of(indices@, k);
                }
            }
            assert(self@ =~= Map::<i32, TrContextView>::empty());
            assert forall|j: int| 0 <= j < drained@.len() implies (#[trigger] drained@[j]).wf()
                && old(self)@.contains_key(drained@[j].tr_index) && old(self)@[drained@[j].tr_index] == drained@[j]@ && drained@[j].tr_index == indices@[j] by {
                assert(drained@[j] == before[indices@[j]]);
                assert(indices@.contains(indices@[j]));
                assert(old(self)@.contains_key(indices@[j]));
            }
            assert forall|k: i32| #[trigger] old(self)@.contains_key(k) implies exists|j: int|
                0 <= j < drained@.len() && drained@[j].tr_index == k by {
                assert(indices@.contains(k));
                let j = choose|j: int| 0 <= j < indices@.len() && indices@[j] == k;
                assert(drained@[j].tr_index == indices@[j]);
            }
            assert forall|a: int, b: int| 0 <= a < b < drained@.len() implies drained@[a].tr_index
                != drained@[b].tr_index by {
                assert(drained@[a].tr_index == indices@[a]);
                assert(drained@[b].tr_index == indices@[b]);
            }
        }
        drained
    }

    /// Where `k` stands in `indices`.
    spec fn position(indices: Seq<i32>, k: i32) -> int {
        choose|m: int| 0 <= m < indices.len() && indices[m] == k
    }

    /// An index that stands once stands where it is found.
    proof fn lemma_position(indices: Seq<i32>, at: int)
        requires
            indices.no_duplicates(),
            0 <= at < indices.len(),
        ensures
            Self::position(indices, indices[at]) == at,
    {
        let p = Self::position(indices, indices[at]);
        assert(0 <= p < indices.len() && indices[p] == indices[at]);
    }

    /// An index that stands in `indices` has a position there.
    proof fn lemma_position_of(indices: Seq<i32>, k: i32)
        requires
            indices.contains(k),
        ensures
            0 <= Self::position(indices, k) < indices.len(),
            indices[Self::position(indices, k)] == k,
    {
    }

    /// Takes out of the registry, and returns, every transaction that is older
    /// than `max_age` at the time `now`.
    pub fn sweep_expired(&mut self, now: u64, max_age: u64) -> (expired: Vec<TrContext>)
        requires
            old(self).wf(),
        ensures
            final(self).wf(),
            final(self)@ == old(self)@.remove_keys(expired_indices(old(self)@, now, max_age)),
            holds_exactly(
                expired@,
                old(self)@.restrict(expired_indices(old(self)@, now, max_age)),
            ),
    {
        let indices = self.indices();
        let ghost before = self.contexts@;
        let mut expired: Vec<TrContext> = Vec::new();
        let mut i: usize = 0;
        while i < indices.len()
            invariant
                i <= indices.len(),
                indices@.no_duplicates(),
                before == old(self).contexts@,
                old(self).wf(),
                forall|k: i32| indices@.contains(k) <==> before.contains_key(k),
                forall|k: i32|
                    self.contexts@.contains_key(k) <==> (before.contains_key(k) && !(Self::taken(
                        indices@,
                        i as int,
                        k,
                    ) && is_expired(before[k].request_timestamp, now, max_age))),
                forall|k: i32| #[trigger]
                    self.contexts@.contains_key(k) ==> self.contexts@[k] == before[k],
                forall|j: int|
                    0 <= j < expired@.len() ==> before.contains_key(
                        (#[trigger] expired@[j]).tr_index,
                    ) && before[expired@[j].tr_index] == expired@[j] && is_expired(
                        expired@[j].request_timestamp,
                        now,
                        max_age,
                    ) && Self::taken(indices@, i as int, expired@[j].tr_index),
                forall|a: int, b: int|
                    0 <= a < b < expired@.len() ==> expired@[a].tr_index != expired@[b].tr_index,
                forall|m: int|
                    0 <= m < i && is_expired(
                        before[#[trigger] indices@[m]].request_timestamp,
                        now,
                        max_age,
                    ) ==> exists|j: int|
                        0 <= j < expired@.len() && expired@[j].tr_index == indices@[m],
            decreases indices.len() - i,
        {
            let tr_index = indices[i];
            assert(indices@.contains(tr_index));
            assert(!Self::taken(indices@, i as int, tr_index));
            assert(old(self)@.contains_key(tr_index));
            assert(before[tr_index].tr_index == tr_index);
            let ghost done: int = i as int;
            let ghost next: int = i + 1;
            proof {
                Self::lemma_taken_next(indices@, done, next);
            }
            let stale = match self.contexts.get(&tr_index) {
                Some(context) => now > context.request_timestamp && now - context.request_timestamp
                    > max_age,
                None => false,
            };
            if stale {
                let ghost found = expired@;
                let removed = self.contexts.remove(&tr_index);
                match removed {
                    Some(context) => {
                        expired.push(context);
                    },
                    None => {},
                }
                assert forall|m: int|
                    0 <= m < next && is_expired(
                        before[#[trigger] indices@[m]].request_timestamp,
                        now,
                        max_age,
                    ) implies exists|j: int|
                    0 <= j < expired@.len() && expired@[j].tr_index == indices@[m] by {
                    if m < i {
                        let j = choose|j: int|
                            0 <= j < found.len() && found[j].tr_index == indices@[m];
                        assert(expired@[j] == found[j]);
                    } else {
                        assert(expired@[found.len() as int].tr_index == indices@[m]);
                    }
                }
            }
            i = i + 1;
        }
        proof {
            assert forall|k: i32| before.contains_key(k) implies Self::taken(
                indices@,
                indices@.len() as int,
                k,
            ) by {
                assert(indices@.contains(k));
                let m = choose|m: int| 0 <= m < indices@.len() && indices@[m] == k;
            }
            let stale_keys = expired_indices(old(self)@, now, max_age);
            assert(self@ =~= old(self)@.remove_keys(stale_keys));
            assert forall|k: i32| #[trigger] self.contexts@.contains_key(k) implies self.contexts@[k].wf()
                && self@[k].tr_index == k && !self@[k].is_done() by {
                assert(old(self)@.contains_key(k));
            }
            let swept = old(self)@.restrict(stale_keys);
            assert forall|k: i32| #[trigger] swept.contains_key(k) implies exists|j: int|
                0 <= j < expired@.len() && expired@[j].tr_index == k by {
                assert(indices@.contains(k));
                let m = choose|m: int| 0 <= m < indices@.len() && indices@[m] == k;
                assert(is_expired(before[indices@[m]].request_timestamp, now, max_age));
            }
            assert forall|j: int| 0 <= j < expired@.len() implies (#[trigger] expired@[j]).wf()
                && swept.contains_key(expired@[j].tr_index) && swept[expired@[j].tr_index]
                == expired@[j]@ by {
                assert(old(self)@.contains_key(expired@[j].tr_index));
            }
        }
        expired
    }

    /// Whether no transaction is live.
    pub fn is_empty(&self) -> (empty: bool)
        ensures
            empty == (self@ == Map::<i32, TrContextView>::empty()),
    {
        let empty = self.contexts.is_empty();
        proof {
            if empty {
                assert(self.contexts@.dom().len() == 0);
                assert(self.contexts@.dom() =~= Set::<i32>::empty());
                assert(self@ =~= Map::<i32, TrContextView>::empty());
            } else {
                assert(self.contexts@.dom().len() != 0);
                if self@ == Map::<i32, TrContextView>::empty() {
                    assert(self.contexts@.dom() =~= Set::<i32>::empty()) by {
                        assert forall|k: i32| !self.contexts@.dom().contains(k) by {
                            assert(!self@.contains_key(k));
                        }
                    }
                }
            }
        }
        empty
    }

    /// The number of live transactions.
    pub fn len(&self) -> (len: usize)
        ensures
            len == self@.dom().len(),
    {
        assert(self@.dom() =~= self.contexts@.dom());
        self.contexts.len()
    }
}

} // verus!
