//! Dedup state: which announcement ids have already been handled, per
//! competition and per category. Purely in-memory; a function of its inputs.

use vstd::prelude::*;
use std::collections::HashMap;
use std::collections::HashSet;
use crate::models::NoticeType;

verus! {

broadcast use vstd::std_specs::hash::group_hash_axioms;

/// A small numeric code for each category, all below 8.
pub open spec fn kind_code(k: NoticeType) -> u64 {
    match k {
        NoticeType::Normal => 0,
        NoticeType::NewChallenge => 1,
        NoticeType::NewHint => 2,
        NoticeType::FirstBlood => 3,
        NoticeType::SecondBlood => 4,
        NoticeType::ThirdBlood => 5,
    }
}

/// The tracking key of a (competition, category) pair, packed into one
/// integer so that the table can be keyed by a plain `u64`.
pub open spec fn track_key(match_id: u32, kind: NoticeType) -> u64 {
    ((match_id as u64) * 8 + kind_code(kind)) as u64
}

/// Distinct (competition, category) pairs pack to distinct keys.
pub proof fn lemma_track_key_injective(m1: u32, k1: NoticeType, m2: u32, k2: NoticeType)
    ensures
        track_key(m1, k1) == track_key(m2, k2) ==> m1 == m2 && k1 == k2,
{
}

/// Computes [`track_key`].
fn track_key_of(match_id: u32, kind: NoticeType) -> (key: u64)
    ensures
        key == track_key(match_id, kind),
{
    let code: u64 = match kind {
        NoticeType::Normal => 0,
        NoticeType::NewChallenge => 1,
        NoticeType::NewHint => 2,
        NoticeType::FirstBlood => 3,
        NoticeType::SecondBlood => 4,
        NoticeType::ThirdBlood => 5,
    };
    (match_id as u64) * 8 + code
}

/// Records which announcement ids have been handled for each
/// (competition, category) pair. The recorded set for a pair only ever
/// grows: ids are competition-scoped and bounded, so nothing is evicted.
pub struct NoticeTracker {
    seen_ids: HashMap<u64, HashSet<u64>>,
}

impl NoticeTracker {
    /// The set of ids recorded as handled for a (competition, category) pair.
    pub closed spec fn seen_set(self, match_id: u32, kind: NoticeType) -> Set<u64> {
        if self.seen_ids@.contains_key(track_key(match_id, kind)) {
            self.seen_ids@[track_key(match_id, kind)]@
        } else {
            Set::<u64>::empty()
        }
    }

    /// A fresh tracker: nothing is recorded for any pair.
    pub fn new() -> (t: Self)
        ensures
            forall|m: u32, k: NoticeType| #[trigger] t.seen_set(m, k) == Set::<u64>::empty(),
    {
        NoticeTracker { seen_ids: HashMap::new() }
    }

    /// Whether `notice_id` has been recorded for the pair. An announcement
    /// is new exactly when this is false.
    pub fn is_seen(&self, match_id: u32, notice_type: NoticeType, notice_id: u64) -> (r: bool)
        ensures
            r == self.seen_set(match_id, notice_type).contains(notice_id),
    {
        let key = track_key_of(match_id, notice_type);
        match self.seen_ids.get(&key) {
            Some(ids) => ids.contains(&notice_id),
            None => false,
        }
    }

    /// Records `notice_id` as handled for the pair. Idempotent; never
    /// removes anything, and leaves every other pair untouched.
    pub fn mark_seen(&mut self, match_id: u32, notice_type: NoticeType, notice_id: u64)
        ensures
            final(self).seen_set(match_id, notice_type) == old(self).seen_set(
                match_id,
                notice_type,
            ).insert(notice_id),
            forall|m2: u32, k2: NoticeType|
                !(m2 == match_id && k2 == notice_type) ==> #[trigger] final(self).seen_set(m2, k2)
                    == old(self).seen_set(m2, k2),
    {
        let key = track_key_of(match_id, notice_type);
        let mut ids: HashSet<u64> = match self.seen_ids.remove(&key) {
            Some(s) => s,
            None => HashSet::new(),
        };
        ids.insert(notice_id);
        self.seen_ids.insert(key, ids);
        proof {
            assert forall|m2: u32, k2: NoticeType|
                !(m2 == match_id && k2 == notice_type) implies #[trigger] self.seen_set(
                m2,
                k2,
            ) == old(self).seen_set(m2, k2) by {
                lemma_track_key_injective(m2, k2, match_id, notice_type);
            }
        }
    }

    /// Records every id in `notice_ids` as handled for the pair, in one
    /// step; used at startup to mark the fetched history as already
    /// handled. Grows the recorded set, never replaces it.
    pub fn mark_all_seen(&mut self, match_id: u32, notice_type: NoticeType, notice_ids: Vec<u64>)
        ensures
            final(self).seen_set(match_id, notice_type) == old(self).seen_set(
                match_id,
                notice_type,
            ).union(notice_ids@.to_set()),
            forall|m2: u32, k2: NoticeType|
                !(m2 == match_id && k2 == notice_type) ==> #[trigger] final(self).seen_set(m2, k2)
                    == old(self).seen_set(m2, k2),
    {
        let mut i: usize = 0;
        while i < notice_ids.len()
            invariant
                i <= notice_ids.len(),
                self.seen_set(match_id, notice_type) == old(self).seen_set(
                    match_id,
                    notice_type,
                ).union(notice_ids@.take(i as int).to_set()),
                forall|m2: u32, k2: NoticeType|
                    !(m2 == match_id && k2 == notice_type) ==> #[trigger] self.seen_set(
                        m2,
                        k2,
                    ) == old(self).seen_set(m2, k2),
            decreases notice_ids.len() - i,
        {
            self.mark_seen(match_id, notice_type, notice_ids[i]);
            proof {
                assert(notice_ids@.take(i + 1 as int) =~= notice_ids@.take(i as int).push(
                    notice_ids@[i as int],
                ));
                notice_ids@.take(i as int).lemma_push_to_set_commute(notice_ids@[i as int]);
                assert(old(self).seen_set(match_id, notice_type).union(
                    notice_ids@.take(i as int).to_set(),
                ).insert(notice_ids@[i as int]) =~= old(self).seen_set(match_id, notice_type).union(
                    notice_ids@.take(i + 1 as int).to_set(),
                ));
            }
            i += 1;
        }
        proof {
            assert(notice_ids@.take(notice_ids@.len() as int) =~= notice_ids@);
        }
    }
}

} // verus!
