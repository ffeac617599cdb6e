//! Decision logic of the poll loop: which fetched announcements are
//! genuinely new, in what order they are delivered, and what a delivery
//! outcome does to the tracker and the queue.
//!
//! The loop itself — timers, fetching, sending — runs in the surrounding
//! application, which calls down here between its I/O steps: fetch, then
//! [`get_new_notices`], then one send and one [`record_outcome`] per new
//! announcement, in order.

use vstd::prelude::*;
use vstd::seq_lib::lemma_multiset_commutative;
use crate::models::Notice;
use crate::models::NoticeView;
use crate::models::NoticeType;
use crate::models::parse_notice_type;
use crate::tracker::NoticeTracker;
use crate::queue::MessageQueue;
use crate::queue::MessageItem;
use crate::queue::fresh_item;
use crate::models::opt_string_view;
use crate::models::clone_opt_string;
use crate::text::message_id;
use crate::text::id_label;

verus! {

/// The views of the elements of a vector of announcements.
pub open spec fn notice_views(s: Seq<Notice>) -> Seq<NoticeView> {
    Seq::new(s.len(), |i: int| s[i]@)
}

/// Holds of an announcement that belongs to category `kind`.
pub open spec fn kind_pred(kind: NoticeType) -> spec_fn(NoticeView) -> bool {
    |n: NoticeView| parse_notice_type(n.notice_type) == Some(kind)
}

/// Holds of an announcement of category `kind` that the tracker has not
/// yet recorded for (`match_id`, `kind`): exactly the ones still owed a
/// delivery.
pub open spec fn new_for_pred(t: NoticeTracker, match_id: u32, kind: NoticeType) -> spec_fn(
    NoticeView,
) -> bool {
    |n: NoticeView|
        parse_notice_type(n.notice_type) == Some(kind) && !t.seen_set(match_id, kind).contains(
            n.id,
        )
}

/// Announcement timestamps never decrease along the sequence.
pub open spec fn time_sorted(s: Seq<NoticeView>) -> bool {
    forall|i: int, j: int| 0 <= i <= j < s.len() ==> s[i].time <= s[j].time
}

/// Keeps the announcements of one category, in fetch order.
pub fn filter_by_type(notices: &Vec<Notice>, notice_type: NoticeType) -> (r: Vec<Notice>)
    ensures
        notice_views(r@) == notice_views(notices@).filter(kind_pred(notice_type)),
{
    let mut out: Vec<Notice> = Vec::new();
    let mut i: usize = 0;
    while i < notices.len()
        invariant
            i <= notices.len(),
            notice_views(out@) == notice_views(notices@).take(i as int).filter(
                kind_pred(notice_type),
            ),
        decreases notices.len() - i,
    {
        proof {
            reveal(Seq::filter);
            assert(notice_views(notices@).take(i + 1 as int).drop_last() =~= notice_views(
                notices@,
            ).take(i as int));
            assert(notice_views(notices@).take(i + 1 as int).last() == notices@[i as int]@);
        }
        let matches_kind = match NoticeType::from_str(notices[i].notice_type.as_str()) {
            Some(k) => k == notice_type,
            None => false,
        };
        if matches_kind {
            out.push(notices[i].clone());
            proof {
                assert(notice_views(out@) =~= notice_views(out@.drop_last()).push(
                    out@.last()@,
                ));
            }
        }
        i += 1;
    }
    proof {
        assert(notice_views(notices@).take(notices@.len() as int) =~= notice_views(notices@));
    }
    out
}

/// Inserting an element anywhere in a sequence adds exactly it to the
/// sequence's multiset.
proof fn lemma_insert_to_multiset(s: Seq<NoticeView>, i: int, x: NoticeView)
    requires
        0 <= i <= s.len(),
    ensures
        s.insert(i, x).to_multiset() == s.to_multiset().insert(x),
{
    broadcast use vstd::seq_lib::group_to_multiset_ensures;

    let a = s.subrange(0, i);
    let b = s.subrange(i, s.len() as int);
    assert(s =~= a + b);
    lemma_multiset_commutative(a, b);
    lemma_multiset_commutative(a.push(x), b);
    assert(s.insert(i, x).to_multiset() =~= s.to_multiset().insert(x));
}

/// Where a stable sort places `x` in an already sorted sequence: after
/// every announcement no later than `x`, before every strictly later
/// one.
pub open spec fn insert_by_time(s: Seq<NoticeView>, x: NoticeView) -> Seq<NoticeView>
    decreases s.len(),
{
    if s.len() == 0 {
        seq![x]
    } else if s.last().time > x.time {
        insert_by_time(s.drop_last(), x).push(s.last())
    } else {
        s.push(x)
    }
}

/// The stable sort of announcements by timestamp: elements are taken in
/// fetch order and each is inserted after its equals, so equal
/// timestamps keep their relative order.
pub open spec fn sorted_by_time_spec(v: Seq<NoticeView>) -> Seq<NoticeView>
    decreases v.len(),
{
    if v.len() == 0 {
        Seq::<NoticeView>::empty()
    } else {
        insert_by_time(sorted_by_time_spec(v.drop_last()), v.last())
    }
}

/// A position bounded below by the strictly-later suffix and above by a
/// no-later neighbour is exactly where [`insert_by_time`] puts `x`.
proof fn lemma_insert_position(s: Seq<NoticeView>, j: int, x: NoticeView)
    requires
        0 <= j <= s.len(),
        forall|k: int| j <= k < s.len() ==> (#[trigger] s[k]).time > x.time,
        j > 0 ==> s[j - 1].time <= x.time,
    ensures
        insert_by_time(s, x) == s.insert(j, x),
    decreases s.len(),
{
    if j == s.len() {
        if s.len() == 0 {
            assert(insert_by_time(s, x) =~= s.insert(j, x));
        } else {
            assert(s.last().time <= x.time);
            assert(insert_by_time(s, x) == s.push(x));
            assert(s.insert(j, x) =~= s.push(x));
        }
    } else {
        assert(s[s.len() - 1].time > x.time);
        let shorter = s.drop_last();
        lemma_insert_position(shorter, j, x);
        assert(insert_by_time(s, x) == shorter.insert(j, x).push(s.last()));
        shorter.insert_ensures(j, x);
        s.insert_ensures(j, x);
        assert(shorter.insert(j, x).push(s.last()) =~= s.insert(j, x));
    }
}

/// Inserting right after the last element no later than `x` keeps a
/// sorted sequence sorted.
proof fn lemma_sorted_insert(s: Seq<NoticeView>, j: int, x: NoticeView)
    requires
        0 <= j <= s.len(),
        time_sorted(s),
        forall|k: int| j <= k < s.len() ==> (#[trigger] s[k]).time > x.time,
        j > 0 ==> s[j - 1].time <= x.time,
    ensures
        time_sorted(s.insert(j, x)),
{
    let u = s.insert(j, x);
    s.insert_ensures(j, x);
    assert forall|p: int, q: int| 0 <= p <= q < u.len() implies u[p].time <= u[q].time by {
        if p < j {
            assert(u[p] == s[p]);
        } else if p == j {
            assert(u[p] == x);
        } else {
            assert(u[p] == s[p - 1]);
        }
        if q < j {
            assert(u[q] == s[q]);
        } else if q == j {
            assert(u[q] == x);
        } else {
            assert(u[q] == s[q - 1]);
        }
    }
}

/// Sorts announcements by timestamp, ascending; announcements with equal
/// timestamps keep their relative order. The result holds exactly the
/// given announcements.
fn sort_notices_by_time(v: Vec<Notice>) -> (r: Vec<Notice>)
    ensures
        notice_views(r@) == sorted_by_time_spec(notice_views(v@)),
        time_sorted(notice_views(r@)),
        notice_views(r@).to_multiset() == notice_views(v@).to_multiset(),
{
    broadcast use vstd::seq_lib::group_to_multiset_ensures;

    let mut out: Vec<Notice> = Vec::new();
    let mut i: usize = 0;
    while i < v.len()
        invariant
            i <= v.len(),
            time_sorted(notice_views(out@)),
            notice_views(out@) == sorted_by_time_spec(notice_views(v@.take(i as int))),
            notice_views(out@).to_multiset() == notice_views(v@.take(i as int)).to_multiset(),
        decreases v.len() - i,
    {
        let x = v[i].clone();
        let mut j: usize = out.len();
        while j > 0 && out[j - 1].time > x.time
            invariant
                j <= out.len(),
                forall|k: int|
                    j <= k < out@.len() ==> (#[trigger] notice_views(out@)[k]).time > x@.time,
            decreases j,
        {
            j -= 1;
        }
        let ghost before = notice_views(out@);
        let ghost prev = out@;
        out.insert(j, x);
        proof {
            broadcast use vstd::seq_lib::group_to_multiset_ensures;

            before.insert_ensures(j as int, x@);
            prev.insert_ensures(j as int, x);
            assert(notice_views(out@) =~= before.insert(j as int, x@));
            lemma_sorted_insert(before, j as int, x@);
            lemma_insert_to_multiset(before, j as int, x@);
            lemma_insert_position(before, j as int, x@);
            assert(notice_views(v@.take(i + 1 as int)).drop_last() =~= notice_views(
                v@.take(i as int),
            ));
            assert(notice_views(v@.take(i + 1 as int)).last() == v@[i as int]@);
            assert(notice_views(v@.take(i + 1 as int)) =~= notice_views(v@.take(i as int)).push(
                v@[i as int]@,
            ));
            assert(notice_views(v@.take(i as int)).push(v@[i as int]@).to_multiset()
                == notice_views(v@.take(i as int)).to_multiset().insert(v@[i as int]@));
        }
        i += 1;
    }
    proof {
        assert(notice_views(v@.take(v@.len() as int)) =~= notice_views(v@));
    }
    out
}

/// The announcements of category `kind` that are new for
/// (`match_id`, `kind`), sorted by timestamp ascending: precisely what
/// one poll tick must deliver for that pair, in delivery order.
pub fn get_new_notices(
    tracker: &NoticeTracker,
    match_id: u32,
    kind: NoticeType,
    notices: &Vec<Notice>,
) -> (r: Vec<Notice>)
    ensures
        notice_views(r@) == sorted_by_time_spec(
            notice_views(notices@).filter(new_for_pred(*tracker, match_id, kind)),
        ),
        time_sorted(notice_views(r@)),
        notice_views(r@).to_multiset() == notice_views(notices@).filter(
            new_for_pred(*tracker, match_id, kind),
        ).to_multiset(),
        forall|k: int|
            0 <= k < r@.len() ==> new_for_pred(*tracker, match_id, kind)(
                #[trigger] notice_views(r@)[k],
            ),
{
    broadcast use vstd::seq_lib::group_to_multiset_ensures;

    let mut selected: Vec<Notice> = Vec::new();
    let mut i: usize = 0;
    while i < notices.len()
        invariant
            i <= notices.len(),
            notice_views(selected@) == notice_views(notices@).take(i as int).filter(
                new_for_pred(*tracker, match_id, kind),
            ),
        decreases notices.len() - i,
    {
        proof {
            reveal(Seq::filter);
            assert(notice_views(notices@).take(i + 1 as int).drop_last() =~= notice_views(
                notices@,
            ).take(i as int));
            assert(notice_views(notices@).take(i + 1 as int).last() == notices@[i as int]@);
        }
        let matches_kind = match NoticeType::from_str(notices[i].notice_type.as_str()) {
            Some(k) => k == kind,
            None => false,
        };
        if matches_kind && !tracker.is_seen(match_id, kind, notices[i].id) {
            selected.push(notices[i].clone());
            proof {
                assert(notice_views(selected@) =~= notice_views(selected@.drop_last()).push(
                    selected@.last()@,
                ));
            }
        }
        i += 1;
    }
    proof {
        assert(notice_views(notices@).take(notices@.len() as int) =~= notice_views(notices@));
    }
    let r = sort_notices_by_time(selected);
    proof {
        let pred = new_for_pred(*tracker, match_id, kind);
        let filtered = notice_views(notices@).filter(pred);
        broadcast use vstd::seq_lib::group_filter_ensures;

        assert forall|k: int| 0 <= k < r@.len() implies pred(
            #[trigger] notice_views(r@)[k],
        ) by {
            assert(notice_views(r@).contains(notice_views(r@)[k]));
            assert(notice_views(r@).to_multiset().count(notice_views(r@)[k]) > 0);
            assert(filtered.contains(notice_views(r@)[k]));
        }
    }
    r
}

/// Stable insertion adds exactly its element to the multiset.
proof fn lemma_insert_by_time_multiset(s: Seq<NoticeView>, x: NoticeView)
    ensures
        insert_by_time(s, x).to_multiset() == s.to_multiset().insert(x),
    decreases s.len(),
{
    broadcast use vstd::seq_lib::group_to_multiset_ensures;

    if s.len() == 0 {
        assert(s =~= Seq::<NoticeView>::empty());
        assert(insert_by_time(s, x) =~= s.push(x));
    } else if s.last().time > x.time {
        let shorter = s.drop_last();
        lemma_insert_by_time_multiset(shorter, x);
        assert(s =~= shorter.push(s.last()));
        assert(insert_by_time(s, x).to_multiset() == shorter.to_multiset().insert(x).insert(
            s.last(),
        ));
        assert(shorter.to_multiset().insert(x).insert(s.last()) =~= s.to_multiset().insert(x));
    }
}

/// A stable sort holds exactly the announcements it was given.
pub proof fn lemma_sorted_spec_multiset(v: Seq<NoticeView>)
    ensures
        sorted_by_time_spec(v).to_multiset() == v.to_multiset(),
    decreases v.len(),
{
    broadcast use vstd::seq_lib::group_to_multiset_ensures;

    if v.len() > 0 {
        lemma_sorted_spec_multiset(v.drop_last());
        lemma_insert_by_time_multiset(sorted_by_time_spec(v.drop_last()), v.last());
        assert(v =~= v.drop_last().push(v.last()));
    }
}

/// Dedup across polls: once an announcement id is recorded for a
/// (competition, category) pair, no announcement carrying that id is
/// ever again among the new announcements selected for that pair,
/// whatever sequence of announcements any later fetch returns.
pub proof fn lemma_dedup(
    t: NoticeTracker,
    match_id: u32,
    kind: NoticeType,
    fetched: Seq<NoticeView>,
    id: u64,
)
    requires
        t.seen_set(match_id, kind).contains(id),
    ensures
        forall|k: int|
            0 <= k < sorted_by_time_spec(
                fetched.filter(new_for_pred(t, match_id, kind)),
            ).len() ==> (#[trigger] sorted_by_time_spec(
                fetched.filter(new_for_pred(t, match_id, kind)),
            )[k]).id != id,
{
    broadcast use vstd::seq_lib::group_to_multiset_ensures;
    broadcast use vstd::seq_lib::group_filter_ensures;

    let pred = new_for_pred(t, match_id, kind);
    let filtered = fetched.filter(pred);
    let delivered = sorted_by_time_spec(filtered);
    lemma_sorted_spec_multiset(filtered);
    assert forall|k: int| 0 <= k < delivered.len() implies (#[trigger] delivered[k]).id
        != id by {
        assert(delivered.contains(delivered[k]));
        assert(delivered.to_multiset().count(delivered[k]) > 0);
        assert(filtered.contains(delivered[k]));
        let j = choose|j: int| 0 <= j < filtered.len() && filtered[j] == delivered[k];
        assert(pred(filtered[j]));
    }
}

/// The ids among `s` that belong to category `kind`.
pub open spec fn ids_of_kind(s: Seq<NoticeView>, kind: NoticeType) -> Set<u64>
    decreases s.len(),
{
    if s.len() == 0 {
        Set::<u64>::empty()
    } else {
        let rest = ids_of_kind(s.drop_last(), kind);
        if parse_notice_type(s.last().notice_type) == Some(kind) {
            rest.insert(s.last().id)
        } else {
            rest
        }
    }
}

/// Startup baseline: records every fetched announcement as handled for
/// its category, without delivering anything, so that history predating
/// startup is never announced. Other competitions' state is untouched.
pub fn mark_existing_seen(tracker: &mut NoticeTracker, match_id: u32, notices: &Vec<Notice>)
    ensures
        forall|k: NoticeType| #[trigger]
            final(tracker).seen_set(match_id, k) == old(tracker).seen_set(match_id, k).union(
                ids_of_kind(notice_views(notices@), k),
            ),
        forall|m2: u32, k2: NoticeType|
            m2 != match_id ==> #[trigger] final(tracker).seen_set(m2, k2) == old(tracker).seen_set(
                m2,
                k2,
            ),
{
    let mut i: usize = 0;
    while i < notices.len()
        invariant
            i <= notices.len(),
            forall|k: NoticeType| #[trigger]
                tracker.seen_set(match_id, k) == old(tracker).seen_set(match_id, k).union(
                    ids_of_kind(notice_views(notices@).take(i as int), k),
                ),
            forall|m2: u32, k2: NoticeType|
                m2 != match_id ==> #[trigger] tracker.seen_set(m2, k2) == old(tracker).seen_set(
                    m2,
                    k2,
                ),
        decreases notices.len() - i,
    {
        proof {
            assert(notice_views(notices@).take(i + 1 as int).drop_last() =~= notice_views(
                notices@,
            ).take(i as int));
            assert(notice_views(notices@).take(i + 1 as int).last() == notices@[i as int]@);
        }
        let parsed = NoticeType::from_str(notices[i].notice_type.as_str());
        match parsed {
            Some(k0) => {
                tracker.mark_seen(match_id, k0, notices[i].id);
                proof {
                    assert forall|k: NoticeType| #[trigger]
                        tracker.seen_set(match_id, k) == old(tracker).seen_set(
                            match_id,
                            k,
                        ).union(
                            ids_of_kind(notice_views(notices@).take(i + 1 as int), k),
                        ) by {
                        if k == k0 {
                            assert(tracker.seen_set(match_id, k) =~= old(tracker).seen_set(
                                match_id,
                                k,
                            ).union(ids_of_kind(notice_views(notices@).take(i + 1 as int), k)));
                        } else {
                            assert(ids_of_kind(notice_views(notices@).take(i + 1 as int), k)
                                =~= ids_of_kind(notice_views(notices@).take(i as int), k));
                        }
                    }
                }
            },
            None => {
                proof {
                    assert forall|k: NoticeType| #[trigger]
                        tracker.seen_set(match_id, k) == old(tracker).seen_set(
                            match_id,
                            k,
                        ).union(
                            ids_of_kind(notice_views(notices@).take(i + 1 as int), k),
                        ) by {
                        assert(ids_of_kind(notice_views(notices@).take(i + 1 as int), k)
                            =~= ids_of_kind(notice_views(notices@).take(i as int), k));
                    }
                }
            },
        }
        i += 1;
    }
    proof {
        assert(notice_views(notices@).take(notices@.len() as int) =~= notice_views(notices@));
    }
}

/// One delivery attempt's aftermath, exactly as the poll loop applies
/// it: the announcement is recorded as handled either way — a failed
/// immediate send must not be re-detected as new on the next poll — and
/// on failure a queue item is appended for the retry loop, with the
/// identity derived from competition id, announcement id and timestamp.
pub fn record_outcome(
    tracker: &mut NoticeTracker,
    queue: &mut MessageQueue,
    match_id: u32,
    match_name: &Option<String>,
    base_url: &String,
    kind: NoticeType,
    notice: &Notice,
    delivered: bool,
    now: u64,
)
    requires
        now + 2 <= u64::MAX,
    ensures
        final(tracker).seen_set(match_id, kind) == old(tracker).seen_set(match_id, kind).insert(
            notice.id,
        ),
        forall|m2: u32, k2: NoticeType|
            !(m2 == match_id && k2 == kind) ==> #[trigger] final(tracker).seen_set(m2, k2) == old(
                tracker,
            ).seen_set(m2, k2),
        delivered ==> final(queue)@ == old(queue)@,
        !delivered ==> final(queue)@ == old(queue)@.push(
            fresh_item(
                id_label(match_id, notice.id, notice.time),
                notice@,
                kind,
                opt_string_view(*match_name),
                match_id,
                base_url@,
                now,
            ),
        ),
{
    tracker.mark_seen(match_id, kind, notice.id);
    if !delivered {
        let id = message_id(match_id, notice.id, notice.time);
        let item = MessageItem::new(
            id,
            notice.clone(),
            kind,
            clone_opt_string(match_name),
            match_id,
            base_url.clone(),
            now,
        );
        queue.enqueue(item);
    }
}

} // verus!
