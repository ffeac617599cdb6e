//! The delivery queue: bookkeeping for announcements whose send failed.
//!
//! A failed announcement becomes a [`MessageItem`] and waits in memory.
//! Each due item is retried with exponentially growing delays; after
//! [`MAX_RETRIES`] failed retries the item is handed to the persistent
//! store and leaves memory — but only once the durable write is
//! confirmed. The surrounding application performs the sends, the timer
//! and the file I/O; every decision about the queue's contents is made
//! here.

use vstd::prelude::*;
use vstd::arithmetic::power2::pow2;
use vstd::arithmetic::power2::lemma_pow2_strictly_increases;
use vstd::bits::lemma_u64_shl_is_mul;
use vstd::bits::lemma_u64_pow2_no_overflow;
use vstd::seq_lib::lemma_multiset_commutative;
use crate::models::Notice;
use crate::models::NoticeView;
use crate::models::NoticeType;
use crate::models::opt_string_view;
use crate::models::clone_opt_string;

verus! {

/// The fixed number of failed in-memory retries an item is granted
/// before it is promoted to the persistent store.
pub const MAX_RETRIES: u8 = 4;

/// The mathematical value of a [`MessageItem`].
pub struct MessageItemView {
    pub id: Seq<char>,
    pub notice: NoticeView,
    pub notice_type: NoticeType,
    pub match_name: Option<Seq<char>>,
    pub match_id: u32,
    pub base_url: Seq<char>,
    pub retry_count: u8,
    pub next_retry_at: u64,
}

/// One queued announcement: a snapshot of the announcement together with
/// everything needed to render and resend it, plus retry bookkeeping.
pub struct MessageItem {
    /// Unique identity, derived from competition id, announcement id and
    /// timestamp.
    pub id: String,
    /// The announcement as fetched.
    pub notice: Notice,
    /// Its category.
    pub notice_type: NoticeType,
    /// Display name of the competition, if one is configured.
    pub match_name: Option<String>,
    /// The competition the announcement belongs to.
    pub match_id: u32,
    /// Base address of the platform, for links in the rendered message.
    pub base_url: String,
    /// How many retries have failed so far; grows by one per failed
    /// attempt and never shrinks.
    pub retry_count: u8,
    /// Unix time, in seconds, at which the next retry falls due.
    pub next_retry_at: u64,
}

impl View for MessageItem {
    type V = MessageItemView;

    open spec fn view(&self) -> MessageItemView {
        MessageItemView {
            id: self.id@,
            notice: self.notice@,
            notice_type: self.notice_type,
            match_name: opt_string_view(self.match_name),
            match_id: self.match_id,
            base_url: self.base_url@,
            retry_count: self.retry_count,
            next_retry_at: self.next_retry_at,
        }
    }
}

impl Clone for MessageItem {
    fn clone(&self) -> (res: Self)
        ensures
            res@ == self@,
    {
        MessageItem {
            id: self.id.clone(),
            notice: self.notice.clone(),
            notice_type: self.notice_type,
            match_name: clone_opt_string(&self.match_name),
            match_id: self.match_id,
            base_url: self.base_url.clone(),
            retry_count: self.retry_count,
            next_retry_at: self.next_retry_at,
        }
    }
}

/// A freshly enqueued item: no retries yet, first retry due after the
/// initial backoff delay of two seconds.
pub open spec fn fresh_item(
    id: Seq<char>,
    notice: NoticeView,
    notice_type: NoticeType,
    match_name: Option<Seq<char>>,
    match_id: u32,
    base_url: Seq<char>,
    now: u64,
) -> MessageItemView {
    MessageItemView {
        id: id,
        notice: notice,
        notice_type: notice_type,
        match_name: match_name,
        match_id: match_id,
        base_url: base_url,
        retry_count: 0,
        next_retry_at: (now + 2) as u64,
    }
}

/// One failed delivery attempt, applied to an item's bookkeeping: the
/// retry count grows by one, and either the next retry is scheduled
/// `2^(retry_count + 1)` seconds from now, or — once the count reaches
/// [`MAX_RETRIES`] — the item stops being rescheduled and awaits
/// persistence. An item already at the budget is left unchanged.
pub open spec fn fail_step(m: MessageItemView, now: u64) -> MessageItemView {
    if m.retry_count >= MAX_RETRIES {
        m
    } else if m.retry_count + 1 >= MAX_RETRIES {
        (MessageItemView { retry_count: MAX_RETRIES, ..m })
    } else {
        (MessageItemView {
            retry_count: (m.retry_count + 1) as u8,
            next_retry_at: (now + pow2((m.retry_count + 2) as nat)) as u64,
            ..m
        })
    }
}

impl MessageItem {
    /// Builds the item for an announcement whose immediate send failed at
    /// time `now` (Unix seconds).
    pub fn new(
        id: String,
        notice: Notice,
        notice_type: NoticeType,
        match_name: Option<String>,
        match_id: u32,
        base_url: String,
        now: u64,
    ) -> (item: Self)
        requires
            now + 2 <= u64::MAX,
        ensures
            item@ == fresh_item(
                id@,
                notice@,
                notice_type,
                opt_string_view(match_name),
                match_id,
                base_url@,
                now,
            ),
    {
        MessageItem {
            id,
            notice,
            notice_type,
            match_name,
            match_id,
            base_url,
            retry_count: 0,
            next_retry_at: now + 2,
        }
    }

    /// The backoff delay scheduled after the n-th consecutive failure of
    /// this item, where n is the current retry count: exactly `2^(n+1)`
    /// seconds.
    pub fn calc_delay(&self) -> (d: u64)
        requires
            self.retry_count < 63,
        ensures
            d == pow2((self.retry_count + 1) as nat),
    {
        let shift: u64 = (self.retry_count as u64) + 1;
        proof {
            lemma_u64_pow2_no_overflow(shift as nat);
            lemma_u64_shl_is_mul(1u64, shift);
        }
        1u64 << shift
    }

    /// Records one failed retry: bumps the count and schedules the next
    /// attempt after [`Self::calc_delay`] seconds from `now`.
    pub fn increment_retry(&mut self, now: u64)
        requires
            old(self).retry_count < MAX_RETRIES,
            now + 32 <= u64::MAX,
        ensures
            final(self).retry_count == old(self).retry_count + 1,
            final(self).next_retry_at == now + pow2((old(self).retry_count + 2) as nat),
            final(self)@ == (MessageItemView {
                retry_count: (old(self).retry_count + 1) as u8,
                next_retry_at: (now + pow2((old(self).retry_count + 2) as nat)) as u64,
                ..old(self)@
            }),
    {
        self.retry_count = self.retry_count + 1;
        let delay: u64 = self.calc_delay();
        proof {
            vstd::arithmetic::power2::lemma2_to64();
            if (self.retry_count + 1) < 5 {
                lemma_pow2_strictly_increases((self.retry_count + 1) as nat, 5);
            }
        }
        self.next_retry_at = now + delay;
    }

    /// Whether the item's next retry has fallen due at time `now`.
    pub fn can_retry(&self, now: u64) -> (r: bool)
        ensures
            r == (now >= self.next_retry_at),
    {
        now >= self.next_retry_at
    }

    /// Whether the item has exhausted its retry budget and belongs in the
    /// persistent store.
    pub fn should_persist(&self) -> (r: bool)
        ensures
            r == (self.retry_count >= MAX_RETRIES),
    {
        self.retry_count >= MAX_RETRIES
    }
}

/// The views of the elements of a vector of items.
pub open spec fn item_views(s: Seq<MessageItem>) -> Seq<MessageItemView> {
    Seq::new(s.len(), |i: int| s[i]@)
}

/// Holds of an item whose next retry has fallen due at time `now`.
pub open spec fn due_pred(now: u64) -> spec_fn(MessageItemView) -> bool {
    |m: MessageItemView| m.next_retry_at <= now
}

/// Holds of an item whose retry budget is spent.
pub open spec fn promoted_pred() -> spec_fn(MessageItemView) -> bool {
    |m: MessageItemView| m.retry_count >= MAX_RETRIES
}

/// Holds of an item that still has retry budget left.
pub open spec fn in_budget_pred() -> spec_fn(MessageItemView) -> bool {
    |m: MessageItemView| m.retry_count < MAX_RETRIES
}

/// Holds of an item that does not carry the identity `id`.
pub open spec fn other_id_pred(id: Seq<char>) -> spec_fn(MessageItemView) -> bool {
    |m: MessageItemView| m.id != id
}

/// What a send attempt for one queued item came to: the item was not in
/// the queue (already resolved), or it was rescheduled for another retry,
/// or its budget is spent and it now awaits the persistent store.
#[derive(Clone, Copy, PartialEq, Eq, Structural, Debug)]
pub enum RetryStatus {
    NotFound,
    Rescheduled,
    AwaitingPersist,
}

/// The in-memory delivery queue. Items enter when an immediate send
/// fails, are retried by the application's retry tick, and leave either
/// on a successful resend or — after the retry budget — through the
/// persistent store, never before the durable write is confirmed.
pub struct MessageQueue {
    items: Vec<MessageItem>,
}

impl View for MessageQueue {
    type V = Seq<MessageItemView>;

    closed spec fn view(&self) -> Seq<MessageItemView> {
        item_views(self.items@)
    }
}

impl MessageQueue {
    /// An empty queue.
    pub fn new() -> (q: Self)
        ensures
            q@ == Seq::<MessageItemView>::empty(),
    {
        let q = MessageQueue { items: Vec::new() };
        proof {
            assert(q@ =~= Seq::<MessageItemView>::empty());
        }
        q
    }

    /// Appends a failed announcement to the queue. Always succeeds.
    pub fn enqueue(&mut self, message: MessageItem)
        ensures
            final(self)@ == old(self)@.push(message@),
    {
        self.items.push(message);
        proof {
            assert(self@ =~= old(self)@.push(self.items@.last()@));
        }
    }

    /// Appends every record recovered from the persistent store, in
    /// order, keeping each record's stored retry count and schedule. The
    /// caller clears the store afterwards: the store is a mailbox, not a
    /// log.
    pub fn load_persisted(&mut self, records: Vec<MessageItem>)
        ensures
            final(self)@ == old(self)@ + item_views(records@),
    {
        let mut i: usize = 0;
        while i < records.len()
            invariant
                i <= records.len(),
                self@ == old(self)@ + item_views(records@).take(i as int),
            decreases records.len() - i,
        {
            let r = records[i].clone();
            self.enqueue(r);
            proof {
                assert(old(self)@ + item_views(records@).take(i + 1 as int) =~= (old(self)@
                    + item_views(records@).take(i as int)).push(records@[i as int]@));
            }
            i += 1;
        }
        proof {
            assert(item_views(records@).take(records@.len() as int) =~= item_views(records@));
        }
    }

    /// Copies out every item whose next retry has fallen due at `now`, in
    /// queue order. Taken as a snapshot so that the application can
    /// release the queue before it goes near the network.
    pub fn due_items(&self, now: u64) -> (r: Vec<MessageItem>)
        ensures
            item_views(r@) == self@.filter(due_pred(now)),
    {
        let mut out: Vec<MessageItem> = Vec::new();
        let mut i: usize = 0;
        while i < self.items.len()
            invariant
                i <= self.items.len(),
                item_views(out@) == self@.take(i as int).filter(due_pred(now)),
            decreases self.items.len() - i,
        {
            proof {
                reveal(Seq::filter);
                assert(self@.take(i + 1 as int).drop_last() =~= self@.take(i as int));
                assert(self@.take(i + 1 as int).last() == self.items@[i as int]@);
            }
            if self.items[i].can_retry(now) {
                out.push(self.items[i].clone());
                proof {
                    assert(item_views(out@) =~= item_views(out@.drop_last()).push(
                        out@.last()@,
                    ));
                }
            }
            i += 1;
        }
        proof {
            assert(self@.take(self@.len() as int) =~= self@);
        }
        out
    }

    /// Removes every item carrying `id` from the queue: its announcement
    /// has been delivered, so nothing of it remains in memory.
    pub fn mark_delivered(&mut self, id: &String)
        ensures
            final(self)@ == old(self)@.filter(other_id_pred(id@)),
    {
        let mut kept: Vec<MessageItem> = Vec::new();
        let mut i: usize = 0;
        while i < self.items.len()
            invariant
                i <= self.items.len(),
                item_views(kept@) == self@.take(i as int).filter(other_id_pred(id@)),
            decreases self.items.len() - i,
        {
            proof {
                reveal(Seq::filter);
                assert(self@.take(i + 1 as int).drop_last() =~= self@.take(i as int));
                assert(self@.take(i + 1 as int).last() == self.items@[i as int]@);
            }
            if !(self.items[i].id == *id) {
                kept.push(self.items[i].clone());
                proof {
                    assert(item_views(kept@) =~= item_views(kept@.drop_last()).push(
                        kept@.last()@,
                    ));
                }
            }
            i += 1;
        }
        proof {
            assert(self@.take(self@.len() as int) =~= self@);
        }
        self.items = kept;
    }

    /// Records a failed retry for the first queued item carrying `id`:
    /// the item is rescheduled per [`fail_step`], or reported as awaiting
    /// persistence once its budget is spent. The queue is otherwise
    /// untouched; in particular the item itself stays in memory.
    pub fn mark_failed(&mut self, id: &String, now: u64) -> (r: RetryStatus)
        requires
            now + 32 <= u64::MAX,
        ensures
            r is NotFound ==> final(self)@ == old(self)@ && (forall|j: int|
                0 <= j < old(self)@.len() ==> (#[trigger] old(self)@[j]).id != id@),
            !(r is NotFound) ==> (exists|i: int|
                {
                    &&& 0 <= i < old(self)@.len()
                    &&& (#[trigger] old(self)@[i]).id == id@
                    &&& (forall|j: int| 0 <= j < i ==> (#[trigger] old(self)@[j]).id != id@)
                    &&& final(self)@ == old(self)@.update(i, fail_step(old(self)@[i], now))
                    &&& r == (if fail_step(old(self)@[i], now).retry_count >= MAX_RETRIES {
                        RetryStatus::AwaitingPersist
                    } else {
                        RetryStatus::Rescheduled
                    })
                }),
    {
        let mut i: usize = 0;
        while i < self.items.len()
            invariant
                i <= self.items.len(),
                *self == *old(self),
                now + 32 <= u64::MAX,
                forall|j: int| 0 <= j < i ==> (#[trigger] self@[j]).id != id@,
            decreases self.items.len() - i,
        {
            if self.items[i].id == *id {
                let ghost w = i as int;
                let ghost stepped = fail_step(old(self)@[w], now);
                let rc: u8 = self.items[i].retry_count;
                if rc >= MAX_RETRIES {
                    proof {
                        assert(self@.update(w, stepped) =~= self@);
                    }
                    return RetryStatus::AwaitingPersist;
                }
                let mut updated = self.items[i].clone();
                let status: RetryStatus;
                if rc + 1 >= MAX_RETRIES {
                    updated.retry_count = MAX_RETRIES;
                    status = RetryStatus::AwaitingPersist;
                } else {
                    updated.increment_retry(now);
                    status = RetryStatus::Rescheduled;
                }
                proof {
                    assert(updated@ == stepped);
                }
                self.items.set(i, updated);
                proof {
                    assert(self@ =~= old(self)@.update(w, stepped));
                }
                return status;
            }
            i += 1;
        }
        RetryStatus::NotFound
    }

    /// Copies out every item whose retry budget is spent: the set the
    /// application must append to the persistent store before anything is
    /// allowed to leave memory.
    pub fn pending_persist(&self) -> (r: Vec<MessageItem>)
        ensures
            item_views(r@) == self@.filter(promoted_pred()),
    {
        let mut out: Vec<MessageItem> = Vec::new();
        let mut i: usize = 0;
        while i < self.items.len()
            invariant
                i <= self.items.len(),
                item_views(out@) == self@.take(i as int).filter(promoted_pred()),
            decreases self.items.len() - i,
        {
            proof {
                reveal(Seq::filter);
                assert(self@.take(i + 1 as int).drop_last() =~= self@.take(i as int));
                assert(self@.take(i + 1 as int).last() == self.items@[i as int]@);
            }
            if self.items[i].should_persist() {
                out.push(self.items[i].clone());
                proof {
                    assert(item_views(out@) =~= item_views(out@.drop_last()).push(
                        out@.last()@,
                    ));
                }
            }
            i += 1;
        }
        proof {
            assert(self@.take(self@.len() as int) =~= self@);
        }
        out
    }

    /// Drops every item whose retry budget is spent. To be called only
    /// after the durable write of [`Self::pending_persist`]'s result has
    /// been confirmed: if the write fails, the items simply stay queued
    /// for the next cycle, and nothing is lost.
    pub fn confirm_persisted(&mut self)
        ensures
            final(self)@ == old(self)@.filter(in_budget_pred()),
    {
        let mut kept: Vec<MessageItem> = Vec::new();
        let mut i: usize = 0;
        while i < self.items.len()
            invariant
                i <= self.items.len(),
                item_views(kept@) == self@.take(i as int).filter(in_budget_pred()),
            decreases self.items.len() - i,
        {
            proof {
                reveal(Seq::filter);
                assert(self@.take(i + 1 as int).drop_last() =~= self@.take(i as int));
                assert(self@.take(i + 1 as int).last() == self.items@[i as int]@);
            }
            if !self.items[i].should_persist() {
                kept.push(self.items[i].clone());
                proof {
                    assert(item_views(kept@) =~= item_views(kept@.drop_last()).push(
                        kept@.last()@,
                    ));
                }
            }
            i += 1;
        }
        proof {
            assert(self@.take(self@.len() as int) =~= self@);
        }
        self.items = kept;
    }

    /// Copies out everything still in memory, in order: what the shutdown
    /// flush must write to the persistent store.
    pub fn snapshot_items(&self) -> (r: Vec<MessageItem>)
        ensures
            item_views(r@) == self@,
    {
        let mut out: Vec<MessageItem> = Vec::new();
        let mut i: usize = 0;
        while i < self.items.len()
            invariant
                i <= self.items.len(),
                out@.len() == i,
                forall|j: int| 0 <= j < i ==> (#[trigger] out@[j])@ == self@[j],
            decreases self.items.len() - i,
        {
            out.push(self.items[i].clone());
            i += 1;
        }
        proof {
            assert(item_views(out@) =~= self@);
        }
        out
    }

    /// How many items are queued.
    pub fn len(&self) -> (n: usize)
        ensures
            n == self@.len(),
    {
        self.items.len()
    }
}

/// The read-merge part of a store write: the records already in the
/// store, followed by the records to append, in order. The application
/// writes the result back wholesale; nothing is dropped or reordered.
pub fn merge_store_records(existing: Vec<MessageItem>, additions: Vec<MessageItem>) -> (r: Vec<
    MessageItem,
>)
    ensures
        item_views(r@) == item_views(existing@) + item_views(additions@),
{
    let mut merged = existing;
    let mut more = additions;
    let ghost e = merged@;
    let ghost a = more@;
    merged.append(&mut more);
    proof {
        assert(item_views(merged@) =~= item_views(e) + item_views(a));
    }
    merged
}

/// Backoff monotonicity: the scheduled delay `2^(n+1)` grows strictly
/// with the retry count n.
pub proof fn lemma_backoff_strictly_increases(n1: u8, n2: u8)
    requires
        n1 < n2 < 63,
    ensures
        pow2((n1 + 1) as nat) < pow2((n2 + 1) as nat),
{
    lemma_pow2_strictly_increases((n1 + 1) as nat, (n2 + 1) as nat);
}

/// The queue state an item reaches after `k` consecutive failed retries.
pub open spec fn after_failures(m: MessageItemView, k: nat, now: u64) -> MessageItemView
    decreases k,
{
    if k == 0 {
        m
    } else {
        fail_step(after_failures(m, (k - 1) as nat, now), now)
    }
}

/// Bounded retries: a fresh item reaches the retry budget on exactly its
/// fourth failed retry — after three failures it is still rescheduled in
/// memory, and no run of failures ever drives the count past the budget.
pub proof fn lemma_retry_budget(m: MessageItemView, k: nat, now: u64)
    requires
        m.retry_count == 0,
    ensures
        after_failures(m, k, now).retry_count == (if k <= MAX_RETRIES { k } else {
            MAX_RETRIES as nat
        }),
        after_failures(m, k, now).retry_count >= MAX_RETRIES <==> k >= MAX_RETRIES,
    decreases k,
{
    if k > 0 {
        lemma_retry_budget(m, (k - 1) as nat, now);
    }
}

/// Promotion to the store is an exact split of the queue: the items
/// handed to the store and the items kept in memory together are the
/// whole queue, with no loss and no duplication.
pub proof fn lemma_persist_split(q: Seq<MessageItemView>)
    ensures
        q.filter(promoted_pred()).to_multiset().add(q.filter(in_budget_pred()).to_multiset())
            == q.to_multiset(),
    decreases q.len(),
{
    broadcast use vstd::seq_lib::group_to_multiset_ensures;

    reveal(Seq::filter);
    let promoted = promoted_pred();
    let kept = in_budget_pred();
    if q.len() == 0 {
        assert(q.filter(promoted).to_multiset().add(q.filter(kept).to_multiset())
            =~= q.to_multiset());
    } else {
        let s = q.drop_last();
        let x = q.last();
        lemma_persist_split(s);
        assert(q =~= s.push(x));
        assert(q.to_multiset() == s.to_multiset().insert(x));
        if promoted(x) {
            assert(q.filter(promoted) == s.filter(promoted).push(x));
            assert(q.filter(kept) == s.filter(kept));
            assert(q.filter(promoted).to_multiset() == s.filter(promoted).to_multiset().insert(
                x,
            ));
            assert(q.filter(promoted).to_multiset().add(q.filter(kept).to_multiset())
                =~= q.to_multiset());
        } else {
            assert(q.filter(kept) == s.filter(kept).push(x));
            assert(q.filter(promoted) == s.filter(promoted));
            assert(q.filter(kept).to_multiset() == s.filter(kept).to_multiset().insert(x));
            assert(q.filter(promoted).to_multiset().add(q.filter(kept).to_multiset())
                =~= q.to_multiset());
        }
    }
}

/// Crash recovery: after the records of the persistent store are loaded
/// behind the queue, every stored record is in memory, everything already
/// queued is still there, and nothing else appeared. The store is then
/// cleared.
pub proof fn lemma_crash_recovery(queue: Seq<MessageItemView>, store: Seq<MessageItemView>)
    ensures
        forall|m: MessageItemView| store.contains(m) ==> #[trigger] (queue + store).contains(m),
        forall|m: MessageItemView| queue.contains(m) ==> #[trigger] (queue + store).contains(m),
        (queue + store).len() == queue.len() + store.len(),
        (queue + store).to_multiset() == queue.to_multiset().add(store.to_multiset()),
{
    lemma_multiset_commutative(queue, store);
    assert forall|m: MessageItemView| store.contains(m) implies #[trigger] (queue
        + store).contains(m) by {
        let j = choose|j: int| 0 <= j < store.len() && store[j] == m;
        assert((queue + store)[queue.len() + j] == m);
    }
    assert forall|m: MessageItemView| queue.contains(m) implies #[trigger] (queue
        + store).contains(m) by {
        let j = choose|j: int| 0 <= j < queue.len() && queue[j] == m;
        assert((queue + store)[j] == m);
    }
}

/// Shutdown completeness: flushing merges the whole queue behind the
/// store's existing records, so every queued item appears in the written
/// store, exactly as often as it was queued, and nothing already stored
/// is lost.
pub proof fn lemma_shutdown_completeness(store: Seq<MessageItemView>, queue: Seq<MessageItemView>)
    ensures
        (store + queue).to_multiset() == store.to_multiset().add(queue.to_multiset()),
        forall|m: MessageItemView| queue.contains(m) ==> #[trigger] (store + queue).contains(m),
        forall|m: MessageItemView| store.contains(m) ==> #[trigger] (store + queue).contains(m),
{
    lemma_crash_recovery(store, queue);
}

} // verus!
