use vstd::prelude::*;
use vstd::string::*;

use crate::text::str_eq;

verus! {

/// `serde_json::Value`: the metadata of a job. The queue carries it from
/// the job's definition to the job's run and never looks inside.
#[verifier::external_type_specification]
#[verifier::external_body]
pub struct ExValue(serde_json::Value);

/// Copies job metadata with `serde_json::Value::clone`. Trusted: the copy
/// equals the value that was copied.
#[verifier::external_body]
pub(crate) fn clone_metadata(metadata: &serde_json::Value) -> (copy: serde_json::Value)
    ensures
        copy == *metadata,
{
    metadata.clone()
}

/// One due instance of a job: the job's name, the instant it is due, a copy
/// of the job's metadata, and the instant at which it was executed, if it was.
pub struct QueueEntry {
    pub name: String,
    pub scheduled_time: i64,
    pub metadata: serde_json::Value,
    pub executed_at: Option<i64>,
}

/// What a queue entry holds.
pub struct EntryView {
    pub name: Seq<char>,
    pub scheduled_time: i64,
    pub metadata: serde_json::Value,
    pub executed_at: Option<i64>,
}

impl View for QueueEntry {
    type V = EntryView;

    open spec fn view(&self) -> EntryView {
        EntryView {
            name: self.name@,
            scheduled_time: self.scheduled_time,
            metadata: self.metadata,
            executed_at: self.executed_at,
        }
    }
}

/// Whether `entry` is the instance of job `name` due at `scheduled_time`.
pub open spec fn has_key(entry: EntryView, name: Seq<char>, scheduled_time: i64) -> bool {
    entry.name == name && entry.scheduled_time == scheduled_time
}

/// Whether `entries` holds the instance of job `name` due at `scheduled_time`.
pub open spec fn holds(entries: Seq<EntryView>, name: Seq<char>, scheduled_time: i64) -> bool {
    exists|i: int| 0 <= i < entries.len() && has_key(#[trigger] entries[i], name, scheduled_time)
}

/// No two entries are instances of one job at one instant.
pub open spec fn keys_unique(entries: Seq<EntryView>) -> bool {
    forall|i: int, j: int|
        0 <= i < j < entries.len() ==> !has_key(
            #[trigger] entries[i],
            (#[trigger] entries[j]).name,
            entries[j].scheduled_time,
        )
}

/// The entries after an attempt to enqueue the instance of job `name` due at
/// `scheduled_time`: it is added at the end, not yet executed, unless the
/// instance is there already.
pub open spec fn enqueued(
    entries: Seq<EntryView>,
    name: Seq<char>,
    scheduled_time: i64,
    metadata: serde_json::Value,
) -> Seq<EntryView> {
    if holds(entries, name, scheduled_time) {
        entries
    } else {
        entries.push(EntryView { name, scheduled_time, metadata, executed_at: None })
    }
}

/// Whether `entry` waits for execution at `now`: it is due and was not
/// executed yet.
pub open spec fn is_due(entry: EntryView, now: i64) -> bool {
    entry.scheduled_time <= now && entry.executed_at is None
}

/// `entry`, marked as executed at `now`.
pub open spec fn executed(entry: EntryView, now: i64) -> EntryView {
    EntryView { executed_at: Some(now), ..entry }
}

/// Whether the instance of job `name` due at `scheduled_time` can be claimed
/// at `now`: it is in `entries` and waits for execution.
pub open spec fn claimable(
    entries: Seq<EntryView>,
    name: Seq<char>,
    scheduled_time: i64,
    now: i64,
) -> bool {
    exists|i: int|
        0 <= i < entries.len() && has_key(#[trigger] entries[i], name, scheduled_time) && is_due(
            entries[i],
            now,
        )
}

/// The entries after an attempt to claim the instance of job `name` due at
/// `scheduled_time`: if it waits for execution it is marked as executed at
/// `now`, and nothing else changes.
pub open spec fn claimed(
    entries: Seq<EntryView>,
    name: Seq<char>,
    scheduled_time: i64,
    now: i64,
) -> Seq<EntryView> {
    Seq::new(
        entries.len(),
        |i: int|
            if has_key(entries[i], name, scheduled_time) && is_due(entries[i], now) {
                executed(entries[i], now)
            } else {
                entries[i]
            },
    )
}

/// The positions of the entries of `entries` that wait for execution at
/// `now`, in ascending order.
pub open spec fn due_positions(entries: Seq<EntryView>, now: i64) -> Seq<usize>
    decreases entries.len(),
{
    if entries.len() == 0 {
        Seq::empty()
    } else {
        let earlier = due_positions(entries.drop_last(), now);
        if is_due(entries.last(), now) {
            earlier.push((entries.len() - 1) as usize)
        } else {
            earlier
        }
    }
}

/// The positions that wait for execution are exactly those of the entries
/// that are due and not executed, each once and in ascending order.
pub proof fn lemma_due_positions(entries: Seq<EntryView>, now: i64)
    requires
        entries.len() <= usize::MAX,
    ensures
        forall|k: int|
            0 <= k < due_positions(entries, now).len() ==> (#[trigger] due_positions(entries, now)[k])
                < entries.len() && is_due(entries[due_positions(entries, now)[k] as int], now),
        forall|k: int, l: int|
            0 <= k < l < due_positions(entries, now).len() ==> due_positions(entries, now)[k]
                < due_positions(entries, now)[l],
        forall|i: int|
            0 <= i < entries.len() && is_due(#[trigger] entries[i], now) ==> due_positions(
                entries,
                now,
            ).contains(i as usize),
    decreases entries.len(),
{
    if entries.len() > 0 {
        let shorter = entries.drop_last();
        lemma_due_positions(shorter, now);
        let earlier = due_positions(shorter, now);
        let all = due_positions(entries, now);
        assert forall|i: int| 0 <= i < entries.len() && is_due(
            #[trigger] entries[i],
            now,
        ) implies all.contains(i as usize) by {
            if i < entries.len() - 1 {
                assert(shorter[i] == entries[i]);
                let k = choose|k: int| 0 <= k < earlier.len() && earlier[k] == i as usize;
                assert(all[k] == i as usize);
            } else {
                assert(all[all.len() - 1] == i as usize);
            }
        }
        assert forall|k: int| 0 <= k < all.len() implies (#[trigger] all[k]) < entries.len()
            && is_due(entries[all[k] as int], now) by {
            if k < earlier.len() {
                assert(earlier[k] == all[k]);
                assert(shorter[earlier[k] as int] == entries[earlier[k] as int]);
            }
        }
        assert forall|k: int, l: int| 0 <= k < l < all.len() implies all[k] < all[l] by {
            assert(earlier[k] == all[k]);
            if l < earlier.len() {
                assert(earlier[l] == all[l]);
            }
        }
    }
}

/// The persisted queue of job instances. The pair of job name and scheduled
/// time is unique among its entries, and entries are never removed.
pub struct JobQueue {
    entries: Vec<QueueEntry>,
}

impl View for JobQueue {
    type V = Seq<EntryView>;

    closed spec fn view(&self) -> Seq<EntryView> {
        self.entries@.map_values(|e: QueueEntry| e@)
    }
}

impl JobQueue {
    /// The queue's invariant: the keys of its entries are unique.
    pub open spec fn wf(&self) -> bool {
        keys_unique(self@)
    }

    /// An empty queue.
    pub fn new() -> (queue: JobQueue)
        ensures
            queue@ == Seq::<EntryView>::empty(),
            queue.wf(),
    {
        let queue = JobQueue { entries: Vec::new() };
        assert(queue@ =~= Seq::<EntryView>::empty());
        queue
    }

    /// The number of entries.
    pub fn len(&self) -> (n: usize)
        ensures
            n == self@.len(),
    {
        self.entries.len()
    }

    /// The entry at `index`, in the order of insertion.
    pub fn get(&self, index: usize) -> (entry: Option<&QueueEntry>)
        ensures
            index < self@.len() ==> entry is Some && entry->Some_0@ == self@[index as int],
            index >= self@.len() ==> entry is None,
    {
        if index < self.entries.len() {
            Some(&self.entries[index])
        } else {
            None
        }
    }

    /// The position of the instance of job `name` due at `scheduled_time`.
    pub fn find(&self, name: &str, scheduled_time: i64) -> (found: Option<usize>)
        ensures
            found is Some <==> holds(self@, name@, scheduled_time),
            found matches Some(i) ==> i < self@.len() && has_key(
                self@[i as int],
                name@,
                scheduled_time,
            ),
    {
        let mut i: usize = 0;
        while i < self.entries.len()
            invariant
                i <= self.entries.len(),
                forall|k: int| 0 <= k < i ==> !has_key(#[trigger] self@[k], name@, scheduled_time),
            decreases self.entries.len() - i,
        {
            if self.entries[i].scheduled_time == scheduled_time && str_eq(
                self.entries[i].name.as_str(),
                name,
            ) {
                assert(has_key(self@[i as int], name@, scheduled_time));
                return Some(i);
            }
            i += 1;
        }
        None
    }

    /// Enqueues the instance of job `name` due at `scheduled_time`, unless it
    /// is enqueued already: a second insertion of one instance changes
    /// nothing and is no error. Tells whether the entry was added.
    pub fn insert(&mut self, name: String, scheduled_time: i64, metadata: serde_json::Value) -> (added:
        bool)
        requires
            old(self).wf(),
        ensures
            final(self).wf(),
            added == !holds(old(self)@, name@, scheduled_time),
            final(self)@ == enqueued(old(self)@, name@, scheduled_time, metadata),
    {
        match self.find(name.as_str(), scheduled_time) {
            Some(_) => false,
            None => {
                let ghost before = self@;
                self.entries.push(QueueEntry { name, scheduled_time, metadata, executed_at: None });
                assert(self@ =~= before.push(
                    EntryView { name: name@, scheduled_time, metadata, executed_at: None },
                ));
                true
            },
        }
    }

    /// The positions of the entries that wait for execution at `now`, in
    /// the order of insertion.
    pub fn due(&self, now: i64) -> (positions: Vec<usize>)
        ensures
            positions@ == due_positions(self@, now),
            self@.len() <= usize::MAX,
    {
        let mut positions: Vec<usize> = Vec::new();
        let mut i: usize = 0;
        assert(self@.take(0) =~= Seq::<EntryView>::empty());
        while i < self.entries.len()
            invariant
                i <= self.entries.len(),
                positions@ == due_positions(self@.take(i as int), now),
            decreases self.entries.len() - i,
        {
            assert(self@.take(i as int + 1).drop_last() =~= self@.take(i as int));
            if self.entries[i].scheduled_time <= now && self.entries[i].executed_at.is_none() {
                positions.push(i);
            }
            i += 1;
        }
        assert(self@.take(i as int) =~= self@);
        positions
    }

    /// Claims the instance of job `name` due at `scheduled_time` for
    /// execution at `now`. The claim succeeds if the instance is enqueued,
    /// due, and not executed yet; it is then marked as executed at `now`. A
    /// claim that fails changes nothing.
    pub fn claim(&mut self, name: &str, scheduled_time: i64, now: i64) -> (won: bool)
        requires
            old(self).wf(),
        ensures
            final(self).wf(),
            won == claimable(old(self)@, name@, scheduled_time, now),
            final(self)@ == claimed(old(self)@, name@, scheduled_time, now),
    {
        let ghost before = self@;
        match self.find(name, scheduled_time) {
            None => {
                assert(self@ =~= claimed(before, name@, scheduled_time, now));
                false
            },
            Some(i) => {
                if self.entries[i].scheduled_time <= now && self.entries[i].executed_at.is_none() {
                    self.entries[i].executed_at = Some(now);
                    assert(self@ =~= claimed(before, name@, scheduled_time, now));
                    true
                } else {
                    assert(self@ =~= claimed(before, name@, scheduled_time, now));
                    false
                }
            },
        }
    }
}

} // verus!
