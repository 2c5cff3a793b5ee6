use vstd::prelude::*;
use vstd::string::*;

use crate::jobs::Job;
use crate::jobs::JobRegistry;
use crate::jobs::JobSchedule;
use crate::jobs::names_unique;
use crate::jobs::JobScheduleView;
use crate::jobs::JOB_PROCESSING_CADENCE_IN_SECS;
use crate::jobs::JOB_SCHEDULING_CADENCE_IN_SECS;
use crate::queue::claimable;
use crate::queue::claimed;
use crate::queue::clone_metadata;
use crate::queue::due_positions;
use crate::queue::enqueued;
use crate::queue::executed;
use crate::queue::has_key;
use crate::queue::holds;
use crate::queue::is_due;
use crate::queue::keys_unique;
use crate::queue::lemma_due_positions;
use crate::queue::EntryView;
use crate::queue::JobQueue;
use crate::schedule::next_due;

verus! {

/// The instant at which the schedule `expression` is next due after `now`,
/// if that lies within one scheduling cadence from `now`.
pub open spec fn due_in_window(expression: Seq<char>, now: i64) -> Option<i64> {
    match next_due(expression, now) {
        Some(t) => if t <= now + JOB_SCHEDULING_CADENCE_IN_SECS {
            Some(t)
        } else {
            None
        },
        None => None,
    }
}

/// The queue after the expansion of one job at `now`: the job's next
/// instance is enqueued if it is due within the window.
pub open spec fn expanded_one(
    definition: JobScheduleView,
    entries: Seq<EntryView>,
    now: i64,
) -> Seq<EntryView> {
    match due_in_window(definition.schedule, now) {
        Some(t) => enqueued(entries, definition.name, t, definition.metadata),
        None => entries,
    }
}

/// The queue after an expansion tick at `now` over `definitions`, taken in
/// order.
pub open spec fn expanded(
    definitions: Seq<JobScheduleView>,
    entries: Seq<EntryView>,
    now: i64,
) -> Seq<EntryView>
    decreases definitions.len(),
{
    if definitions.len() == 0 {
        entries
    } else {
        expanded_one(definitions.last(), expanded(definitions.drop_last(), entries, now), now)
    }
}

/// Expands one job at `now`: enqueues its next instance if that is due
/// within one scheduling cadence and not enqueued yet. Tells whether an entry
/// was added.
pub fn expand_job(definition: &JobSchedule, queue: &mut JobQueue, now: i64) -> (added: bool)
    requires
        old(queue).wf(),
    ensures
        final(queue).wf(),
        final(queue)@ == expanded_one(definition@, old(queue)@, now),
        added == (final(queue)@.len() == old(queue)@.len() + 1),
        !added ==> final(queue)@ == old(queue)@,
{
    match definition.schedule.next_after(now) {
        Some(t) => {
            if t <= now + (JOB_SCHEDULING_CADENCE_IN_SECS as i64) {
                queue.insert(definition.name.clone(), t, clone_metadata(&definition.metadata))
            } else {
                false
            }
        },
        None => false,
    }
}

/// One expansion tick at `now`: expands every job of `definitions`, in
/// order. Returns the number of entries added.
pub fn expansion_tick(definitions: &Vec<JobSchedule>, queue: &mut JobQueue, now: i64) -> (added:
    usize)
    requires
        old(queue).wf(),
    ensures
        final(queue).wf(),
        final(queue)@ == expanded(definitions@.map_values(|d: JobSchedule| d@), old(queue)@, now),
        final(queue)@.len() == old(queue)@.len() + added,
{
    let ghost views = definitions@.map_values(|d: JobSchedule| d@);
    let mut added: usize = 0;
    let mut i: usize = 0;
    assert(views.take(0) =~= Seq::<JobScheduleView>::empty());
    while i < definitions.len()
        invariant
            i <= definitions.len(),
            added <= i,
            views == definitions@.map_values(|d: JobSchedule| d@),
            queue.wf(),
            queue@ == expanded(views.take(i as int), old(queue)@, now),
            queue@.len() == old(queue)@.len() + added,
        decreases definitions.len() - i,
    {
        assert(views.take(i as int + 1).drop_last() =~= views.take(i as int));
        assert(views.take(i as int + 1).last() == definitions@[i as int]@);
        if expand_job(&definitions[i], queue, now) {
            added += 1;
        }
        i += 1;
    }
    assert(views.take(i as int) =~= views);
    added
}

/// An entry that is enqueued stays enqueued when a job is expanded.
pub proof fn lemma_expanded_one_keeps(
    definition: JobScheduleView,
    entries: Seq<EntryView>,
    now: i64,
    name: Seq<char>,
    scheduled_time: i64,
)
    requires
        holds(entries, name, scheduled_time),
    ensures
        holds(expanded_one(definition, entries, now), name, scheduled_time),
{
    let i = choose|i: int| 0 <= i < entries.len() && has_key(#[trigger] entries[i], name, scheduled_time);
    let after = expanded_one(definition, entries, now);
    assert(after[i] == entries[i]);
    assert(has_key(after[i], name, scheduled_time));
}

/// After the expansion of a job whose next instance is due within the
/// window, that instance is enqueued.
pub proof fn lemma_expanded_one_holds(definition: JobScheduleView, entries: Seq<EntryView>, now: i64)
    ensures
        due_in_window(definition.schedule, now) matches Some(t) ==> holds(
            expanded_one(definition, entries, now),
            definition.name,
            t,
        ),
{
    if let Some(t) = due_in_window(definition.schedule, now) {
        if !holds(entries, definition.name, t) {
            let after = expanded_one(definition, entries, now);
            assert(has_key(after[entries.len() as int], definition.name, t));
        }
    }
}

/// Whether the queue holds the instance of each of `definitions` that is due
/// within the window at `now`.
pub open spec fn holds_all_due(
    definitions: Seq<JobScheduleView>,
    entries: Seq<EntryView>,
    now: i64,
) -> bool {
    forall|k: int|
        0 <= k < definitions.len() ==> (due_in_window(
            (#[trigger] definitions[k]).schedule,
            now,
        ) matches Some(t) ==> holds(entries, definitions[k].name, t))
}

/// After an expansion tick the queue holds every instance that was due
/// within the window, and every entry that it held before.
pub proof fn lemma_expanded_holds(
    definitions: Seq<JobScheduleView>,
    entries: Seq<EntryView>,
    now: i64,
)
    ensures
        holds_all_due(definitions, expanded(definitions, entries, now), now),
        forall|name: Seq<char>, t: i64|
            holds(entries, name, t) ==> #[trigger] holds(expanded(definitions, entries, now), name, t),
    decreases definitions.len(),
{
    if definitions.len() > 0 {
        let shorter = definitions.drop_last();
        let middle = expanded(shorter, entries, now);
        let after = expanded(definitions, entries, now);
        lemma_expanded_holds(shorter, entries, now);
        lemma_expanded_one_holds(definitions.last(), middle, now);
        assert forall|name: Seq<char>, t: i64| holds(entries, name, t) implies #[trigger] holds(
            after,
            name,
            t,
        ) by {
            lemma_expanded_one_keeps(definitions.last(), middle, now, name, t);
        }
        assert forall|k: int| 0 <= k < definitions.len() implies (due_in_window(
            (#[trigger] definitions[k]).schedule,
            now,
        ) matches Some(t) ==> holds(after, definitions[k].name, t)) by {
            if k < definitions.len() - 1 {
                assert(shorter[k] == definitions[k]);
                if let Some(t) = due_in_window(definitions[k].schedule, now) {
                    lemma_expanded_one_keeps(definitions.last(), middle, now, definitions[k].name, t);
                }
            }
        }
    }
}

/// An expansion tick changes nothing in a queue that already holds every
/// instance that is due within the window.
pub proof fn lemma_expanded_nothing_new(
    definitions: Seq<JobScheduleView>,
    entries: Seq<EntryView>,
    now: i64,
)
    requires
        holds_all_due(definitions, entries, now),
    ensures
        expanded(definitions, entries, now) == entries,
    decreases definitions.len(),
{
    if definitions.len() > 0 {
        let shorter = definitions.drop_last();
        assert forall|k: int| 0 <= k < shorter.len() implies (due_in_window(
            (#[trigger] shorter[k]).schedule,
            now,
        ) matches Some(t) ==> holds(entries, shorter[k].name, t)) by {
            assert(shorter[k] == definitions[k]);
        }
        lemma_expanded_nothing_new(shorter, entries, now);
        assert(definitions.last() == definitions[definitions.len() - 1]);
    }
}

/// Expansion is idempotent: a second expansion tick for the same instant,
/// by this process or by another one that shares the queue, adds nothing.
/// However many ticks run for one window, each due instance is enqueued once.
pub proof fn lemma_expansion_idempotent(
    definitions: Seq<JobScheduleView>,
    entries: Seq<EntryView>,
    now: i64,
)
    ensures
        expanded(definitions, expanded(definitions, entries, now), now) == expanded(
            definitions,
            entries,
            now,
        ),
{
    lemma_expanded_holds(definitions, entries, now);
    lemma_expanded_nothing_new(definitions, expanded(definitions, entries, now), now);
}

/// Two expansion ticks one scheduling cadence apart enqueue different
/// instances of a job that is due in both windows: the second instance lies
/// after the first, and each tick adds exactly one entry to a queue that
/// held neither.
pub proof fn lemma_consecutive_windows(
    definition: JobScheduleView,
    entries: Seq<EntryView>,
    now: i64,
    first: i64,
    second: i64,
)
    requires
        now + JOB_SCHEDULING_CADENCE_IN_SECS <= i64::MAX,
        due_in_window(definition.schedule, now) == Some(first),
        due_in_window(definition.schedule, (now + JOB_SCHEDULING_CADENCE_IN_SECS) as i64) == Some(
            second,
        ),
        !holds(entries, definition.name, first),
        !holds(entries, definition.name, second),
    ensures
        first < second,
        expanded_one(definition, entries, now).len() == entries.len() + 1,
        expanded_one(
            definition,
            expanded_one(definition, entries, now),
            (now + JOB_SCHEDULING_CADENCE_IN_SECS) as i64,
        ).len() == entries.len() + 2,
{
    let later = (now + JOB_SCHEDULING_CADENCE_IN_SECS) as i64;
    let middle = expanded_one(definition, entries, now);
    assert(middle == entries.push(
        EntryView {
            name: definition.name,
            scheduled_time: first,
            metadata: definition.metadata,
            executed_at: None,
        },
    ));
    assert(!holds(middle, definition.name, second)) by {
        if holds(middle, definition.name, second) {
            let i = choose|i: int|
                0 <= i < middle.len() && has_key(#[trigger] middle[i], definition.name, second);
            if i < entries.len() {
                assert(has_key(entries[i], definition.name, second));
            }
        }
    }
}

/// The queue after a processing tick at `now`: every entry that waited for
/// execution is marked as executed at `now`, and nothing else changes.
pub open spec fn processed(entries: Seq<EntryView>, now: i64) -> Seq<EntryView> {
    Seq::new(
        entries.len(),
        |i: int|
            if is_due(entries[i], now) {
                executed(entries[i], now)
            } else {
                entries[i]
            },
    )
}

/// The queue in the middle of a processing tick: the waiting entries before
/// position `bound` are marked as executed.
pub open spec fn processed_below(entries: Seq<EntryView>, now: i64, bound: int) -> Seq<EntryView> {
    Seq::new(
        entries.len(),
        |i: int|
            if i < bound && is_due(entries[i], now) {
                executed(entries[i], now)
            } else {
                entries[i]
            },
    )
}

/// How the execution of one claimed queue entry ended.
pub enum RunOutcome {
    /// The job ran and reported success.
    Succeeded,
    /// The job ran and failed with this error. The entry stays executed:
    /// there is no retry.
    Failed(anyhow::Error),
    /// No job of that name is defined any more.
    NoSuchJob,
}

/// One claimed queue entry and its execution: the entry's name and instant,
/// the metadata that was handed to the job, the position of the job that
/// ran, if one did, and how the run ended.
pub struct JobRun {
    pub name: String,
    pub scheduled_time: i64,
    pub metadata: serde_json::Value,
    pub job: Option<usize>,
    pub outcome: RunOutcome,
}

/// What a job's own result means for the entry it ran for.
pub fn outcome_of(result: Result<(), anyhow::Error>) -> (outcome: RunOutcome)
    ensures
        outcome == match result {
            Ok(_) => RunOutcome::Succeeded,
            Err(e) => RunOutcome::Failed(e),
        },
{
    match result {
        Ok(_) => RunOutcome::Succeeded,
        Err(e) => RunOutcome::Failed(e),
    }
}

/// Whether the job called `name` can be run: the catalog holds a definition
/// of that name, and there is a job at its position.
pub open spec fn runnable(definitions: Seq<JobScheduleView>, jobs: nat, name: Seq<char>) -> bool {
    exists|i: int| 0 <= i < definitions.len() && i < jobs && (#[trigger] definitions[i]).name == name
}

/// Whether `job` is the position of the job to run for the name `name`:
/// the position at which the catalog holds the definition of that name, if
/// there is a job at that position, and none otherwise. The names of a
/// catalog are unique, so there is one such position at most.
pub open spec fn is_job_of(
    definitions: Seq<JobScheduleView>,
    jobs: nat,
    name: Seq<char>,
    job: Option<usize>,
) -> bool {
    match job {
        Some(i) => i < jobs && i < definitions.len() && definitions[i as int].name == name,
        None => !runnable(definitions, jobs, name),
    }
}

/// In a catalog, whose names are unique, the job to run for a name is
/// determined: two answers to the question are the same answer.
pub proof fn lemma_job_determined(
    definitions: Seq<JobScheduleView>,
    jobs: nat,
    name: Seq<char>,
    one: Option<usize>,
    other: Option<usize>,
)
    requires
        names_unique(definitions),
        is_job_of(definitions, jobs, name, one),
        is_job_of(definitions, jobs, name, other),
    ensures
        one == other,
{
    if one is Some && other is Some {
        let a = one->Some_0 as int;
        let b = other->Some_0 as int;
        if a < b {
            assert(definitions[a].name != definitions[b].name);
        } else if b < a {
            assert(definitions[b].name != definitions[a].name);
        }
    } else if one is Some {
        assert(definitions[one->Some_0 as int].name == name);
    } else if other is Some {
        assert(definitions[other->Some_0 as int].name == name);
    }
}

/// The position of the job to run for the name `name`: job `i` of the jobs
/// is the one that definition `i` of the catalog defines.
pub fn job_for(registry: &JobRegistry, jobs: usize, name: &str) -> (job: Option<usize>)
    ensures
        is_job_of(registry@, jobs as nat, name@, job),
        names_unique(registry@),
{
    let _ = registry.definitions();
    match registry.find(name) {
        Some(i) => {
            if i < jobs {
                Some(i)
            } else {
                assert forall|k: int|
                    0 <= k < registry@.len() && k < jobs implies (#[trigger] registry@[k]).name
                    != name@ by {
                    assert(registry@[i as int].name == name@);
                }
                None
            }
        },
        None => None,
    }
}

/// Runs the job for one claimed entry, with the entry's name and its
/// metadata, and reports the run. The job is the one at the position at
/// which the catalog holds the entry's name; a name that the catalog does
/// not hold, or one without a job at its position, runs nothing.
pub fn handle_job<J: Job>(
    registry: &JobRegistry,
    jobs: &Vec<J>,
    ctx: &J::Context,
    name: String,
    scheduled_time: i64,
    metadata: serde_json::Value,
) -> (run: JobRun)
    ensures
        run.name == name,
        run.scheduled_time == scheduled_time,
        run.metadata == metadata,
        is_job_of(registry@, jobs@.len(), name@, run.job),
        run.outcome is NoSuchJob <==> run.job is None,
{
    let job = job_for(registry, jobs.len(), name.as_str());
    let outcome = match job {
        Some(i) => outcome_of(jobs[i].run(ctx, &name, &metadata)),
        None => RunOutcome::NoSuchJob,
    };
    JobRun { name, scheduled_time, metadata, job, outcome }
}

/// One processing tick at `now`: claims every entry that waits for
/// execution, in the order of insertion, and runs its job once, if the
/// catalog knows it. A job that fails is reported and not retried. Returns
/// one report for each entry that waited.
pub fn processing_tick<J: Job>(
    registry: &JobRegistry,
    jobs: &Vec<J>,
    ctx: &J::Context,
    queue: &mut JobQueue,
    now: i64,
) -> (runs: Vec<JobRun>)
    requires
        old(queue).wf(),
    ensures
        final(queue).wf(),
        final(queue)@ == processed(old(queue)@, now),
        runs@.len() == due_positions(old(queue)@, now).len(),
        forall|k: int|
            0 <= k < runs@.len() ==> has_key(
                old(queue)@[due_positions(old(queue)@, now)[k] as int],
                (#[trigger] runs@[k]).name@,
                runs@[k].scheduled_time,
            ),
        forall|k: int|
            0 <= k < runs@.len() ==> (#[trigger] runs@[k]).metadata == old(queue)@[due_positions(
                old(queue)@,
                now,
            )[k] as int].metadata,
        forall|k: int|
            0 <= k < runs@.len() ==> is_job_of(
                registry@,
                jobs@.len(),
                (#[trigger] runs@[k]).name@,
                runs@[k].job,
            ) && (runs@[k].outcome is NoSuchJob <==> runs@[k].job is None),
{
    let positions = queue.due(now);
    let ghost before = queue@;
    let mut runs: Vec<JobRun> = Vec::new();
    let mut k: usize = 0;
    proof {
        lemma_due_positions(before, now);
        assert(queue@ =~= processed_below(before, now, 0));
        if positions@.len() > 0 {
            assert(queue@ =~= processed_below(before, now, positions@[0] as int)) by {
                assert forall|i: int| 0 <= i < positions@[0] implies !is_due(
                    #[trigger] before[i],
                    now,
                ) by {
                    if is_due(before[i], now) {
                        let l = choose|l: int| 0 <= l < positions@.len() && positions@[l] == i as usize;
                        assert(positions@[0] <= positions@[l]);
                    }
                }
            }
        }
    }
    while k < positions.len()
        invariant
            k <= positions.len(),
            before == old(queue)@,
            before.len() <= usize::MAX,
            keys_unique(before),
            positions@ == due_positions(before, now),
            queue.wf(),
            queue@.len() == before.len(),
            k < positions@.len() ==> queue@ == processed_below(before, now, positions@[k as int] as int),
            k == positions@.len() ==> queue@ == processed(before, now),
            runs@.len() == k,
            forall|l: int|
                0 <= l < k ==> has_key(
                    before[positions@[l] as int],
                    (#[trigger] runs@[l]).name@,
                    runs@[l].scheduled_time,
                ),
            forall|l: int|
                0 <= l < k ==> (#[trigger] runs@[l]).metadata == before[positions@[l] as int].metadata,
            forall|l: int|
                0 <= l < k ==> is_job_of(
                    registry@,
                    jobs@.len(),
                    (#[trigger] runs@[l]).name@,
                    runs@[l].job,
                ) && (runs@[l].outcome is NoSuchJob <==> runs@[l].job is None),
        decreases positions.len() - k,
    {
        let p = positions[k];
        proof {
            lemma_due_positions(before, now);
            assert(p < before.len() && is_due(before[p as int], now));
        }
        let ghost current = queue@;
        let (name, scheduled_time, metadata) = match queue.get(p) {
            Some(entry) => (entry.name.clone(), entry.scheduled_time, clone_metadata(&entry.metadata)),
            None => {
                return runs;
            },
        };
        assert(current[p as int] == before[p as int]);
        let won = queue.claim(name.as_str(), scheduled_time, now);
        assert(won);
        proof {
            let bound = if k + 1 < positions@.len() {
                positions@[k as int + 1] as int
            } else {
                before.len() as int
            };
            assert(p < bound);
            assert forall|i: int| 0 <= i < before.len() implies #[trigger] queue@[i]
                == processed_below(before, now, bound)[i] by {
                if i == p {
                } else if i < p {
                    // The key is unique, so the claim touched only position `p`.
                    assert(!has_key(before[i], before[p as int].name, before[p as int].scheduled_time));
                    assert(!has_key(current[i], name@, scheduled_time));
                } else {
                    assert(!has_key(before[p as int], before[i].name, before[i].scheduled_time));
                    assert(current[i] == before[i]);
                    if i < bound && is_due(before[i], now) {
                        let l = choose|l: int| 0 <= l < positions@.len() && positions@[l] == i as usize;
                        if l <= k {
                            assert(positions@[l] <= positions@[k as int]);
                        } else if l > k + 1 {
                            assert(positions@[k as int + 1] < positions@[l]);
                        }
                    }
                }
            }
            assert(queue@ =~= processed_below(before, now, bound));
            if k + 1 == positions@.len() {
                assert(processed_below(before, now, bound) =~= processed(before, now));
            }
        }
        runs.push(handle_job(registry, jobs, ctx, name, scheduled_time, metadata));
        k += 1;
    }
    proof {
        if positions@.len() == 0 {
            lemma_due_positions(before, now);
            assert(queue@ =~= processed(before, now));
        }
    }
    runs
}

/// A claim is won at most once: after the claim of an instance that waited
/// for execution, no further claim of that instance succeeds, whoever makes
/// it and at whatever instant.
pub proof fn lemma_claim_won_once(
    entries: Seq<EntryView>,
    name: Seq<char>,
    scheduled_time: i64,
    now: i64,
    later: i64,
)
    requires
        keys_unique(entries),
        claimable(entries, name, scheduled_time, now),
    ensures
        !claimable(claimed(entries, name, scheduled_time, now), name, scheduled_time, later),
{
    let after = claimed(entries, name, scheduled_time, now);
    let w = choose|w: int|
        0 <= w < entries.len() && has_key(#[trigger] entries[w], name, scheduled_time) && is_due(
            entries[w],
            now,
        );
    if claimable(after, name, scheduled_time, later) {
        let i = choose|i: int|
            0 <= i < after.len() && has_key(#[trigger] after[i], name, scheduled_time) && is_due(
                after[i],
                later,
            );
        assert(has_key(entries[i], name, scheduled_time));
        if i < w {
            assert(!has_key(entries[i], entries[w].name, entries[w].scheduled_time));
        } else if w < i {
            assert(!has_key(entries[w], entries[i].name, entries[i].scheduled_time));
        }
    }
}

/// An entry that waits for execution is taken by exactly one processing
/// tick: the tick marks it as executed, and after that tick it waits for no
/// other tick, at whatever instant that one runs.
pub proof fn lemma_processed_once(entries: Seq<EntryView>, now: i64, later: i64)
    ensures
        forall|i: int|
            0 <= i < entries.len() && is_due(#[trigger] entries[i], now) ==> processed(
                entries,
                now,
            )[i].executed_at == Some(now) && !is_due(processed(entries, now)[i], later),
        processed(processed(entries, now), now) == processed(entries, now),
{
    assert(processed(processed(entries, now), now) =~= processed(entries, now));
}

/// When the two periodic activities are next due: the expansion of job
/// definitions into queue entries, and the processing of the entries that
/// wait for execution.
#[derive(Clone, Copy, Debug, PartialEq, Eq, Structural)]
pub struct Scheduler {
    pub next_expansion: i64,
    pub next_processing: i64,
}

/// The instant one cadence after `now`; the last instant of all if there is
/// none that late.
pub open spec fn after_cadence(now: i64, cadence: u64) -> i64 {
    if now + cadence <= i64::MAX {
        (now + cadence) as i64
    } else {
        i64::MAX
    }
}

/// Whether an expansion tick is due at `now`.
pub open spec fn expands_at(scheduler: Scheduler, now: i64) -> bool {
    now >= scheduler.next_expansion
}

/// Whether a processing tick is due at `now`.
pub open spec fn processes_at(scheduler: Scheduler, now: i64) -> bool {
    now >= scheduler.next_processing
}

/// The scheduler after it was woken at `now`: each activity that was due
/// is next due one cadence of its own later.
pub open spec fn woken(scheduler: Scheduler, now: i64) -> Scheduler {
    Scheduler {
        next_expansion: if expands_at(scheduler, now) {
            after_cadence(now, JOB_SCHEDULING_CADENCE_IN_SECS)
        } else {
            scheduler.next_expansion
        },
        next_processing: if processes_at(scheduler, now) {
            after_cadence(now, JOB_PROCESSING_CADENCE_IN_SECS)
        } else {
            scheduler.next_processing
        },
    }
}

/// The queue after the expansion tick of a scheduler woken at `now`, if
/// one was due.
pub open spec fn queue_expanded(
    scheduler: Scheduler,
    definitions: Seq<JobScheduleView>,
    entries: Seq<EntryView>,
    now: i64,
) -> Seq<EntryView> {
    if expands_at(scheduler, now) {
        expanded(definitions, entries, now)
    } else {
        entries
    }
}

/// The queue after a scheduler was woken at `now`: after the expansion
/// tick, if one was due, and then the processing tick, if one was due.
pub open spec fn queue_woken(
    scheduler: Scheduler,
    definitions: Seq<JobScheduleView>,
    entries: Seq<EntryView>,
    now: i64,
) -> Seq<EntryView> {
    let filled = queue_expanded(scheduler, definitions, entries, now);
    if processes_at(scheduler, now) {
        processed(filled, now)
    } else {
        filled
    }
}

fn later_by(now: i64, cadence: u64) -> (later: i64)
    requires
        cadence <= 86400,
    ensures
        later == after_cadence(now, cadence),
{
    let step = cadence as i64;
    if now <= i64::MAX - step {
        now + step
    } else {
        i64::MAX
    }
}

impl Scheduler {
    /// A scheduler whose two activities are both due from `start` on.
    pub fn new(start: i64) -> (scheduler: Scheduler)
        ensures
            scheduler == (Scheduler { next_expansion: start, next_processing: start }),
    {
        Scheduler { next_expansion: start, next_processing: start }
    }

    /// Wakes the scheduler at `now`. It runs the expansion tick over the
    /// catalog if that is due, then the processing tick with `jobs` if that
    /// is due, and notes when each is due next. Returns the reports of the
    /// processing tick.
    pub fn wake<J: Job>(
        &mut self,
        registry: &JobRegistry,
        jobs: &Vec<J>,
        ctx: &J::Context,
        queue: &mut JobQueue,
        now: i64,
    ) -> (runs: Vec<JobRun>)
        requires
            old(queue).wf(),
        ensures
            *final(self) == woken(*old(self), now),
            final(queue).wf(),
            final(queue)@ == queue_woken(*old(self), registry@, old(queue)@, now),
            runs@.len() == if processes_at(*old(self), now) {
                due_positions(queue_expanded(*old(self), registry@, old(queue)@, now), now).len()
            } else {
                0
            },
            forall|k: int|
                0 <= k < runs@.len() ==> has_key(
                    queue_expanded(*old(self), registry@, old(queue)@, now)[due_positions(
                        queue_expanded(*old(self), registry@, old(queue)@, now),
                        now,
                    )[k] as int],
                    (#[trigger] runs@[k]).name@,
                    runs@[k].scheduled_time,
                ),
            forall|k: int|
                0 <= k < runs@.len() ==> (#[trigger] runs@[k]).metadata == queue_expanded(
                    *old(self),
                    registry@,
                    old(queue)@,
                    now,
                )[due_positions(queue_expanded(*old(self), registry@, old(queue)@, now), now)[k] as int].metadata,
            forall|k: int|
                0 <= k < runs@.len() ==> is_job_of(
                    registry@,
                    jobs@.len(),
                    (#[trigger] runs@[k]).name@,
                    runs@[k].job,
                ) && (runs@[k].outcome is NoSuchJob <==> runs@[k].job is None),
    {
        if now >= self.next_expansion {
            expansion_tick(registry.definitions(), queue, now);
            self.next_expansion = later_by(now, JOB_SCHEDULING_CADENCE_IN_SECS);
        }
        if now >= self.next_processing {
            let runs = processing_tick(registry, jobs, ctx, queue, now);
            self.next_processing = later_by(now, JOB_PROCESSING_CADENCE_IN_SECS);
            runs
        } else {
            Vec::new()
        }
    }
}

/// Each activity keeps its cadence: once a tick has run at `now`, the same
/// activity is not due again before one cadence of its own has passed. This
/// holds wherever the end of that cadence is an instant that can be written.
pub proof fn lemma_ticks_keep_cadence(scheduler: Scheduler, now: i64, later: i64)
    requires
        now + JOB_SCHEDULING_CADENCE_IN_SECS <= i64::MAX,
    ensures
        expands_at(scheduler, now) && now <= later < now + JOB_SCHEDULING_CADENCE_IN_SECS
            ==> !expands_at(woken(scheduler, now), later),
        processes_at(scheduler, now) && now <= later < now + JOB_PROCESSING_CADENCE_IN_SECS
            ==> !processes_at(woken(scheduler, now), later),
{
}

/// A tick that has waited for its cadence is due: no tick is missed once
/// its instant has come.
pub proof fn lemma_ticks_come_due(scheduler: Scheduler, now: i64, later: i64)
    ensures
        expands_at(scheduler, now) && later >= now + JOB_SCHEDULING_CADENCE_IN_SECS ==> expands_at(
            woken(scheduler, now),
            later,
        ),
        processes_at(scheduler, now) && later >= now + JOB_PROCESSING_CADENCE_IN_SECS
            ==> processes_at(woken(scheduler, now), later),
{
}

} // verus!
