use vstd::prelude::*;
use vstd::string::*;

use crate::schedule::cron_parses;
use crate::schedule::Schedule;
use crate::text::str_eq;

verus! {

/// How often new cron-based jobs are placed in the queue, in seconds. This is
/// the shortest period between two executions of one job.
pub const JOB_SCHEDULING_CADENCE_IN_SECS: u64 = 1800;

/// How often the queue is inspected for jobs that wait for execution, in
/// seconds. This is the granularity at which jobs start.
pub const JOB_PROCESSING_CADENCE_IN_SECS: u64 = 60;

/// Jobs are looked for more often than they are placed in the queue: the
/// processing cadence is strictly shorter than the scheduling cadence.
pub proof fn lemma_processing_cadence_shorter()
    ensures
        0 < JOB_PROCESSING_CADENCE_IN_SECS < JOB_SCHEDULING_CADENCE_IN_SECS,
{
}

/// `anyhow::Error`: the failure of a job's run. It is passed on as it is.
#[verifier::external_type_specification]
#[verifier::external_body]
pub struct ExAnyhowError(anyhow::Error);

/// Whether `value` is the JSON value `null`.
pub uninterp spec fn is_json_null(value: serde_json::Value) -> bool;

/// The JSON value `null`, as `serde_json::Value::Null`: the metadata of a job
/// that needs none. Trusted: the value is `null`.
#[verifier::external_body]
pub(crate) fn no_metadata() -> (value: serde_json::Value)
    ensures
        is_json_null(value),
{
    serde_json::Value::Null
}

/// A named recurring job: its unique name, the schedule on which it is due,
/// and metadata that only the job itself interprets.
pub struct JobSchedule {
    pub name: String,
    pub schedule: Schedule,
    pub metadata: serde_json::Value,
}

/// What a job definition holds; the schedule by its expression.
pub struct JobScheduleView {
    pub name: Seq<char>,
    pub schedule: Seq<char>,
    pub metadata: serde_json::Value,
}

impl View for JobSchedule {
    type V = JobScheduleView;

    open spec fn view(&self) -> JobScheduleView {
        JobScheduleView { name: self.name@, schedule: self.schedule@, metadata: self.metadata }
    }
}

/// A job definition whose cron expression does not parse.
#[derive(Debug)]
pub struct InvalidSchedule {
    pub name: String,
    pub expression: String,
}

impl JobSchedule {
    /// Defines a job. Fails exactly when `expression` is not a well-formed
    /// cron expression, and then names the job and the expression.
    pub fn new(name: &str, expression: &str, metadata: serde_json::Value) -> (definition: Result<
        JobSchedule,
        InvalidSchedule,
    >)
        ensures
            definition is Ok <==> cron_parses(expression@),
            definition matches Ok(d) ==> d@ == (JobScheduleView {
                name: name@,
                schedule: expression@,
                metadata,
            }),
            definition matches Err(e) ==> e.name@ == name@ && e.expression@ == expression@,
    {
        match Schedule::parse(expression) {
            Some(schedule) => Ok(JobSchedule { name: name.to_owned(), schedule, metadata }),
            None => Err(InvalidSchedule { name: name.to_owned(), expression: expression.to_owned() }),
        }
    }
}

/// A background job: what it is called and when it is due, and the work
/// itself. The scheduler claims a queue entry before it calls `run`, so one
/// entry is run once; `run` must still tolerate other runs of the same job.
pub trait Job {
    /// What `run` needs from the process around it.
    type Context;

    /// The job's definition.
    fn schedule(&self) -> JobSchedule;

    /// Performs the job for the queue entry with this name and metadata.
    fn run(&self, ctx: &Self::Context, name: &String, metadata: &serde_json::Value) -> Result<
        (),
        anyhow::Error,
    >;
}

/// The name of the job that refreshes the documentation index.
pub open spec fn docs_update_name() -> Seq<char> {
    "docs_update"@
}

/// The schedule of that job: every Monday at 17:00 UTC.
pub open spec fn docs_update_expression() -> Seq<char> {
    "0 00 17 * * Mon *"@
}

/// The name of the job that pulls new commits.
pub open spec fn rustc_commits_name() -> Seq<char> {
    "rustc_commits"@
}

/// The schedule of that job: every thirty minutes, on the hour and the half
/// hour.
pub open spec fn rustc_commits_expression() -> Seq<char> {
    "0 0,30 * * * * *"@
}

/// The default jobs to schedule, repeatedly: first the documentation
/// refresh, then the commit pull, both without metadata. Fails on the first
/// of them whose schedule does not parse.
pub fn default_jobs() -> (jobs: Result<Vec<JobSchedule>, InvalidSchedule>)
    ensures
        jobs is Ok <==> cron_parses(docs_update_expression()) && cron_parses(
            rustc_commits_expression(),
        ),
        jobs matches Ok(v) ==> v@.len() == 2 && v@[0]@.name == docs_update_name() && v@[0]@.schedule
            == docs_update_expression() && v@[1]@.name == rustc_commits_name() && v@[1]@.schedule
            == rustc_commits_expression(),
        jobs matches Ok(v) ==> is_json_null(v@[0]@.metadata) && is_json_null(v@[1]@.metadata),
        jobs matches Err(e) ==> if !cron_parses(docs_update_expression()) {
            e.name@ == docs_update_name() && e.expression@ == docs_update_expression()
        } else {
            e.name@ == rustc_commits_name() && e.expression@ == rustc_commits_expression()
        },
{
    let docs = match JobSchedule::new("docs_update", "0 00 17 * * Mon *", no_metadata()) {
        Ok(d) => d,
        Err(e) => {
            return Err(e);
        },
    };
    let commits = match JobSchedule::new("rustc_commits", "0 0,30 * * * * *", no_metadata()) {
        Ok(d) => d,
        Err(e) => {
            return Err(e);
        },
    };
    let mut jobs: Vec<JobSchedule> = Vec::new();
    jobs.push(docs);
    jobs.push(commits);
    Ok(jobs)
}

/// Whether no two of `definitions` have the same name.
pub open spec fn names_unique(definitions: Seq<JobScheduleView>) -> bool {
    forall|i: int, j: int|
        0 <= i < j < definitions.len() ==> (#[trigger] definitions[i]).name
            != (#[trigger] definitions[j]).name
}

/// Whether `name` is the first name in `definitions` that repeats an earlier
/// one: the definitions before its second occurrence have unique names.
pub open spec fn first_repeated(definitions: Seq<JobScheduleView>, name: Seq<char>) -> bool {
    exists|i: int, j: int|
        #![trigger definitions[i], definitions[j]]
        0 <= i < j < definitions.len() && definitions[i].name == name && definitions[j].name
            == name && names_unique(definitions.take(j))
}

/// Two job definitions with one name.
#[derive(Debug)]
pub struct DuplicateJob {
    pub name: String,
}

/// The catalog of job definitions: fixed at startup, with unique names.
pub struct JobRegistry {
    definitions: Vec<JobSchedule>,
}

impl View for JobRegistry {
    type V = Seq<JobScheduleView>;

    closed spec fn view(&self) -> Seq<JobScheduleView> {
        self.definitions@.map_values(|d: JobSchedule| d@)
    }
}

impl JobRegistry {
    #[verifier::type_invariant]
    spec fn unique(&self) -> bool {
        names_unique(self@)
    }

    /// Builds the catalog. Fails exactly when two definitions have the same
    /// name, and then names the first definition that repeats an earlier one.
    pub fn new(definitions: Vec<JobSchedule>) -> (registry: Result<JobRegistry, DuplicateJob>)
        ensures
            registry is Ok <==> names_unique(definitions@.map_values(|d: JobSchedule| d@)),
            registry matches Ok(r) ==> r@ == definitions@.map_values(|d: JobSchedule| d@),
            registry matches Err(e) ==> first_repeated(
                definitions@.map_values(|d: JobSchedule| d@),
                e.name@,
            ),
    {
        let ghost views = definitions@.map_values(|d: JobSchedule| d@);
        let mut j: usize = 0;
        while j < definitions.len()
            invariant
                j <= definitions.len(),
                views == definitions@.map_values(|d: JobSchedule| d@),
                names_unique(views.take(j as int)),
            decreases definitions.len() - j,
        {
            let mut i: usize = 0;
            while i < j
                invariant
                    i <= j < definitions.len(),
                    views == definitions@.map_values(|d: JobSchedule| d@),
                    names_unique(views.take(j as int)),
                    forall|k: int| 0 <= k < i ==> (#[trigger] views[k]).name != views[j as int].name,
                decreases j - i,
            {
                if str_eq(definitions[i].name.as_str(), definitions[j].name.as_str()) {
                    let name = definitions[j].name.clone();
                    assert(views[i as int].name == name@ && views[j as int].name == name@);
                    assert(first_repeated(views, name@));
                    return Err(DuplicateJob { name });
                }
                i += 1;
            }
            assert(names_unique(views.take(j as int + 1))) by {
                assert forall|a: int, b: int| 0 <= a < b < j + 1 implies (#[trigger] views.take(
                    j as int + 1,
                )[a]).name != (#[trigger] views.take(j as int + 1)[b]).name by {
                    if b < j {
                        assert(views.take(j as int)[a].name != views.take(j as int)[b].name);
                    }
                }
            }
            j += 1;
        }
        assert(views.take(j as int) =~= views);
        Ok(JobRegistry { definitions })
    }

    /// Builds the catalog of `jobs`: definition `i` is what job `i` gives as
    /// its definition, now. Fails when two of them have the same name; with
    /// fewer than two jobs no name can repeat, and the catalog is built.
    pub fn of_jobs<J: Job>(jobs: &Vec<J>) -> (registry: Result<JobRegistry, DuplicateJob>)
        ensures
            jobs@.len() <= 1 ==> registry is Ok,
            registry matches Ok(r) ==> r@.len() == jobs@.len(),
    {
        let mut definitions: Vec<JobSchedule> = Vec::new();
        let mut i: usize = 0;
        while i < jobs.len()
            invariant
                i <= jobs.len(),
                definitions@.len() == i,
            decreases jobs.len() - i,
        {
            definitions.push(jobs[i].schedule());
            i += 1;
        }
        JobRegistry::new(definitions)
    }

    /// The definitions, in the order in which they were given.
    pub fn definitions(&self) -> (definitions: &Vec<JobSchedule>)
        ensures
            definitions@.map_values(|d: JobSchedule| d@) == self@,
            names_unique(self@),
    {
        proof {
            use_type_invariant(self);
        }
        &self.definitions
    }

    /// The position of the definition called `name`.
    pub fn find(&self, name: &str) -> (found: Option<usize>)
        ensures
            found is Some <==> exists|i: int| 0 <= i < self@.len() && (#[trigger] self@[i]).name == name@,
            found matches Some(i) ==> i < self@.len() && self@[i as int].name == name@,
    {
        let mut i: usize = 0;
        while i < self.definitions.len()
            invariant
                i <= self.definitions.len(),
                forall|k: int| 0 <= k < i ==> (#[trigger] self@[k]).name != name@,
            decreases self.definitions.len() - i,
        {
            if str_eq(self.definitions[i].name.as_str(), name) {
                assert(self@[i as int].name == name@);
                return Some(i);
            }
            i += 1;
        }
        None
    }
}

} // verus!
