use triagebot::jobs::default_jobs;
use triagebot::jobs::JobRegistry;
use triagebot::jobs::JobSchedule;
use triagebot::jobs::JOB_PROCESSING_CADENCE_IN_SECS;
use triagebot::jobs::JOB_SCHEDULING_CADENCE_IN_SECS;
use triagebot::schedule::Schedule;
use triagebot::schedule::EARLIEST_INSTANT;
use triagebot::schedule::LATEST_INSTANT;

#[test]
fn jobs_defined() {
    // Checks that the default jobs are there, mostly for the schedule parsing.
    let jobs = default_jobs();
    assert!(jobs.is_ok());
    drop(jobs);
}

#[test]
fn default_jobs_are_the_two_of_the_catalog() {
    let jobs = default_jobs().unwrap();
    assert_eq!(jobs.len(), 2);
    assert_eq!(jobs[0].name, "docs_update");
    assert_eq!(jobs[0].schedule.source(), "0 00 17 * * Mon *");
    assert_eq!(jobs[0].metadata, serde_json::Value::Null);
    assert_eq!(jobs[1].name, "rustc_commits");
    assert_eq!(jobs[1].schedule.source(), "0 0,30 * * * * *");
    assert_eq!(jobs[1].metadata, serde_json::Value::Null);
}

#[test]
fn cadences_are_thirty_minutes_and_one_minute() {
    assert_eq!(JOB_SCHEDULING_CADENCE_IN_SECS, 1800);
    assert_eq!(JOB_PROCESSING_CADENCE_IN_SECS, 60);
    assert!(JOB_PROCESSING_CADENCE_IN_SECS < JOB_SCHEDULING_CADENCE_IN_SECS);
}

#[test]
fn well_formed_expressions_parse() {
    for expression in ["* * * * * *", "0 30 11 * * FRI *", "0 0,30 * * * * *", "0 0 0 1 1 * 2030", "@hourly"] {
        let schedule = Schedule::parse(expression).unwrap();
        assert_eq!(schedule.source(), expression);
        assert_eq!(schedule.clone().source(), expression);
    }
}

#[test]
fn malformed_expressions_do_not_parse() {
    for expression in ["", "every day", "* * * * *", "61 * * * * *", "0 0 25 * * *", "0 0 0 * * */0", "* * * * * * * *"] {
        assert!(Schedule::parse(expression).is_none());
    }
}

#[test]
fn half_hourly_schedule_is_due_on_the_half_hour() {
    let schedule = Schedule::parse("0 0,30 * * * * *").unwrap();
    assert_eq!(schedule.next_after(0), Some(1800));
    assert_eq!(schedule.next_after(1), Some(1800));
    assert_eq!(schedule.next_after(1799), Some(1800));
    assert_eq!(schedule.next_after(1800), Some(3600));
    assert_eq!(schedule.next_after(1_700_000_000), Some(1_700_001_000));
}

#[test]
fn weekly_schedule_is_due_on_monday_afternoon() {
    let schedule = Schedule::parse("0 00 17 * * Mon *").unwrap();
    // The epoch was a Thursday: the first Monday is the fifth of January 1970.
    assert_eq!(schedule.next_after(0), Some(4 * 86400 + 17 * 3600));
    assert_eq!(schedule.next_after(4 * 86400 + 17 * 3600), Some(11 * 86400 + 17 * 3600));
}

#[test]
fn every_second_schedule_is_due_one_second_later() {
    let schedule = Schedule::parse("* * * * * *").unwrap();
    for after in [0, 1, 59, 86399, 1_700_000_000, LATEST_INSTANT - 1] {
        assert_eq!(schedule.next_after(after), Some(after + 1));
    }
}

#[test]
fn a_schedule_that_has_run_out_is_never_due() {
    let schedule = Schedule::parse("0 0 12 1 1 * 1970").unwrap();
    assert_eq!(schedule.next_after(0), Some(12 * 3600));
    assert_eq!(schedule.next_after(12 * 3600), None);
    assert_eq!(schedule.next_after(1_700_000_000), None);
}

#[test]
fn instants_out_of_range_have_no_next_instant() {
    let schedule = Schedule::parse("* * * * * *").unwrap();
    assert_eq!(EARLIEST_INSTANT, 0);
    assert_eq!(LATEST_INSTANT, 4_133_980_799);
    assert_eq!(schedule.next_after(EARLIEST_INSTANT - 1), None);
    assert_eq!(schedule.next_after(LATEST_INSTANT + 1), None);
    assert_eq!(schedule.next_after(i64::MIN), None);
    assert_eq!(schedule.next_after(i64::MAX), None);
    assert_eq!(schedule.next_after(LATEST_INSTANT), None);
    assert_eq!(schedule.next_after(EARLIEST_INSTANT), Some(1));
}

#[test]
fn job_definition_keeps_name_schedule_and_metadata() {
    let metadata = serde_json::Value::String("@T-release meeting!".to_string());
    let job = JobSchedule::new("send_zulip_message", "0 30 11 * * FRI *", metadata.clone()).unwrap();
    assert_eq!(job.name, "send_zulip_message");
    assert_eq!(job.schedule.source(), "0 30 11 * * FRI *");
    assert_eq!(job.metadata, metadata);
}

#[test]
fn job_definition_with_a_broken_schedule_fails() {
    let error = JobSchedule::new("broken", "not a schedule", serde_json::Value::Null).err().unwrap();
    assert_eq!(error.name, "broken");
    assert_eq!(error.expression, "not a schedule");
}

fn definition(name: &str) -> JobSchedule {
    JobSchedule::new(name, "0 0,30 * * * * *", serde_json::Value::Null).unwrap()
}

#[test]
fn registry_keeps_the_definitions_in_order() {
    let registry = JobRegistry::new(vec![definition("a"), definition("b"), definition("c")]).unwrap();
    let names: Vec<&str> = registry.definitions().iter().map(|d| d.name.as_str()).collect();
    assert_eq!(names, vec!["a", "b", "c"]);
    assert_eq!(registry.find("a"), Some(0));
    assert_eq!(registry.find("c"), Some(2));
    assert_eq!(registry.find("d"), None);
    assert_eq!(registry.find("A"), None);
    let empty = JobRegistry::new(Vec::new()).unwrap();
    assert!(empty.definitions().is_empty());
    assert_eq!(empty.find("a"), None);
}

#[test]
fn registry_of_the_default_jobs() {
    let registry = JobRegistry::new(default_jobs().unwrap()).unwrap();
    assert_eq!(registry.find("docs_update"), Some(0));
    assert_eq!(registry.find("rustc_commits"), Some(1));
}

#[test]
fn registry_refuses_a_repeated_name() {
    let error = JobRegistry::new(vec![definition("a"), definition("b"), definition("c"), definition("b"), definition("a")])
        .err()
        .unwrap();
    assert_eq!(error.name, "b");
}
