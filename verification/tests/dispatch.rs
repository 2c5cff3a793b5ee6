use triagebot::dispatch::Dispatch;
use triagebot::dispatch::DispatchOutcome;
use triagebot::dispatch::HandlerRegistry;
use triagebot::dispatch::HandlerReport;
use triagebot::dispatch::Step;
use triagebot::event::EventName;

/// Runs a dispatch; handler `h` gives `script[h]`. Returns the result and
/// the handlers that were invoked, in order.
fn drive(
    registry: &HandlerRegistry,
    kind: EventName,
    script: &[&str],
) -> (Result<DispatchOutcome, String>, Vec<usize>) {
    let mut invoked = Vec::new();
    let mut dispatch = Dispatch::start(registry, kind);
    loop {
        match dispatch.step() {
            Step::Done(outcome) => return (Ok(outcome), invoked),
            Step::Invoke(handler) => {
                invoked.push(handler);
                let report = match script[handler] {
                    "act" => HandlerReport::Acted,
                    "skip" => HandlerReport::Skipped,
                    cause => HandlerReport::Failed(cause.to_string()),
                };
                match dispatch.record(report) {
                    Ok(next) => dispatch = next,
                    Err(error) => return (Err(error.cause), invoked),
                }
            }
        }
    }
}

fn registry_of(kinds: &[EventName]) -> HandlerRegistry {
    let mut registry = HandlerRegistry::new();
    for (i, kind) in kinds.iter().enumerate() {
        assert_eq!(registry.register(*kind), i);
    }
    registry
}

#[test]
fn registry_numbers_handlers_in_order() {
    let registry = registry_of(&[EventName::Push, EventName::Issue, EventName::Push]);
    assert_eq!(registry.len(), 3);
    assert_eq!(registry.handlers_for(EventName::Push), vec![0, 2]);
    assert_eq!(registry.handlers_for(EventName::Issue), vec![1]);
    assert_eq!(registry.handlers_for(EventName::Create), Vec::<usize>::new());
    assert_eq!(HandlerRegistry::new().len(), 0);
}

#[test]
fn no_handler_means_ignored() {
    let registry = registry_of(&[EventName::Push]);
    let (result, invoked) = drive(&registry, EventName::Issue, &["act"]);
    assert_eq!(result, Ok(DispatchOutcome::Ignored));
    assert!(invoked.is_empty());
    let (result, invoked) = drive(&HandlerRegistry::new(), EventName::Push, &[]);
    assert_eq!(result, Ok(DispatchOutcome::Ignored));
    assert!(invoked.is_empty());
}

#[test]
fn a_handler_that_acts_means_processed() {
    let registry = registry_of(&[EventName::Push]);
    let (result, invoked) = drive(&registry, EventName::Push, &["act"]);
    assert_eq!(result, Ok(DispatchOutcome::Processed));
    assert_eq!(invoked, vec![0]);
}

#[test]
fn handlers_that_only_skip_mean_ignored() {
    let registry = registry_of(&[EventName::Push, EventName::Push]);
    let (result, invoked) = drive(&registry, EventName::Push, &["skip", "skip"]);
    assert_eq!(result, Ok(DispatchOutcome::Ignored));
    assert_eq!(invoked, vec![0, 1]);
}

#[test]
fn one_acting_handler_among_many_means_processed() {
    let registry = registry_of(&[EventName::Push, EventName::Issue, EventName::Push, EventName::Push]);
    let (result, invoked) = drive(&registry, EventName::Push, &["skip", "boom", "act", "skip"]);
    assert_eq!(result, Ok(DispatchOutcome::Processed));
    assert_eq!(invoked, vec![0, 2, 3]);
}

#[test]
fn a_failure_ends_the_dispatch_with_its_cause() {
    let registry = registry_of(&[EventName::Push, EventName::Push, EventName::Push]);
    let (result, invoked) = drive(&registry, EventName::Push, &["act", "label failed", "act"]);
    assert_eq!(result, Err("label failed".to_string()));
    assert_eq!(invoked, vec![0, 1]);
}

#[test]
fn the_first_failure_wins() {
    let registry = registry_of(&[EventName::Issue, EventName::Issue]);
    let (result, invoked) = drive(&registry, EventName::Issue, &["first", "second"]);
    assert_eq!(result, Err("first".to_string()));
    assert_eq!(invoked, vec![0]);
}

#[test]
fn a_report_after_the_end_changes_nothing() {
    let registry = registry_of(&[EventName::Push]);
    let dispatch = Dispatch::start(&registry, EventName::Push);
    let dispatch = dispatch.record(HandlerReport::Skipped).unwrap();
    assert_eq!(dispatch.step(), Step::Done(DispatchOutcome::Ignored));
    let dispatch = dispatch.record(HandlerReport::Acted).unwrap();
    assert_eq!(dispatch.step(), Step::Done(DispatchOutcome::Ignored));
    let dispatch = dispatch.record(HandlerReport::Failed("late".to_string())).unwrap();
    assert_eq!(dispatch.step(), Step::Done(DispatchOutcome::Ignored));
}
