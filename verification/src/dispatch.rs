use vstd::prelude::*;

use crate::event::EventName;

verus! {

/// What one handler did with an event.
pub enum HandlerReport {
    /// The handler performed a side effect.
    Acted,
    /// The handler had nothing to do.
    Skipped,
    /// The handler failed, for this reason.
    Failed(String),
}

/// How the dispatch of an event ended when no handler failed.
#[derive(Clone, Copy, Debug, PartialEq, Eq, Structural)]
pub enum DispatchOutcome {
    /// At least one handler acted on the event.
    Processed,
    /// No handler acted on the event, or none is registered for its kind.
    Ignored,
}

/// The failure of a handler, as the dispatcher passes it on.
#[derive(Debug)]
pub struct DispatchError {
    pub cause: String,
}

/// What the caller of a dispatch does next.
#[derive(Clone, Copy, Debug, PartialEq, Eq, Structural)]
pub enum Step {
    /// Invoke the handler with this number and record its report.
    Invoke(usize),
    /// Every handler was invoked: the dispatch ended with this outcome.
    Done(DispatchOutcome),
}

/// The numbers of the handlers registered for `kind`, in ascending order;
/// handler `i` is registered for `kinds[i]`.
pub open spec fn registered_for(kinds: Seq<EventName>, kind: EventName) -> Seq<usize>
    decreases kinds.len(),
{
    if kinds.len() == 0 {
        Seq::empty()
    } else {
        let earlier = registered_for(kinds.drop_last(), kind);
        if kinds.last() == kind {
            earlier.push((kinds.len() - 1) as usize)
        } else {
            earlier
        }
    }
}

/// The table of handlers: for each handler, in the order of registration,
/// the kind of event that it reacts to.
pub struct HandlerRegistry {
    kinds: Vec<EventName>,
}

impl View for HandlerRegistry {
    type V = Seq<EventName>;

    closed spec fn view(&self) -> Seq<EventName> {
        self.kinds@
    }
}

impl HandlerRegistry {
    /// A table without handlers.
    pub fn new() -> (registry: HandlerRegistry)
        ensures
            registry@ == Seq::<EventName>::empty(),
    {
        HandlerRegistry { kinds: Vec::new() }
    }

    /// Registers one more handler, for events of `kind`. Returns its number.
    pub fn register(&mut self, kind: EventName) -> (handler: usize)
        ensures
            final(self)@ == old(self)@.push(kind),
            handler == old(self)@.len(),
    {
        let handler = self.kinds.len();
        self.kinds.push(kind);
        handler
    }

    /// The number of handlers.
    pub fn len(&self) -> (n: usize)
        ensures
            n == self@.len(),
    {
        self.kinds.len()
    }

    /// The numbers of the handlers registered for `kind`, in the order of
    /// registration.
    pub fn handlers_for(&self, kind: EventName) -> (handlers: Vec<usize>)
        ensures
            handlers@ == registered_for(self@, kind),
    {
        let mut handlers: Vec<usize> = Vec::new();
        let mut i: usize = 0;
        assert(self@.take(0) =~= Seq::<EventName>::empty());
        while i < self.kinds.len()
            invariant
                i <= self.kinds.len(),
                handlers@ == registered_for(self@.take(i as int), kind),
            decreases self.kinds.len() - i,
        {
            assert(self@.take(i as int + 1).drop_last() =~= self@.take(i as int));
            if self.kinds[i] == kind {
                handlers.push(i);
            }
            i += 1;
        }
        assert(self@.take(i as int) =~= self@);
        handlers
    }
}

/// The state of one dispatch: the handlers that are still to be invoked, in
/// order, and whether a handler has acted so far.
pub struct DispatchState {
    pub remaining: Seq<usize>,
    pub acted: bool,
}

/// What is to be done in `state`.
pub open spec fn step_of(state: DispatchState) -> Step {
    if state.remaining.len() > 0 {
        Step::Invoke(state.remaining[0])
    } else if state.acted {
        Step::Done(DispatchOutcome::Processed)
    } else {
        Step::Done(DispatchOutcome::Ignored)
    }
}

/// The state after the handler that was to be invoked in `state` gave
/// `report`: a failure ends the dispatch at once. With no handler left the
/// report changes nothing.
pub open spec fn recorded(state: DispatchState, report: HandlerReport) -> Result<
    DispatchState,
    DispatchError,
> {
    if state.remaining.len() == 0 {
        Ok(state)
    } else {
        match report {
            HandlerReport::Failed(cause) => Err(DispatchError { cause }),
            HandlerReport::Acted => Ok(
                DispatchState { remaining: state.remaining.drop_first(), acted: true },
            ),
            HandlerReport::Skipped => Ok(
                DispatchState { remaining: state.remaining.drop_first(), acted: state.acted },
            ),
        }
    }
}

/// How a dispatch ends whose handlers give `reports`, in order: with the
/// first failure if there is one; otherwise `Processed` if a handler acted,
/// and `Ignored` if none did.
pub open spec fn outcome_of_reports(reports: Seq<HandlerReport>) -> Result<
    DispatchOutcome,
    DispatchError,
>
    decreases reports.len(),
{
    if reports.len() == 0 {
        Ok(DispatchOutcome::Ignored)
    } else {
        match reports[0] {
            HandlerReport::Failed(cause) => Err(DispatchError { cause }),
            HandlerReport::Acted => match outcome_of_reports(reports.drop_first()) {
                Ok(_) => Ok(DispatchOutcome::Processed),
                Err(e) => Err(e),
            },
            HandlerReport::Skipped => outcome_of_reports(reports.drop_first()),
        }
    }
}

/// How the dispatch that stands in `state` ends when the handlers that are
/// still to be invoked give `reports`, one each and in order.
pub open spec fn run_from(state: DispatchState, reports: Seq<HandlerReport>) -> Result<
    DispatchOutcome,
    DispatchError,
>
    decreases reports.len(),
{
    match step_of(state) {
        Step::Done(outcome) => Ok(outcome),
        Step::Invoke(_) => if reports.len() == 0 {
            Ok(DispatchOutcome::Ignored)
        } else {
            match recorded(state, reports[0]) {
                Ok(next) => run_from(next, reports.drop_first()),
                Err(e) => Err(e),
            }
        },
    }
}

/// One dispatch in progress. The caller invokes the handler that `step`
/// names, hands its report to `record`, and goes on until `step` says `Done`
/// or `record` fails.
pub struct Dispatch {
    handlers: Vec<usize>,
    next: usize,
    acted: bool,
}

impl View for Dispatch {
    type V = DispatchState;

    closed spec fn view(&self) -> DispatchState {
        DispatchState { remaining: self.handlers@.skip(self.next as int), acted: self.acted }
    }
}

impl Dispatch {
    #[verifier::type_invariant]
    spec fn in_bounds(&self) -> bool {
        self.next <= self.handlers@.len()
    }

    /// Begins the dispatch of an event of `kind`: the handlers registered
    /// for it are to be invoked in the order of registration.
    pub fn start(registry: &HandlerRegistry, kind: EventName) -> (dispatch: Dispatch)
        ensures
            dispatch@ == (DispatchState { remaining: registered_for(registry@, kind), acted: false }),
    {
        let handlers = registry.handlers_for(kind);
        assert(handlers@.skip(0) =~= handlers@);
        Dispatch { handlers, next: 0, acted: false }
    }

    /// What is to be done now.
    pub fn step(&self) -> (step: Step)
        ensures
            step == step_of(self@),
    {
        proof {
            use_type_invariant(self);
        }
        if self.next < self.handlers.len() {
            Step::Invoke(self.handlers[self.next])
        } else if self.acted {
            Step::Done(DispatchOutcome::Processed)
        } else {
            Step::Done(DispatchOutcome::Ignored)
        }
    }

    /// Records the report of the handler that `step` named. A failure ends
    /// the dispatch: it is passed on with its cause, and no further handler
    /// is invoked.
    pub fn record(self, report: HandlerReport) -> (next: Result<Dispatch, DispatchError>)
        ensures
            match recorded(self@, report) {
                Ok(state) => next is Ok && next->Ok_0@ == state,
                Err(e) => next is Err && next->Err_0 == e,
            },
    {
        proof {
            use_type_invariant(&self);
        }
        if self.next >= self.handlers.len() {
            return Ok(self);
        }
        let ghost before = self@;
        match report {
            HandlerReport::Failed(cause) => Err(DispatchError { cause }),
            HandlerReport::Acted => {
                let after = Dispatch { handlers: self.handlers, next: self.next + 1, acted: true };
                assert(after@.remaining =~= before.remaining.drop_first());
                Ok(after)
            },
            HandlerReport::Skipped => {
                let after = Dispatch {
                    handlers: self.handlers,
                    next: self.next + 1,
                    acted: self.acted,
                };
                assert(after@.remaining =~= before.remaining.drop_first());
                Ok(after)
            },
        }
    }
}

/// The result of a whole dispatch is the outcome of its handlers' reports:
/// from a state in which as many handlers remain as there are reports, the
/// dispatch ends with the first failure; without one it ends `Processed` if
/// a handler acted, now or before, and `Ignored` otherwise.
pub proof fn lemma_run_follows_reports(state: DispatchState, reports: Seq<HandlerReport>)
    requires
        state.remaining.len() == reports.len(),
    ensures
        run_from(state, reports) == match outcome_of_reports(reports) {
            Ok(outcome) => if state.acted {
                Ok(DispatchOutcome::Processed)
            } else {
                Ok(outcome)
            },
            Err(e) => Err(e),
        },
    decreases reports.len(),
{
    if reports.len() > 0 {
        match recorded(state, reports[0]) {
            Ok(next) => {
                lemma_run_follows_reports(next, reports.drop_first());
            },
            Err(_) => {},
        }
    }
}

/// A dispatch to a kind for which no handler is registered ends at once,
/// and is ignored.
pub proof fn lemma_no_handler_ignored(kinds: Seq<EventName>, kind: EventName)
    requires
        registered_for(kinds, kind).len() == 0,
    ensures
        step_of(DispatchState { remaining: registered_for(kinds, kind), acted: false }) == Step::Done(
            DispatchOutcome::Ignored,
        ),
{
}

/// The outcome of reports without a failure: `Processed` exactly when some
/// handler acted.
pub proof fn lemma_outcome_without_failure(reports: Seq<HandlerReport>)
    requires
        forall|i: int| 0 <= i < reports.len() ==> !((#[trigger] reports[i]) is Failed),
    ensures
        outcome_of_reports(reports) is Ok,
        outcome_of_reports(reports) == Ok::<DispatchOutcome, DispatchError>(DispatchOutcome::Processed)
            <==> exists|i: int| 0 <= i < reports.len() && (#[trigger] reports[i]) is Acted,
    decreases reports.len(),
{
    if reports.len() > 0 {
        let rest = reports.drop_first();
        assert forall|i: int| 0 <= i < rest.len() implies !((#[trigger] rest[i]) is Failed) by {
            assert(rest[i] == reports[i + 1]);
        }
        lemma_outcome_without_failure(rest);
        if exists|i: int| 0 <= i < rest.len() && (#[trigger] rest[i]) is Acted {
            let i = choose|i: int| 0 <= i < rest.len() && (#[trigger] rest[i]) is Acted;
            assert(reports[i + 1] is Acted);
        }
        if exists|i: int| 0 <= i < reports.len() && (#[trigger] reports[i]) is Acted {
            let i = choose|i: int| 0 <= i < reports.len() && (#[trigger] reports[i]) is Acted;
            if i > 0 {
                assert(rest[i - 1] is Acted);
            }
        }
    }
}

/// The outcome of reports with a failure is the first failure, with its
/// cause, whatever the handlers before it did and whatever those after it
/// would have done.
pub proof fn lemma_outcome_first_failure(reports: Seq<HandlerReport>, first: int)
    requires
        0 <= first < reports.len(),
        reports[first] is Failed,
        forall|i: int| 0 <= i < first ==> !((#[trigger] reports[i]) is Failed),
    ensures
        outcome_of_reports(reports) == Err::<DispatchOutcome, DispatchError>(
            DispatchError { cause: reports[first]->Failed_0 },
        ),
    decreases reports.len(),
{
    if first > 0 {
        let rest = reports.drop_first();
        assert(rest[first - 1] == reports[first]);
        assert forall|i: int| 0 <= i < first - 1 implies !((#[trigger] rest[i]) is Failed) by {
            assert(rest[i] == reports[i + 1]);
        }
        lemma_outcome_first_failure(rest, first - 1);
    }
}

} // verus!
