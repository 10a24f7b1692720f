//! The pipeline supervisor: the life cycle of one run, from the start of the
//! graph to its teardown.
//!
//! The supervisor does not wait on the engine itself. The caller starts the
//! graph and reports whether it started, hands over each status event that
//! the graph emits, and tears the graph down when the supervisor says that
//! the run is over.

use crate::graph::PipelineGraph;
use vstd::prelude::*;

verus! {

/// Where a run stands.
#[derive(Clone, Copy, PartialEq, Eq, Debug, Structural)]
pub enum RunState {
    /// The graph is built and not started.
    Idle,
    /// The graph runs; the supervisor waits for a terminal event.
    Running,
    /// The stream ended: every rendition is complete.
    Completed,
    /// The run failed.
    Failed,
    /// The graph is stopped and released.
    Terminated,
}

/// What the graph reports of an error: the stage that raised it, the
/// message, and diagnostic detail.
#[derive(PartialEq, Eq, Debug)]
pub struct FailureReport {
    pub source: String,
    pub message: String,
    pub detail: String,
}

/// Mathematical content of a `FailureReport`.
pub struct ReportView {
    pub source: Seq<char>,
    pub message: Seq<char>,
    pub detail: Seq<char>,
}

impl View for FailureReport {
    type V = ReportView;

    open spec fn view(&self) -> ReportView {
        ReportView { source: self.source@, message: self.message@, detail: self.detail@ }
    }
}

impl Clone for FailureReport {
    fn clone(&self) -> (copy: FailureReport)
        ensures
            copy@ == self@,
    {
        FailureReport {
            source: self.source.clone(),
            message: self.message.clone(),
            detail: self.detail.clone(),
        }
    }
}

/// A status event of the graph.
#[derive(PartialEq, Eq, Debug)]
pub enum StatusEvent {
    /// The stream ended.
    EndOfStream,
    /// A stage raised an error.
    Error(FailureReport),
    /// A stage changed its state. This is information only.
    StateChanged,
    /// Any other event.
    Other,
}

/// Mathematical content of a `StatusEvent`.
pub enum EventView {
    EndOfStream,
    Error(ReportView),
    StateChanged,
    Other,
}

impl View for StatusEvent {
    type V = EventView;

    open spec fn view(&self) -> EventView {
        match self {
            StatusEvent::EndOfStream => EventView::EndOfStream,
            StatusEvent::Error(report) => EventView::Error(report@),
            StatusEvent::StateChanged => EventView::StateChanged,
            StatusEvent::Other => EventView::Other,
        }
    }
}

impl EventView {
    /// The event ends the run.
    pub open spec fn is_terminal(self) -> bool {
        self is EndOfStream || self is Error
    }
}

/// How a run ended, once it has.
#[derive(PartialEq, Eq, Debug)]
pub enum RunResult {
    /// The run has not ended.
    Undecided,
    /// The stream ended.
    Completed,
    /// The graph did not start.
    StartRefused,
    /// A stage raised an error while the graph ran.
    Failed(FailureReport),
}

/// Mathematical content of a `RunResult`.
pub enum ResultView {
    Undecided,
    Completed,
    StartRefused,
    Failed(ReportView),
}

impl View for RunResult {
    type V = ResultView;

    open spec fn view(&self) -> ResultView {
        match self {
            RunResult::Undecided => ResultView::Undecided,
            RunResult::Completed => ResultView::Completed,
            RunResult::StartRefused => ResultView::StartRefused,
            RunResult::Failed(report) => ResultView::Failed(report@),
        }
    }
}

/// What the caller is to do next.
#[derive(Clone, Copy, PartialEq, Eq, Debug, Structural)]
pub enum Directive {
    /// Wait for the next status event.
    Wait,
    /// The run is over: tear the graph down.
    Teardown,
}

/// Mathematical content of a supervisor.
pub struct SupervisorView {
    pub state: RunState,
    pub result: ResultView,
}

impl SupervisorView {
    /// A supervisor before the start.
    pub open spec fn idle() -> SupervisorView {
        SupervisorView { state: RunState::Idle, result: ResultView::Undecided }
    }

    /// The state and the result agree: a run that has not ended has no
    /// result, a completed run has completed, a failed run has its failure.
    pub open spec fn consistent(self) -> bool {
        match self.state {
            RunState::Idle => self.result is Undecided,
            RunState::Running => self.result is Undecided,
            RunState::Completed => self.result is Completed,
            RunState::Failed => self.result is StartRefused || self.result is Failed,
            RunState::Terminated => true,
        }
    }

    /// The supervisor after the start was requested and the graph started
    /// or, with `started` false, refused. Only an idle supervisor starts.
    pub open spec fn started(self, started: bool) -> SupervisorView {
        if self.state != RunState::Idle {
            self
        } else if started {
            SupervisorView { state: RunState::Running, ..self }
        } else {
            SupervisorView { state: RunState::Failed, result: ResultView::StartRefused }
        }
    }

    /// The supervisor after `event`. Only a running supervisor hears events:
    /// the end of the stream completes the run, an error fails it, and
    /// anything else changes nothing.
    pub open spec fn after(self, event: EventView) -> SupervisorView {
        if self.state != RunState::Running {
            self
        } else {
            match event {
                EventView::EndOfStream => SupervisorView {
                    state: RunState::Completed,
                    result: ResultView::Completed,
                },
                EventView::Error(report) => SupervisorView {
                    state: RunState::Failed,
                    result: ResultView::Failed(report),
                },
                _ => self,
            }
        }
    }

    /// The supervisor after the events of `events`, in order.
    pub open spec fn after_all(self, events: Seq<EventView>) -> SupervisorView
        decreases events.len(),
    {
        if events.len() == 0 {
            self
        } else {
            self.after_all(events.drop_last()).after(events.last())
        }
    }

    /// What the caller is to do in this state.
    pub open spec fn directive(self) -> Directive {
        match self.state {
            RunState::Idle => Directive::Wait,
            RunState::Running => Directive::Wait,
            _ => Directive::Teardown,
        }
    }

    /// The run has been started and not yet torn down.
    pub open spec fn holds_graph(self) -> bool {
        self.state == RunState::Running || self.state == RunState::Completed || self.state
            == RunState::Failed
    }

    /// The supervisor after teardown. The result stays.
    pub open spec fn terminated(self) -> SupervisorView {
        if self.holds_graph() {
            SupervisorView { state: RunState::Terminated, ..self }
        } else {
            self
        }
    }

    /// The status with which the process exits: 0 after a completed run, 1
    /// otherwise.
    pub open spec fn exit_code(self) -> i32 {
        if self.result is Completed {
            0
        } else {
            1
        }
    }
}

/// Events that do not end a run leave a supervisor as it is.
pub proof fn lemma_information_changes_nothing(s: SupervisorView, events: Seq<EventView>)
    requires
        forall|i: int| 0 <= i < events.len() ==> !(#[trigger] events[i]).is_terminal(),
    ensures
        s.after_all(events) == s,
    decreases events.len(),
{
    if events.len() > 0 {
        lemma_information_changes_nothing(s, events.drop_last());
    }
}

/// A supervisor that does not run hears nothing: whatever the events, it
/// stays as it is. In particular a run that has completed or failed is
/// never revived, and never changes its result.
pub proof fn lemma_only_running_hears(s: SupervisorView, events: Seq<EventView>)
    requires
        s.state != RunState::Running,
    ensures
        s.after_all(events) == s,
    decreases events.len(),
{
    if events.len() > 0 {
        lemma_only_running_hears(s, events.drop_last());
    }
}

/// The first terminal event decides a run: a running supervisor that hears
/// `events`, of which the one at `first` is the first that is terminal, ends
/// as that event says, whatever follows it.
pub proof fn lemma_first_terminal_event_decides(
    s: SupervisorView,
    events: Seq<EventView>,
    first: int,
)
    requires
        s.state == RunState::Running,
        0 <= first < events.len(),
        events[first].is_terminal(),
        forall|i: int| 0 <= i < first ==> !(#[trigger] events[i]).is_terminal(),
    ensures
        s.after_all(events) == s.after(events[first]),
        s.after_all(events).state == RunState::Completed || s.after_all(events).state
            == RunState::Failed,
        s.after_all(events).state == RunState::Completed <==> events[first] is EndOfStream,
    decreases events.len(),
{
    let head = events.drop_last();
    if first == events.len() - 1 {
        lemma_information_changes_nothing(s, head);
    } else {
        lemma_first_terminal_event_decides(s, head, first);
    }
}

/// Supervises one run.
#[derive(Debug)]
pub struct Supervisor {
    state: RunState,
    result: RunResult,
}

impl View for Supervisor {
    type V = SupervisorView;

    closed spec fn view(&self) -> SupervisorView {
        SupervisorView { state: self.state, result: self.result@ }
    }
}

impl Supervisor {
    /// What holds of every supervisor: its state and its result agree.
    #[verifier::type_invariant]
    pub open spec fn inv(self) -> bool {
        self@.consistent()
    }

    /// Makes the supervisor of a graph that is built and not started.
    pub fn new() -> (s: Supervisor)
        ensures
            s@ == SupervisorView::idle(),
    {
        Supervisor { state: RunState::Idle, result: RunResult::Undecided }
    }

    /// Where the run stands.
    pub fn state(&self) -> (state: RunState)
        ensures
            state == self@.state,
    {
        self.state
    }

    /// How the run ended, once it has.
    pub fn result(&self) -> (result: &RunResult)
        ensures
            result@ == self@.result,
    {
        &self.result
    }

    /// Takes note that the start of the graph was requested, and whether the
    /// graph started. A graph that does not start fails the run.
    pub fn start(&mut self, started: bool) -> (next: Directive)
        ensures
            final(self)@ == old(self)@.started(started),
            next == final(self)@.directive(),
    {
        proof {
            use_type_invariant(&*self);
        }
        match self.state {
            RunState::Idle => {
                if started {
                    self.state = RunState::Running;
                    Directive::Wait
                } else {
                    *self = Supervisor { state: RunState::Failed, result: RunResult::StartRefused };
                    Directive::Teardown
                }
            },
            RunState::Running => Directive::Wait,
            _ => Directive::Teardown,
        }
    }

    /// Takes a status event of the graph. While the graph runs, the end of
    /// the stream completes the run and an error fails it, with its report;
    /// every other event is information and changes nothing.
    pub fn on_event(&mut self, event: StatusEvent) -> (next: Directive)
        ensures
            final(self)@ == old(self)@.after(event@),
            next == final(self)@.directive(),
    {
        proof {
            use_type_invariant(&*self);
        }
        match self.state {
            RunState::Idle => Directive::Wait,
            RunState::Running => match event {
                StatusEvent::EndOfStream => {
                    *self = Supervisor { state: RunState::Completed, result: RunResult::Completed };
                    Directive::Teardown
                },
                StatusEvent::Error(report) => {
                    *self = Supervisor { state: RunState::Failed, result: RunResult::Failed(report) };
                    Directive::Teardown
                },
                _ => Directive::Wait,
            },
            _ => Directive::Teardown,
        }
    }

    /// Tears the run down: whatever ended it, and even if nothing has, the
    /// graph of a started run is released. The topology of the graph is not
    /// touched, and the result of the run stays. A supervisor that never
    /// started, or has torn down already, does nothing.
    pub fn terminate(&mut self, graph: &mut PipelineGraph)
        ensures
            final(self)@ == old(self)@.terminated(),
            final(graph)@ == if old(self)@.holds_graph() {
                old(graph)@.released()
            } else {
                old(graph)@
            },
    {
        proof {
            use_type_invariant(&*self);
        }
        match self.state {
            RunState::Idle => {},
            RunState::Terminated => {},
            _ => {
                graph.release();
                self.state = RunState::Terminated;
            },
        }
    }

    /// The status with which the process exits: 0 after a completed run, 1
    /// otherwise.
    pub fn exit_code(&self) -> (code: i32)
        ensures
            code == self@.exit_code(),
    {
        match self.result {
            RunResult::Completed => 0,
            _ => 1,
        }
    }
}

} // verus!
