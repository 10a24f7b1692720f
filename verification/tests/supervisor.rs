use preparer::graph::PipelineGraph;
use preparer::stage::{Link, StageKind};
use preparer::supervisor::{
    Directive, FailureReport, RunResult, RunState, StatusEvent, Supervisor,
};

fn report() -> FailureReport {
    FailureReport {
        source: "/pipeline0/encoder".to_string(),
        message: "stream error".to_string(),
        detail: "not negotiated (-4)".to_string(),
    }
}

fn running() -> Supervisor {
    let mut s = Supervisor::new();
    assert_eq!(s.start(true), Directive::Wait);
    s
}

#[test]
fn supervisor_starts_idle() {
    let s = Supervisor::new();
    assert_eq!(s.state(), RunState::Idle);
    assert_eq!(*s.result(), RunResult::Undecided);
    assert_eq!(s.exit_code(), 1);
}

#[test]
fn started_graph_runs() {
    let s = running();
    assert_eq!(s.state(), RunState::Running);
    assert_eq!(*s.result(), RunResult::Undecided);
}

#[test]
fn graph_that_does_not_start_fails_the_run() {
    let mut s = Supervisor::new();
    assert_eq!(s.start(false), Directive::Teardown);
    assert_eq!(s.state(), RunState::Failed);
    assert_eq!(*s.result(), RunResult::StartRefused);
    assert_eq!(s.exit_code(), 1);
}

#[test]
fn second_start_changes_nothing() {
    let mut s = running();
    assert_eq!(s.start(false), Directive::Wait);
    assert_eq!(s.state(), RunState::Running);
    let mut failed = Supervisor::new();
    failed.start(false);
    assert_eq!(failed.start(true), Directive::Teardown);
    assert_eq!(failed.state(), RunState::Failed);
}

#[test]
fn end_of_stream_completes_the_run() {
    let mut s = running();
    assert_eq!(s.on_event(StatusEvent::EndOfStream), Directive::Teardown);
    assert_eq!(s.state(), RunState::Completed);
    assert_eq!(*s.result(), RunResult::Completed);
    assert_eq!(s.exit_code(), 0);
}

#[test]
fn error_fails_the_run_with_its_report() {
    let mut s = running();
    assert_eq!(s.on_event(StatusEvent::Error(report())), Directive::Teardown);
    assert_eq!(s.state(), RunState::Failed);
    assert_eq!(*s.result(), RunResult::Failed(report()));
    assert_eq!(s.exit_code(), 1);
}

#[test]
fn state_changes_are_information_only() {
    let mut s = running();
    for _ in 0..10 {
        assert_eq!(s.on_event(StatusEvent::StateChanged), Directive::Wait);
        assert_eq!(s.on_event(StatusEvent::Other), Directive::Wait);
        assert_eq!(s.state(), RunState::Running);
    }
    assert_eq!(*s.result(), RunResult::Undecided);
}

#[test]
fn idle_supervisor_hears_nothing() {
    let mut s = Supervisor::new();
    assert_eq!(s.on_event(StatusEvent::EndOfStream), Directive::Wait);
    assert_eq!(s.on_event(StatusEvent::Error(report())), Directive::Wait);
    assert_eq!(s.state(), RunState::Idle);
    assert_eq!(*s.result(), RunResult::Undecided);
}

#[test]
fn first_terminal_event_decides() {
    let mut s = running();
    s.on_event(StatusEvent::StateChanged);
    s.on_event(StatusEvent::EndOfStream);
    assert_eq!(s.on_event(StatusEvent::Error(report())), Directive::Teardown);
    assert_eq!(s.state(), RunState::Completed);
    assert_eq!(s.exit_code(), 0);
    let mut f = running();
    f.on_event(StatusEvent::Error(report()));
    assert_eq!(f.on_event(StatusEvent::EndOfStream), Directive::Teardown);
    assert_eq!(f.state(), RunState::Failed);
    assert_eq!(*f.result(), RunResult::Failed(report()));
}

#[test]
fn teardown_releases_the_graph_after_completion() {
    let mut graph = PipelineGraph::new();
    graph.add_many(&vec![StageKind::Buffer, StageKind::Buffer]).unwrap();
    graph.link(Link::new(0, 1)).unwrap();
    let mut s = running();
    s.on_event(StatusEvent::EndOfStream);
    s.terminate(&mut graph);
    assert_eq!(s.state(), RunState::Terminated);
    assert_eq!(*s.result(), RunResult::Completed);
    assert_eq!(s.exit_code(), 0);
    assert!(!graph.is_live());
    assert_eq!(graph.stage_count(), 2);
    assert_eq!(graph.link_count(), 1);
}

#[test]
fn teardown_releases_the_graph_after_failure() {
    let mut graph = PipelineGraph::new();
    let mut s = running();
    s.on_event(StatusEvent::Error(report()));
    s.terminate(&mut graph);
    assert_eq!(s.state(), RunState::Terminated);
    assert_eq!(*s.result(), RunResult::Failed(report()));
    assert_eq!(s.exit_code(), 1);
    assert!(!graph.is_live());
    let mut refused = Supervisor::new();
    refused.start(false);
    let mut other = PipelineGraph::new();
    refused.terminate(&mut other);
    assert_eq!(refused.state(), RunState::Terminated);
    assert_eq!(*refused.result(), RunResult::StartRefused);
    assert!(!other.is_live());
}

#[test]
fn teardown_of_a_running_graph_leaves_the_run_undecided() {
    let mut graph = PipelineGraph::new();
    let mut s = running();
    s.terminate(&mut graph);
    assert_eq!(s.state(), RunState::Terminated);
    assert_eq!(*s.result(), RunResult::Undecided);
    assert_eq!(s.exit_code(), 1);
    assert!(!graph.is_live());
}

#[test]
fn teardown_before_the_start_does_nothing() {
    let mut graph = PipelineGraph::new();
    let mut s = Supervisor::new();
    s.terminate(&mut graph);
    assert_eq!(s.state(), RunState::Idle);
    assert!(graph.is_live());
}

#[test]
fn terminated_supervisor_stays_terminated() {
    let mut graph = PipelineGraph::new();
    let mut s = running();
    s.on_event(StatusEvent::EndOfStream);
    s.terminate(&mut graph);
    let mut fresh = PipelineGraph::new();
    s.terminate(&mut fresh);
    assert!(fresh.is_live());
    assert_eq!(s.on_event(StatusEvent::Error(report())), Directive::Teardown);
    assert_eq!(s.start(true), Directive::Teardown);
    assert_eq!(s.state(), RunState::Terminated);
    assert_eq!(*s.result(), RunResult::Completed);
}
