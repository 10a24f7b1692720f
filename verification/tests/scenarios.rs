use preparer::builder::{build_static_graph, LadderConfig};
use preparer::graph::PortLinkState;
use preparer::router::{RouteOutcome, Router, SkipReason};
use preparer::stage::StageKind;
use preparer::stream::{RouteState, StreamDescriptor};
use preparer::supervisor::{Directive, FailureReport, RunResult, RunState, StatusEvent, Supervisor};

fn subtitle_sinks(graph: &preparer::graph::PipelineGraph) -> usize {
    let mut count = 0;
    for id in 0..graph.stage_count() {
        if let Some(StageKind::ImageSequenceSink { .. }) = graph.stage_at(id) {
            count += 1;
        }
    }
    count
}

#[test]
fn well_formed_input_runs_to_completion() {
    let mut built = build_static_graph(&LadderConfig { ladder: vec![6, 2], ..LadderConfig::default() })
        .unwrap();
    let mut router = Router::for_graph(&built, "out").unwrap();
    let mut supervisor = Supervisor::new();
    assert_eq!(supervisor.start(true), Directive::Wait);
    assert_eq!(supervisor.on_event(StatusEvent::StateChanged), Directive::Wait);

    assert_eq!(
        router.route(&mut built.graph, 1, &StreamDescriptor::new("video/x-raw"), true),
        RouteOutcome::Routed { class: RouteState::Video, track: None }
    );
    assert_eq!(
        router.route(&mut built.graph, 2, &StreamDescriptor::new("audio/x-raw"), true),
        RouteOutcome::Routed { class: RouteState::Audio, track: None }
    );
    assert_eq!(supervisor.on_event(StatusEvent::StateChanged), Directive::Wait);
    assert_eq!(supervisor.on_event(StatusEvent::EndOfStream), Directive::Teardown);
    assert_eq!(supervisor.state(), RunState::Completed);

    let graph = &built.graph;
    assert_eq!(built.rungs.len(), 2);
    assert_eq!(graph.in_degree(built.packager), 3);
    for rung in &built.rungs {
        assert!(graph.connects(rung.tail().unwrap(), built.packager));
    }
    assert!(graph.connects(built.audio.tail().unwrap(), built.packager));
    assert_eq!(graph.input_state(built.splitter), PortLinkState::Linked);
    assert_eq!(graph.input_state(built.audio.head().unwrap()), PortLinkState::Linked);
    assert_eq!(router.tracks_issued(), 0);
    assert_eq!(subtitle_sinks(graph), 0);
    assert_eq!(graph.stage_count(), 28);

    supervisor.terminate(&mut built.graph);
    assert_eq!(supervisor.state(), RunState::Terminated);
    assert_eq!(supervisor.exit_code(), 0);
    assert!(!built.graph.is_live());
}

#[test]
fn malformed_subtitle_does_not_fail_the_run() {
    let mut built = build_static_graph(&LadderConfig::default()).unwrap();
    let mut router = Router::for_graph(&built, "out").unwrap();
    let mut supervisor = Supervisor::new();
    supervisor.start(true);

    assert_eq!(
        router.route(&mut built.graph, 1, &StreamDescriptor::new("video/x-raw"), true),
        RouteOutcome::Routed { class: RouteState::Video, track: None }
    );
    let outcome = router.route(&mut built.graph, 2, &StreamDescriptor::new("subtitle/x-broken"), false);
    assert_eq!(outcome, RouteOutcome::StreamIgnored { refusal: None, track: Some(0) });
    assert_eq!(router.subtitle_branch(0).directory(), "out/subtitles_0");
    assert_eq!(router.state_of(2), RouteState::Ignored);
    assert_eq!(supervisor.state(), RunState::Running);
    assert_eq!(
        router.route(&mut built.graph, 3, &StreamDescriptor::new("audio/x-raw"), true),
        RouteOutcome::Routed { class: RouteState::Audio, track: None }
    );

    assert_eq!(subtitle_sinks(&built.graph), 0);
    assert_eq!(built.graph.stage_count(), 28);
    assert_eq!(built.graph.link_count(), 29);
    assert_eq!(built.graph.in_degree(built.packager), 3);

    assert_eq!(supervisor.on_event(StatusEvent::EndOfStream), Directive::Teardown);
    assert_eq!(supervisor.state(), RunState::Completed);
    supervisor.terminate(&mut built.graph);
    assert_eq!(*supervisor.result(), RunResult::Completed);
    assert_eq!(supervisor.exit_code(), 0);
}

#[test]
fn subtitle_track_joins_a_running_graph() {
    let mut built = build_static_graph(&LadderConfig::default()).unwrap();
    let mut router = Router::for_graph(&built, "/tmp/out/").unwrap();
    let mut supervisor = Supervisor::new();
    supervisor.start(true);
    router.route(&mut built.graph, 1, &StreamDescriptor::new("video/x-raw"), true);
    router.route(&mut built.graph, 2, &StreamDescriptor::new("audio/x-raw"), true);
    let before = built.graph.link_count();
    assert_eq!(
        router.route(&mut built.graph, 3, &StreamDescriptor::new("text/x-raw"), true),
        RouteOutcome::Routed { class: RouteState::Subtitle, track: Some(0) }
    );
    for index in 0..before {
        assert!(built.graph.link_at(index).is_some());
    }
    assert_eq!(subtitle_sinks(&built.graph), 1);
    assert_eq!(router.subtitle_branch(0).frame_pattern(), "/tmp/out/subtitles_0/frame_%05d.png");
    assert_eq!(supervisor.state(), RunState::Running);
    assert_eq!(built.graph.in_degree(built.packager), 3);
}

#[test]
fn runtime_error_fails_the_run() {
    let mut built = build_static_graph(&LadderConfig::default()).unwrap();
    let mut router = Router::for_graph(&built, "out").unwrap();
    let mut supervisor = Supervisor::new();
    supervisor.start(true);
    router.route(&mut built.graph, 1, &StreamDescriptor::new("video/x-raw"), true);
    let report = FailureReport {
        source: "encoder".to_string(),
        message: "could not encode".to_string(),
        detail: "out of memory".to_string(),
    };
    assert_eq!(supervisor.on_event(StatusEvent::Error(report.clone())), Directive::Teardown);
    supervisor.terminate(&mut built.graph);
    assert_eq!(supervisor.state(), RunState::Terminated);
    assert_eq!(*supervisor.result(), RunResult::Failed(report));
    assert_eq!(supervisor.exit_code(), 1);
    assert_eq!(
        router.route(&mut built.graph, 2, &StreamDescriptor::new("audio/x-raw"), true),
        RouteOutcome::Skipped(SkipReason::GraphGone)
    );
}
