//! The dynamic stream router: decides, for each stream port that the
//! demultiplexer exposes while the graph runs, what the graph gains.
//!
//! The router works in two steps around the engine. `plan` says what a
//! discovered port calls for; the caller has the engine attempt it; `route`
//! then takes the engine's verdict and brings the graph and the router's
//! records up to date. `route` takes the router and the graph exclusively,
//! so a caller that is notified from several threads serialises its calls,
//! and no two ports are ever routed at once.

use crate::builder::StaticGraph;
use crate::graph::{
    count_into, lemma_beyond_arena_untouched, lemma_chain_keeps_well_formed,
    lemma_count_into_concat, lemma_degree_positive, lemma_link_keeps_well_formed,
    lemma_new_stage_takes_link, lemma_ports_link_once, lemma_stages_keep_well_formed, GraphDelta,
    GraphDeltaView, GraphView, LinkError, PipelineGraph, PortLinkState,
};
use crate::stage::{Link, StageId, StageKind};
use crate::stream::{class_of, MediaKind, RouteState, StreamDescriptor};
use crate::subtitle::{
    lemma_fresh_subtitle_links, subtitle_directory, SubtitleBranch, SubtitleView, SUBTITLE_STAGES,
};
use vstd::pervasive::unreached;
use vstd::prelude::*;
use vstd::string::*;

verus! {

/// Number of stages that a subtitle track adds to the graph: the splitter
/// that takes the track, the branch, and the branch's own splitter and buffers.
pub const TRACK_STAGES: usize = 9;

/// Hands out the numbers of subtitle tracks: 0, 1, 2 and so on, each once.
#[derive(Debug)]
pub struct SubtitleTrackCounter {
    next: usize,
}

impl View for SubtitleTrackCounter {
    type V = usize;

    /// How many numbers were handed out, which is also the next number.
    closed spec fn view(&self) -> usize {
        self.next
    }
}

impl SubtitleTrackCounter {
    /// Makes a counter that has handed out no number.
    pub fn new() -> (c: SubtitleTrackCounter)
        ensures
            c@ == 0,
    {
        SubtitleTrackCounter { next: 0 }
    }

    /// How many numbers were handed out.
    pub fn issued(&self) -> (n: usize)
        ensures
            n == self@,
    {
        self.next
    }

    /// The number that `allocate` would hand out, if one is left.
    pub fn peek(&self) -> (id: Option<usize>)
        ensures
            id == if self@ < usize::MAX {
                Some(self@)
            } else {
                None
            },
    {
        if self.next < usize::MAX {
            Some(self.next)
        } else {
            None
        }
    }

    /// Hands out the next number. Once every number is used the counter
    /// stays as it is and hands out none.
    pub fn allocate(&mut self) -> (id: Option<usize>)
        ensures
            old(self)@ < usize::MAX ==> id == Some(old(self)@) && final(self)@ == old(self)@ + 1,
            old(self)@ == usize::MAX ==> id is None && final(self)@ == old(self)@,
    {
        if self.next < usize::MAX {
            let id: usize = self.next;
            self.next = id + 1;
            Some(id)
        } else {
            None
        }
    }
}

/// What the router knows of one port: the handle under which the engine
/// announced it, and the state that the router gave it.
#[derive(Clone, Copy, PartialEq, Eq, Debug, Structural)]
pub struct PortRecord {
    pub handle: u64,
    pub state: RouteState,
}

/// The state of port `handle` according to `ports`: that of its latest
/// record, or unclassified where it has none.
pub open spec fn state_in(ports: Seq<PortRecord>, handle: u64) -> RouteState
    decreases ports.len(),
{
    if ports.len() == 0 {
        RouteState::Unclassified
    } else if ports.last().handle == handle {
        ports.last().state
    } else {
        state_in(ports.drop_last(), handle)
    }
}

/// Why the router leaves a port alone without attempting a link.
#[derive(Clone, Copy, PartialEq, Eq, Debug, Structural)]
pub enum SkipReason {
    /// The graph was torn down, or does not hold the stages that the router
    /// links against.
    GraphGone,
    /// The port was routed before: this is a repeated notification.
    AlreadyRouted,
    /// The format is neither video, audio nor subtitle.
    Unrecognized,
    /// The input that takes this kind of stream is linked already.
    AlreadyLinked,
    /// No track number or no stage index is left.
    Exhausted,
}

/// What a discovered port calls for.
#[derive(PartialEq, Eq, Debug)]
pub enum RoutePlan {
    /// Nothing is to be attempted.
    Skip(SkipReason),
    /// The graph refuses the link that the port calls for.
    Refuse(LinkError),
    /// The graph is to gain `delta`. A link of `delta` that leaves the
    /// demultiplexer starts at the discovered port. `track` is the number of
    /// the subtitle track, where the port carries one.
    Extend { class: RouteState, track: Option<usize>, delta: GraphDelta },
}

/// Mathematical content of a `RoutePlan`.
pub enum PlanView {
    Skip(SkipReason),
    Refuse(LinkError),
    Extend { class: RouteState, track: Option<usize>, delta: GraphDeltaView },
}

impl View for RoutePlan {
    type V = PlanView;

    open spec fn view(&self) -> PlanView {
        match self {
            RoutePlan::Skip(reason) => PlanView::Skip(*reason),
            RoutePlan::Refuse(e) => PlanView::Refuse(*e),
            RoutePlan::Extend { class, track, delta } => PlanView::Extend {
                class: *class,
                track: *track,
                delta: delta@,
            },
        }
    }
}

/// What became of a discovered port.
#[derive(Clone, Copy, PartialEq, Eq, Debug, Structural)]
pub enum RouteOutcome {
    /// The port is linked and the graph holds what the plan called for.
    Routed { class: RouteState, track: Option<usize> },
    /// Nothing was attempted.
    Skipped(SkipReason),
    /// The link failed and the stream is ignored; the run goes on. `refusal`
    /// holds the graph's refusal, and is `None` where the engine refused.
    /// `track` is the subtitle track whose number is spent: nothing of its
    /// directory may stay behind.
    StreamIgnored { refusal: Option<LinkError>, track: Option<usize> },
}

/// One notification of a discovered port, with the engine's verdict on the
/// link that was attempted for it.
pub struct Discovery {
    pub handle: u64,
    pub kind: MediaKind,
    pub accepted: bool,
}

/// Mathematical content of a router.
pub struct RouterView {
    /// The demultiplexer, whose ports are discovered.
    pub demuxer: StageId,
    /// The stage whose input takes the video stream.
    pub video_input: StageId,
    /// The stage whose input takes the audio stream.
    pub audio_input: StageId,
    /// The directory under which subtitle tracks get theirs.
    pub output_dir: Seq<char>,
    /// The ports routed so far, in order.
    pub ports: Seq<PortRecord>,
    /// How many subtitle track numbers were handed out.
    pub tracks_issued: usize,
}

impl RouterView {
    /// The state of port `handle`.
    pub open spec fn state_of(self, handle: u64) -> RouteState {
        state_in(self.ports, handle)
    }

    /// The three stages that the router links against can be resolved in `g`.
    pub open spec fn resolves(self, g: GraphView) -> bool {
        &&& g.resolve(self.demuxer) is Some
        &&& g.resolve(self.video_input) is Some
        &&& g.resolve(self.audio_input) is Some
    }

    /// The router with one more record.
    pub open spec fn record(self, handle: u64, state: RouteState) -> RouterView {
        RouterView { ports: self.ports.push(PortRecord { handle, state }), ..self }
    }

    /// The router after it handed out `track`, if that is a number.
    pub open spec fn spend(self, track: Option<usize>) -> RouterView {
        if track is Some {
            RouterView { tracks_issued: (self.tracks_issued + 1) as usize, ..self }
        } else {
            self
        }
    }

    /// The branch of subtitle track `track`.
    pub open spec fn subtitle_branch(self, track: usize) -> SubtitleView {
        SubtitleView {
            track_id: track,
            directory: subtitle_directory(self.output_dir, track),
            first: None,
        }
    }

    /// What subtitle track `track` adds to a graph of `n` stages: a splitter
    /// at `n` that takes the discovered port, the branch from `n + 1`, and
    /// the branch's own splitter and buffers from `n + 6`.
    pub open spec fn subtitle_delta(self, n: usize, track: usize) -> GraphDeltaView {
        GraphDeltaView {
            stages: seq![StageKind::Splitter] + self.subtitle_branch(track).stage_kinds()
                + SubtitleView::fan_kinds(),
            links: seq![Link::plain(self.demuxer, n)] + SubtitleView::chain(
                (n + 1) as usize,
                (n + 6) as usize,
                n,
            ),
        }
    }

    /// The plan for a video or audio port, which goes to the input of
    /// `target`: nothing where that input is linked already, else the one
    /// link from the demultiplexer, unless the graph refuses it.
    pub open spec fn direct(self, g: GraphView, class: RouteState, target: StageId) -> PlanView {
        if g.input_state(target) == PortLinkState::Linked {
            PlanView::Skip(SkipReason::AlreadyLinked)
        } else {
            match g.link_fault(self.demuxer, target) {
                Some(fault) => PlanView::Refuse(
                    LinkError { from: self.demuxer, to: target, fault },
                ),
                None => PlanView::Extend {
                    class,
                    track: None,
                    delta: GraphDeltaView {
                        stages: Seq::empty(),
                        links: seq![Link::plain(self.demuxer, target)],
                    },
                },
            }
        }
    }

    /// The plan for a subtitle port: a new splitter and a new branch under
    /// the next track number, unless numbers ran out or the demultiplexer has
    /// no output port to give.
    pub open spec fn attach(self, g: GraphView) -> PlanView {
        if self.tracks_issued == usize::MAX || g.stages.len() + TRACK_STAGES > usize::MAX {
            PlanView::Skip(SkipReason::Exhausted)
        } else {
            match g.output_fault(self.demuxer) {
                Some(fault) => PlanView::Refuse(
                    LinkError { from: self.demuxer, to: g.stages.len() as usize, fault },
                ),
                None => PlanView::Extend {
                    class: RouteState::Subtitle,
                    track: Some(self.tracks_issued),
                    delta: self.subtitle_delta(g.stages.len() as usize, self.tracks_issued),
                },
            }
        }
    }

    /// What the port `handle`, which carries media of kind `kind`, calls for.
    pub open spec fn plan(self, g: GraphView, handle: u64, kind: MediaKind) -> PlanView {
        if !self.resolves(g) {
            PlanView::Skip(SkipReason::GraphGone)
        } else if self.state_of(handle) != RouteState::Unclassified {
            PlanView::Skip(SkipReason::AlreadyRouted)
        } else {
            match kind {
                MediaKind::Unknown => PlanView::Skip(SkipReason::Unrecognized),
                MediaKind::Video => self.direct(g, RouteState::Video, self.video_input),
                MediaKind::Audio => self.direct(g, RouteState::Audio, self.audio_input),
                MediaKind::Subtitle => self.attach(g),
            }
        }
    }

    /// One routing step: the router, the graph and the outcome after the
    /// notification `d`.
    ///
    /// A torn-down graph and a repeated notification change nothing. A port
    /// that is skipped for another reason is recorded: under its class where
    /// only its input was taken, as ignored otherwise. A refused port is
    /// recorded as ignored. Where the plan extends the graph, the track
    /// number is spent, and the engine's verdict decides: accepted, the graph
    /// gains the plan's stages and links and the port is recorded under its
    /// class; refused, the graph stays as it was and the port is ignored.
    pub open spec fn step(self, g: GraphView, d: Discovery) -> (
        RouterView,
        GraphView,
        RouteOutcome,
    ) {
        match self.plan(g, d.handle, d.kind) {
            PlanView::Skip(SkipReason::GraphGone) => (
                self,
                g,
                RouteOutcome::Skipped(SkipReason::GraphGone),
            ),
            PlanView::Skip(SkipReason::AlreadyRouted) => (
                self,
                g,
                RouteOutcome::Skipped(SkipReason::AlreadyRouted),
            ),
            PlanView::Skip(SkipReason::AlreadyLinked) => (
                self.record(d.handle, class_of(d.kind)),
                g,
                RouteOutcome::Skipped(SkipReason::AlreadyLinked),
            ),
            PlanView::Skip(reason) => (
                self.record(d.handle, RouteState::Ignored),
                g,
                RouteOutcome::Skipped(reason),
            ),
            PlanView::Refuse(e) => (
                self.record(d.handle, RouteState::Ignored),
                g,
                RouteOutcome::StreamIgnored { refusal: Some(e), track: None },
            ),
            PlanView::Extend { class, track, delta } => if d.accepted {
                (
                    self.spend(track).record(d.handle, class),
                    g.with_stages(delta.stages).with_links(delta.links),
                    RouteOutcome::Routed { class, track },
                )
            } else {
                (
                    self.spend(track).record(d.handle, RouteState::Ignored),
                    g,
                    RouteOutcome::StreamIgnored { refusal: None, track },
                )
            },
        }
    }

    /// The routing steps for the notifications of `ds`, in order: the router
    /// and the graph reached, and the outcomes.
    pub open spec fn run(self, g: GraphView, ds: Seq<Discovery>) -> (
        RouterView,
        GraphView,
        Seq<RouteOutcome>,
    )
        decreases ds.len(),
    {
        if ds.len() == 0 {
            (self, g, Seq::empty())
        } else {
            let before = self.run(g, ds.drop_last());
            let after = before.0.step(before.1, ds.last());
            (after.0, after.1, before.2.push(after.2))
        }
    }
}

/// The subtitle track numbers that `outcomes` report as spent, in order.
pub open spec fn tracks_of(outcomes: Seq<RouteOutcome>) -> Seq<usize>
    decreases outcomes.len(),
{
    if outcomes.len() == 0 {
        Seq::empty()
    } else {
        let rest = tracks_of(outcomes.drop_last());
        match outcomes.last() {
            RouteOutcome::Routed { track: Some(t), .. } => rest.push(t),
            RouteOutcome::StreamIgnored { track: Some(t), .. } => rest.push(t),
            _ => rest,
        }
    }
}

/// Attaching a subtitle track to a well-formed live graph, step by step: a
/// new splitter takes the link from the demultiplexer, the branch's stages
/// follow, and the branch links in full. The graph gains exactly the delta of
/// the plan and stays well formed.
pub proof fn lemma_subtitle_attaches(r: RouterView, g: GraphView, track: usize)
    requires
        g.well_formed(),
        g.live,
        r.demuxer < g.stages.len(),
        g.stages.len() + TRACK_STAGES <= usize::MAX,
        g.output_fault(r.demuxer) is None,
    ensures
        ({
            let n = g.stages.len() as usize;
            let delta = r.subtitle_delta(n, track);
            let branch = r.subtitle_branch(track);
            let g1 = g.with_stages(seq![StageKind::Splitter]);
            let g2 = g1.with_link(Link::plain(r.demuxer, n));
            let g3 = g2.with_stages(branch.stage_kinds());
            let attached = SubtitleView { first: Some((n + 1) as usize), ..branch };
            &&& g1.link_fault(r.demuxer, n) is None
            &&& attached.linked(g3, n) == (
                g.with_stages(delta.stages).with_links(delta.links),
                None::<LinkError>,
            )
            &&& g.with_stages(delta.stages).with_links(delta.links).well_formed()
        }),
{
    let n = g.stages.len() as usize;
    let delta = r.subtitle_delta(n, track);
    let branch = r.subtitle_branch(track);
    let first = seq![StageKind::Splitter];
    let g1 = g.with_stages(first);
    let link = Link::plain(r.demuxer, n);
    let g2 = g1.with_link(link);
    let kinds = branch.stage_kinds();
    let g3 = g2.with_stages(kinds);
    let attached = SubtitleView { first: Some((n + 1) as usize), ..branch };
    lemma_new_stage_takes_link(g, first, r.demuxer);
    lemma_stages_keep_well_formed(g, first);
    lemma_link_keeps_well_formed(g1, link);
    lemma_stages_keep_well_formed(g2, kinds);
    assert(g3.stages.subrange(n + 1, n + 1 + SUBTITLE_STAGES) =~= kinds);
    assert forall|s: StageId| n + 1 <= s < n + 1 + SUBTITLE_STAGES implies #[trigger] g3.untouched(
        s,
    ) by {
        lemma_beyond_arena_untouched(g, s);
        if g3.has_outgoing(s) {
            let i = choose|i: int| 0 <= i < g3.links.len() && (#[trigger] g3.links[i]).from == s;
            if i < g.links.len() {
                assert(g.links[i].from == s);
            }
        }
        if g3.has_incoming(s) {
            let i = choose|i: int| 0 <= i < g3.links.len() && (#[trigger] g3.links[i]).to == s;
            if i < g.links.len() {
                assert(g.links[i].to == s);
            }
        }
    }
    assert(g3.stages[n as int] == StageKind::Splitter);
    assert(attached.stage_kinds() == kinds);
    assert(attached.fresh_in(g3));
    lemma_fresh_subtitle_links(attached, g3, n);
    let g4 = g3.with_stages(SubtitleView::fan_kinds());
    let chain = SubtitleView::chain((n + 1) as usize, (n + 6) as usize, n);
    lemma_stages_keep_well_formed(g3, SubtitleView::fan_kinds());
    lemma_chain_keeps_well_formed(g4, chain);
    assert(g4.with_links(chain) =~= g.with_stages(delta.stages).with_links(delta.links));
}

/// A routing step keeps a well-formed graph well formed, and takes nothing
/// away from it: the stages and links that it held come first in what it
/// holds afterwards, and it is torn down no more than before.
pub proof fn lemma_step_keeps_well_formed(r: RouterView, g: GraphView, d: Discovery)
    requires
        g.well_formed(),
    ensures
        r.step(g, d).1.well_formed(),
        r.step(g, d).1.live == g.live,
        g.stages.is_prefix_of(r.step(g, d).1.stages),
        g.links.is_prefix_of(r.step(g, d).1.links),
{
    match r.plan(g, d.handle, d.kind) {
        PlanView::Extend { class, track, delta } => {
            if d.accepted {
                let next = g.with_stages(delta.stages).with_links(delta.links);
                if d.kind == MediaKind::Subtitle {
                    lemma_subtitle_attaches(r, g, r.tracks_issued);
                } else {
                    let target = if d.kind == MediaKind::Video {
                        r.video_input
                    } else {
                        r.audio_input
                    };
                    let link = Link::plain(r.demuxer, target);
                    lemma_link_keeps_well_formed(g, link);
                    assert(next =~= g.with_link(link));
                }
            }
        },
        _ => {},
    }
}

/// However many ports are discovered, of whatever kinds and with whatever
/// verdicts, an input port that takes one stream is linked at most once: the
/// graph stays well formed, the in-degree of a stage that does not merge
/// never exceeds one, and a port that is linked stays linked, with the link
/// that it had.
pub proof fn lemma_inputs_link_at_most_once(
    r: RouterView,
    g: GraphView,
    ds: Seq<Discovery>,
    s: StageId,
)
    requires
        g.well_formed(),
        s < g.stages.len(),
        !g.stages[s as int].merges(),
    ensures
        r.run(g, ds).1.well_formed(),
        g.stages.is_prefix_of(r.run(g, ds).1.stages),
        g.links.is_prefix_of(r.run(g, ds).1.links),
        r.run(g, ds).1.live == g.live,
        r.run(g, ds).1.in_degree(s) <= 1,
        g.input_state(s) == PortLinkState::Linked ==> r.run(g, ds).1.input_state(s)
            == PortLinkState::Linked && r.run(g, ds).1.in_degree(s) == g.in_degree(s),
    decreases ds.len(),
{
    let end = r.run(g, ds).1;
    if ds.len() > 0 {
        let before = r.run(g, ds.drop_last());
        lemma_inputs_link_at_most_once(r, g, ds.drop_last(), s);
        lemma_step_keeps_well_formed(before.0, before.1, ds.last());
    }
    assert(end.stages[s as int] == g.stages[s as int]);
    lemma_ports_link_once(end, s);
    lemma_ports_link_once(g, s);
    lemma_degree_positive(end, s);
    lemma_degree_positive(g, s);
    if g.has_incoming(s) {
        let i = choose|i: int| 0 <= i < g.links.len() && (#[trigger] g.links[i]).to == s;
        assert(end.links[i] == g.links[i]);
    }
}

/// One routing step links the video input, or the audio input, only while
/// it is unlinked: if `target` is one of the two and carries a link, the step
/// adds none; if it carries none, the step adds at most one.
pub proof fn lemma_step_links_input_once(
    r: RouterView,
    g: GraphView,
    d: Discovery,
    target: StageId,
)
    requires
        target == r.video_input || target == r.audio_input,
    ensures
        g.in_degree(target) >= 1 ==> r.step(g, d).1.in_degree(target) == g.in_degree(target),
        g.in_degree(target) == 0 ==> r.step(g, d).1.in_degree(target) <= 1,
        r.step(g, d).0.video_input == r.video_input,
        r.step(g, d).0.audio_input == r.audio_input,
{
    lemma_degree_positive(g, r.video_input);
    lemma_degree_positive(g, r.audio_input);
    match r.plan(g, d.handle, d.kind) {
        PlanView::Extend { class, track, delta } => {
            if d.accepted {
                lemma_count_into_concat(g.links, delta.links, target);
                reveal_with_fuel(count_into, 9);
                if d.kind == MediaKind::Subtitle {
                    let n = g.stages.len() as usize;
                    assert(delta.links =~= seq![
                        Link::plain(r.demuxer, n),
                        Link::plain(n, (n + 1) as usize),
                        Link::plain((n + 1) as usize, (n + 2) as usize),
                        Link::plain((n + 2) as usize, (n + 6) as usize),
                        Link::plain((n + 6) as usize, (n + 7) as usize),
                        Link::plain((n + 7) as usize, (n + 3) as usize),
                        Link::plain((n + 3) as usize, (n + 4) as usize),
                        Link::plain((n + 6) as usize, (n + 8) as usize),
                    ]);
                    assert(count_into(delta.links, target) == 0);
                } else {
                    let to = if d.kind == MediaKind::Video {
                        r.video_input
                    } else {
                        r.audio_input
                    };
                    assert(delta.links =~= seq![Link::plain(r.demuxer, to)]);
                    assert(count_into(delta.links, target) == if to == target {
                        1nat
                    } else {
                        0nat
                    });
                }
            }
        },
        _ => {},
    }
}

/// However many ports are discovered, of whatever kinds and with whatever
/// verdicts, the router links the video input and the audio input at most
/// once each: an input that carries a link gets no other, and one that
/// carries none gets at most one.
pub proof fn lemma_router_links_inputs_once(
    r: RouterView,
    g: GraphView,
    ds: Seq<Discovery>,
    target: StageId,
)
    requires
        target == r.video_input || target == r.audio_input,
    ensures
        g.in_degree(target) >= 1 ==> r.run(g, ds).1.in_degree(target) == g.in_degree(target),
        g.in_degree(target) == 0 ==> r.run(g, ds).1.in_degree(target) <= 1,
        r.run(g, ds).0.video_input == r.video_input,
        r.run(g, ds).0.audio_input == r.audio_input,
    decreases ds.len(),
{
    if ds.len() > 0 {
        let before = r.run(g, ds.drop_last());
        lemma_router_links_inputs_once(r, g, ds.drop_last(), target);
        lemma_step_links_input_once(before.0, before.1, ds.last(), target);
    }
}

/// Once the input for a kind of stream is linked, a further port of that
/// kind is skipped: no link is attempted and the graph stays as it is.
pub proof fn lemma_linked_input_is_skipped(r: RouterView, g: GraphView, d: Discovery)
    requires
        r.resolves(g),
        r.state_of(d.handle) == RouteState::Unclassified,
        d.kind == MediaKind::Video && g.input_state(r.video_input) == PortLinkState::Linked
            || d.kind == MediaKind::Audio && g.input_state(r.audio_input)
            == PortLinkState::Linked,
    ensures
        r.plan(g, d.handle, d.kind) == PlanView::Skip(SkipReason::AlreadyLinked),
        r.step(g, d).1 == g,
        r.step(g, d).2 == RouteOutcome::Skipped(SkipReason::AlreadyLinked),
{
}

/// A port whose format is not recognised is never linked: the plan for it is
/// to skip it, and the routing step leaves the graph as it is, whatever the
/// verdict.
pub proof fn lemma_unrecognized_is_never_linked(
    r: RouterView,
    g: GraphView,
    handle: u64,
    accepted: bool,
)
    ensures
        r.plan(g, handle, MediaKind::Unknown) is Skip,
        r.step(g, Discovery { handle, kind: MediaKind::Unknown, accepted }).1 == g,
        r.step(g, Discovery { handle, kind: MediaKind::Unknown, accepted }).2 is Skipped,
        class_of(MediaKind::Unknown) == RouteState::Ignored,
{
}

/// A port is routed once: after a step that found the graph, a further
/// notification for the same port is skipped as a repetition and changes
/// neither the router nor the graph.
pub proof fn lemma_repeated_notification_changes_nothing(
    r: RouterView,
    g: GraphView,
    first: Discovery,
    again: Discovery,
)
    requires
        again.handle == first.handle,
        r.step(g, first).2 != RouteOutcome::Skipped(SkipReason::GraphGone),
    ensures
        r.step(g, first).0.step(r.step(g, first).1, again) == (
            r.step(g, first).0,
            r.step(g, first).1,
            RouteOutcome::Skipped(SkipReason::AlreadyRouted),
        ),
{
    let after = r.step(g, first);
    assert(r.resolves(g));
    assert(after.0.resolves(after.1)) by {
        assert(after.1.live == g.live);
        assert(g.stages.is_prefix_of(after.1.stages));
    }
    if r.state_of(first.handle) == RouteState::Unclassified {
        assert(after.0.ports.last().handle == first.handle);
        assert(after.0.ports.last().state != RouteState::Unclassified);
    }
}

/// The subtitle track numbers that a run spends are contiguous: the k-th of
/// them is k more than the count before the run, so a router that starts at
/// nought hands out 0, 1, 2 and so on, and no two ports get the same number.
pub proof fn lemma_tracks_are_contiguous(r: RouterView, g: GraphView, ds: Seq<Discovery>)
    ensures
        r.run(g, ds).0.tracks_issued == r.tracks_issued + tracks_of(r.run(g, ds).2).len(),
        forall|k: int|
            0 <= k < tracks_of(r.run(g, ds).2).len() ==> #[trigger] tracks_of(r.run(g, ds).2)[k]
                == r.tracks_issued + k,
        forall|j: int, k: int|
            0 <= j < k < tracks_of(r.run(g, ds).2).len() ==> tracks_of(r.run(g, ds).2)[j]
                != tracks_of(r.run(g, ds).2)[k],
    decreases ds.len(),
{
    if ds.len() > 0 {
        let before = r.run(g, ds.drop_last());
        let after = before.0.step(before.1, ds.last());
        lemma_tracks_are_contiguous(r, g, ds.drop_last());
        let outcomes = before.2.push(after.2);
        assert(outcomes.drop_last() =~= before.2);
        assert(outcomes.last() == after.2);
    }
}

/// The dynamic stream router. It names the stages that it links against by
/// their indices in the graph and resolves them at each call: once the graph
/// is gone, the router does nothing.
#[derive(Debug)]
pub struct Router {
    demuxer: StageId,
    video_input: StageId,
    audio_input: StageId,
    output_dir: String,
    ports: Vec<PortRecord>,
    counter: SubtitleTrackCounter,
}

impl View for Router {
    type V = RouterView;

    closed spec fn view(&self) -> RouterView {
        RouterView {
            demuxer: self.demuxer,
            video_input: self.video_input,
            audio_input: self.audio_input,
            output_dir: self.output_dir@,
            ports: self.ports@,
            tracks_issued: self.counter@,
        }
    }
}

impl Router {
    /// Makes a router that has seen no port and handed out no track number.
    /// Video goes to the input of `video_input`, audio to that of
    /// `audio_input`, and each subtitle track to a directory of its own
    /// under `output_dir`.
    pub fn new(demuxer: StageId, video_input: StageId, audio_input: StageId, output_dir: &str) -> (r:
        Router)
        ensures
            r@ == (RouterView {
                demuxer,
                video_input,
                audio_input,
                output_dir: output_dir@,
                ports: Seq::empty(),
                tracks_issued: 0,
            }),
    {
        Router {
            demuxer,
            video_input,
            audio_input,
            output_dir: String::from_str(output_dir),
            ports: Vec::new(),
            counter: SubtitleTrackCounter::new(),
        }
    }

    /// Makes the router of a static graph: video goes to the graph's
    /// splitter, audio to the head of its audio branch. `None` where the
    /// audio branch is in no graph.
    pub fn for_graph(built: &StaticGraph, output_dir: &str) -> (r: Option<Router>)
        ensures
            match r {
                Some(router) => built.audio@.first is Some && router@ == (RouterView {
                    demuxer: built.demuxer,
                    video_input: built.splitter,
                    audio_input: built.audio@.first->0,
                    output_dir: output_dir@,
                    ports: Seq::empty(),
                    tracks_issued: 0,
                }),
                None => built.audio@.first is None,
            },
    {
        match built.audio.head() {
            Some(audio_input) => Some(
                Router::new(built.demuxer, built.splitter, audio_input, output_dir),
            ),
            None => None,
        }
    }

    /// The demultiplexer, whose ports are discovered.
    pub fn demuxer(&self) -> (id: StageId)
        ensures
            id == self@.demuxer,
    {
        self.demuxer
    }

    /// The stage whose input takes the video stream.
    pub fn video_input(&self) -> (id: StageId)
        ensures
            id == self@.video_input,
    {
        self.video_input
    }

    /// The stage whose input takes the audio stream.
    pub fn audio_input(&self) -> (id: StageId)
        ensures
            id == self@.audio_input,
    {
        self.audio_input
    }

    /// The directory under which subtitle tracks get theirs.
    pub fn output_dir(&self) -> (dir: &str)
        ensures
            dir@ == self@.output_dir,
    {
        self.output_dir.as_str()
    }

    /// How many subtitle track numbers were handed out.
    pub fn tracks_issued(&self) -> (n: usize)
        ensures
            n == self@.tracks_issued,
    {
        self.counter.issued()
    }

    /// The state of port `handle`: unclassified until the port is routed.
    pub fn state_of(&self, handle: u64) -> (state: RouteState)
        ensures
            state == self@.state_of(handle),
    {
        let mut i: usize = self.ports.len();
        assert(self.ports@.take(i as int) =~= self.ports@);
        while i > 0
            invariant
                i <= self.ports.len(),
                state_in(self.ports@, handle) == state_in(self.ports@.take(i as int), handle),
            decreases i,
        {
            i = i - 1;
            assert(self.ports@.take(i + 1).drop_last() =~= self.ports@.take(i as int));
            if self.ports[i].handle == handle {
                return self.ports[i].state;
            }
        }
        RouteState::Unclassified
    }

    /// The branch of subtitle track `track_id`, not yet in any graph: it
    /// names the directory and the files of the track.
    pub fn subtitle_branch(&self, track_id: usize) -> (b: SubtitleBranch)
        ensures
            b@ == self@.subtitle_branch(track_id),
    {
        SubtitleBranch::new(self.output_dir.as_str(), track_id)
    }

    fn direct(&self, graph: &PipelineGraph, class: RouteState, target: StageId) -> (p: RoutePlan)
        ensures
            p@ == self@.direct(graph@, class, target),
    {
        if graph.has_incoming(target) {
            return RoutePlan::Skip(SkipReason::AlreadyLinked);
        }
        match graph.link_fault(self.demuxer, target) {
            Some(fault) => RoutePlan::Refuse(LinkError { from: self.demuxer, to: target, fault }),
            None => {
                let links = vec![Link::new(self.demuxer, target)];
                assert(links@ =~= seq![Link::plain(self.demuxer, target)]);
                RoutePlan::Extend {
                    class,
                    track: None,
                    delta: GraphDelta { stages: Vec::new(), links },
                }
            },
        }
    }

    fn attach(&self, graph: &PipelineGraph) -> (p: RoutePlan)
        ensures
            p@ == self@.attach(graph@),
    {
        let track: usize = match self.counter.peek() {
            Some(track) => track,
            None => { return RoutePlan::Skip(SkipReason::Exhausted); },
        };
        let n: usize = graph.stage_count();
        if n > usize::MAX - TRACK_STAGES {
            return RoutePlan::Skip(SkipReason::Exhausted);
        }
        match graph.output_fault(self.demuxer) {
            Some(fault) => RoutePlan::Refuse(LinkError { from: self.demuxer, to: n, fault }),
            None => {
                let stages = vec![
                    StageKind::Splitter,
                    StageKind::Buffer,
                    StageKind::TextOverlay,
                    StageKind::ImageEncoder,
                    StageKind::ImageSequenceSink { track_id: track },
                    StageKind::CaptionSink { track_id: track },
                    StageKind::Splitter,
                    StageKind::Buffer,
                    StageKind::Buffer,
                ];
                let links = vec![
                    Link::new(self.demuxer, n),
                    Link::new(n, n + 1),
                    Link::new(n + 1, n + 2),
                    Link::new(n + 2, n + 6),
                    Link::new(n + 6, n + 7),
                    Link::new(n + 7, n + 3),
                    Link::new(n + 3, n + 4),
                    Link::new(n + 6, n + 8),
                ];
                proof {
                    let delta = self@.subtitle_delta(n, track);
                    assert(stages@ =~= delta.stages);
                    assert(links@ =~= delta.links);
                }
                RoutePlan::Extend {
                    class: RouteState::Subtitle,
                    track: Some(track),
                    delta: GraphDelta { stages, links },
                }
            },
        }
    }

    /// Says what the discovered port `handle` calls for, and changes nothing.
    ///
    /// Nothing, where the graph is gone, the port was routed before, the
    /// format is not recognised, or the input for the port's kind is linked
    /// already. Else the link from the demultiplexer to the video or audio
    /// input, or for a subtitle port a new splitter and branch under the next
    /// track number; or the graph's refusal of that link.
    pub fn plan(&self, graph: &PipelineGraph, handle: u64, descriptor: &StreamDescriptor) -> (p:
        RoutePlan)
        ensures
            p@ == self@.plan(graph@, handle, descriptor@.kind),
    {
        if graph.resolve(self.demuxer).is_none() || graph.resolve(self.video_input).is_none()
            || graph.resolve(self.audio_input).is_none() {
            return RoutePlan::Skip(SkipReason::GraphGone);
        }
        if self.state_of(handle) != RouteState::Unclassified {
            return RoutePlan::Skip(SkipReason::AlreadyRouted);
        }
        match descriptor.kind() {
            MediaKind::Unknown => RoutePlan::Skip(SkipReason::Unrecognized),
            MediaKind::Video => self.direct(graph, RouteState::Video, self.video_input),
            MediaKind::Audio => self.direct(graph, RouteState::Audio, self.audio_input),
            MediaKind::Subtitle => self.attach(graph),
        }
    }

    fn attach_subtitle(&self, graph: &mut PipelineGraph, track: usize)
        requires
            old(graph)@.live,
            self@.demuxer < old(graph)@.stages.len(),
            old(graph)@.stages.len() + TRACK_STAGES <= usize::MAX,
            old(graph)@.output_fault(self@.demuxer) is None,
        ensures
            final(graph)@ == old(graph)@.with_stages(
                self@.subtitle_delta(old(graph)@.stages.len() as usize, track).stages,
            ).with_links(self@.subtitle_delta(old(graph)@.stages.len() as usize, track).links),
    {
        proof {
            use_type_invariant(&*graph);
            lemma_subtitle_attaches(self@, graph@, track);
        }
        let tee: usize = match graph.add(StageKind::Splitter) {
            Ok(tee) => tee,
            Err(_) => unreached(),
        };
        match graph.link(Link::new(self.demuxer, tee)) {
            Ok(()) => {},
            Err(_) => unreached(),
        }
        let mut branch = SubtitleBranch::new(self.output_dir.as_str(), track);
        match branch.add_to_pipeline(graph) {
            Ok(()) => {},
            Err(_) => unreached(),
        }
        match branch.link(graph, tee) {
            Ok(()) => {},
            Err(_) => unreached(),
        }
    }

    /// Routes the discovered port `handle` once the engine has answered:
    /// `accepted` tells whether the engine made what `plan` called for. The
    /// router and the graph move by exactly one routing step.
    ///
    /// A failed link is no failure of the run: the stream is ignored and the
    /// graph stays as it was.
    pub fn route(
        &mut self,
        graph: &mut PipelineGraph,
        handle: u64,
        descriptor: &StreamDescriptor,
        accepted: bool,
    ) -> (outcome: RouteOutcome)
        ensures
            (final(self)@, final(graph)@, outcome) == old(self)@.step(
                old(graph)@,
                Discovery { handle, kind: descriptor@.kind, accepted },
            ),
    {
        match self.plan(graph, handle, descriptor) {
            RoutePlan::Skip(SkipReason::GraphGone) => RouteOutcome::Skipped(SkipReason::GraphGone),
            RoutePlan::Skip(SkipReason::AlreadyRouted) => RouteOutcome::Skipped(
                SkipReason::AlreadyRouted,
            ),
            RoutePlan::Skip(SkipReason::AlreadyLinked) => {
                self.ports.push(PortRecord { handle, state: descriptor.class() });
                RouteOutcome::Skipped(SkipReason::AlreadyLinked)
            },
            RoutePlan::Skip(reason) => {
                self.ports.push(PortRecord { handle, state: RouteState::Ignored });
                RouteOutcome::Skipped(reason)
            },
            RoutePlan::Refuse(e) => {
                self.ports.push(PortRecord { handle, state: RouteState::Ignored });
                RouteOutcome::StreamIgnored { refusal: Some(e), track: None }
            },
            RoutePlan::Extend { class, track, delta } => {
                match track {
                    Some(_) => { self.counter.allocate(); },
                    None => {},
                }
                if !accepted {
                    self.ports.push(PortRecord { handle, state: RouteState::Ignored });
                    return RouteOutcome::StreamIgnored { refusal: None, track };
                }
                match track {
                    Some(number) => { self.attach_subtitle(graph, number); },
                    None => {
                        let link = delta.links[0];
                        match graph.link(link) {
                            Ok(()) => {},
                            Err(_) => unreached(),
                        }
                        assert(graph@ =~= old(graph)@.with_stages(delta@.stages).with_links(
                            delta@.links,
                        ));
                    },
                }
                self.ports.push(PortRecord { handle, state: class });
                RouteOutcome::Routed { class, track }
            },
        }
    }
}

} // verus!
