//! Video ladder rungs: the chain of stages that turns decoded video into one
//! video rendition.

use crate::graph::{AttachError, GraphView, LinkError, LinkFault, PipelineGraph};
use crate::stage::{Link, LinkFilter, StageId, StageKind, MAX_HEIGHT, MAX_WIDTH};
use vstd::prelude::*;

verus! {

/// Number of stages in a video ladder rung.
pub const RUNG_STAGES: usize = 9;

/// Why a video ladder rung cannot be built.
#[derive(Clone, Copy, PartialEq, Eq, Debug, Structural)]
pub enum ConstructionError {
    /// The bit rate in kbit/s does not fit in 32 bits.
    BitrateOutOfRange,
    /// The keyframe interval does not fit the encoder's signed 32-bit count.
    KeyframeIntervalOutOfRange,
}

/// The refusal that meets a branch that was never added to `g`: its first
/// stage has no index yet, so the arena's length stands for it.
pub open spec fn detached_error(g: GraphView, from: StageId, to: StageId) -> LinkError {
    LinkError {
        from,
        to,
        fault: if g.live {
            LinkFault::UnknownStage
        } else {
            LinkFault::GraphReleased
        },
    }
}

/// Makes the refusal that meets a branch that was never added to `graph`.
pub(crate) fn detached(graph: &PipelineGraph, from: StageId, to: StageId) -> (e: LinkError)
    ensures
        e == detached_error(graph@, from, to),
{
    LinkError {
        from,
        to,
        fault: if graph.is_live() {
            LinkFault::UnknownStage
        } else {
            LinkFault::GraphReleased
        },
    }
}

/// Mathematical content of a video ladder rung.
pub struct RungView {
    /// Target bit rate in kbit/s.
    pub bitrate_kbps: u32,
    /// Encoder preset.
    pub preset: u32,
    /// Frames between two keyframes.
    pub keyframe_interval: u32,
    /// Index of the first of its stages, once it is in a graph.
    pub first: Option<StageId>,
}

impl RungView {
    /// The stage kinds of the rung, from its input to its output.
    pub open spec fn stage_kinds(self) -> Seq<StageKind> {
        seq![
            StageKind::Buffer,
            StageKind::Scaler,
            StageKind::ResolutionCap { max_width: MAX_WIDTH, max_height: MAX_HEIGHT },
            StageKind::ColorConverter,
            StageKind::Buffer,
            StageKind::VideoEncoder {
                preset: self.preset,
                bitrate_kbps: self.bitrate_kbps,
                keyframe_interval: self.keyframe_interval,
            },
            StageKind::Buffer,
            StageKind::StreamParser,
            StageKind::Buffer,
        ]
    }

    /// The links of a rung whose first stage is `b`: from the splitter
    /// `upstream` through the chain to the packager.
    pub open spec fn chain(b: StageId, upstream: StageId, packager: StageId) -> Seq<Link> {
        seq![
            Link::plain(upstream, b),
            Link::plain(b, (b + 1) as usize),
            Link::plain((b + 1) as usize, (b + 2) as usize),
            Link::plain((b + 2) as usize, (b + 3) as usize),
            Link::plain((b + 3) as usize, (b + 4) as usize),
            Link::plain((b + 4) as usize, (b + 5) as usize),
            Link::plain((b + 5) as usize, (b + 6) as usize),
            Link::plain((b + 6) as usize, (b + 7) as usize),
            Link {
                from: (b + 7) as usize,
                to: (b + 8) as usize,
                filter: LinkFilter::EncodedVideoUnits,
            },
            Link::plain((b + 8) as usize, packager),
        ]
    }

    /// What `link` does to graph `g`: the graph reached, and the refusal if
    /// there was one.
    pub open spec fn linked(self, g: GraphView, upstream: StageId, packager: StageId) -> (
        GraphView,
        Option<LinkError>,
    ) {
        match self.first {
            Some(b) => g.link_chain(Self::chain(b, upstream, packager)),
            None => (g, Some(detached_error(g, upstream, g.stages.len() as usize))),
        }
    }

    /// The rung's stages lie in the arena of `g`, are what the rung says, and
    /// carry no link yet.
    pub open spec fn fresh_in(self, g: GraphView) -> bool {
        &&& self.first matches Some(b)
        &&& b + RUNG_STAGES <= g.stages.len()
        &&& b + RUNG_STAGES <= usize::MAX
        &&& g.stages.subrange(b as int, b + RUNG_STAGES) == self.stage_kinds()
        &&& forall|s: StageId| b <= s < b + RUNG_STAGES ==> #[trigger] g.untouched(s)
    }
}

/// A video ladder rung: scales to at most 1920 by 1080, converts, encodes at
/// its bit rate, normalises the encoded stream, and hands it to the packager
/// as one video rendition.
#[derive(Debug)]
pub struct EncodingBranch {
    bitrate_kbps: u32,
    preset: u32,
    keyframe_interval: u32,
    first: Option<StageId>,
}

impl View for EncodingBranch {
    type V = RungView;

    closed spec fn view(&self) -> RungView {
        RungView {
            bitrate_kbps: self.bitrate_kbps,
            preset: self.preset,
            keyframe_interval: self.keyframe_interval,
            first: self.first,
        }
    }
}

impl EncodingBranch {
    #[verifier::type_invariant]
    spec fn inv(self) -> bool {
        &&& self.keyframe_interval <= i32::MAX
        &&& self.first matches Some(b) ==> b + RUNG_STAGES <= usize::MAX
    }

    /// Describes a rung that encodes at `bitrate_mbps` Mbit/s with a keyframe
    /// every `keyframe_interval` frames. The rung is in no graph yet.
    pub fn new(bitrate_mbps: u32, preset: u32, keyframe_interval: u32) -> (r: Result<
        EncodingBranch,
        ConstructionError,
    >)
        ensures
            match r {
                Ok(b) => bitrate_mbps * 1000 <= u32::MAX && keyframe_interval <= i32::MAX && b@
                    == (RungView {
                    bitrate_kbps: (bitrate_mbps * 1000) as u32,
                    preset,
                    keyframe_interval,
                    first: None,
                }),
                Err(ConstructionError::BitrateOutOfRange) => bitrate_mbps * 1000 > u32::MAX,
                Err(ConstructionError::KeyframeIntervalOutOfRange) => bitrate_mbps * 1000
                    <= u32::MAX && keyframe_interval > i32::MAX,
            },
    {
        let bitrate_kbps: u32 = match bitrate_mbps.checked_mul(1000) {
            Some(kbps) => kbps,
            None => { return Err(ConstructionError::BitrateOutOfRange); },
        };
        if keyframe_interval > 0x7fff_ffff {
            return Err(ConstructionError::KeyframeIntervalOutOfRange);
        }
        Ok(EncodingBranch { bitrate_kbps, preset, keyframe_interval, first: None })
    }

    /// Target bit rate in kbit/s.
    pub fn bitrate_kbps(&self) -> (v: u32)
        ensures
            v == self@.bitrate_kbps,
    {
        self.bitrate_kbps
    }

    /// Encoder preset.
    pub fn preset(&self) -> (v: u32)
        ensures
            v == self@.preset,
    {
        self.preset
    }

    /// Frames between two keyframes.
    pub fn keyframe_interval(&self) -> (v: u32)
        ensures
            v == self@.keyframe_interval,
            v <= i32::MAX,
    {
        proof {
            use_type_invariant(self);
        }
        self.keyframe_interval
    }

    /// The stage that takes the rung's input, once the rung is in a graph.
    pub fn head(&self) -> (id: Option<StageId>)
        ensures
            id == self@.first,
    {
        self.first
    }

    /// The stage that feeds the packager, once the rung is in a graph.
    pub fn tail(&self) -> (id: Option<StageId>)
        ensures
            id == match self@.first {
                Some(b) => Some((b + 8) as usize),
                None => None,
            },
    {
        proof {
            use_type_invariant(self);
        }
        match self.first {
            Some(b) => Some(b + 8),
            None => None,
        }
    }

    /// The stage kinds of the rung, from its input to its output.
    pub fn stages(&self) -> (kinds: Vec<StageKind>)
        ensures
            kinds@ == self@.stage_kinds(),
    {
        let kinds = vec![
            StageKind::Buffer,
            StageKind::Scaler,
            StageKind::ResolutionCap { max_width: MAX_WIDTH, max_height: MAX_HEIGHT },
            StageKind::ColorConverter,
            StageKind::Buffer,
            StageKind::VideoEncoder {
                preset: self.preset,
                bitrate_kbps: self.bitrate_kbps,
                keyframe_interval: self.keyframe_interval,
            },
            StageKind::Buffer,
            StageKind::StreamParser,
            StageKind::Buffer,
        ];
        assert(kinds@ =~= self@.stage_kinds());
        kinds
    }

    /// Adds the rung's stages to `graph`. A rung enters a graph once: a second
    /// call is refused, and so is a graph that was torn down; neither changes
    /// anything.
    pub fn add_to_pipeline(&mut self, graph: &mut PipelineGraph) -> (r: Result<(), AttachError>)
        ensures
            old(self)@.first is Some ==> r == Err::<(), AttachError>(AttachError::AlreadyAttached)
                && final(self)@ == old(self)@ && final(graph)@ == old(graph)@,
            old(self)@.first is None && !old(graph)@.live ==> r == Err::<(), AttachError>(
                AttachError::GraphReleased,
            ) && final(self)@ == old(self)@ && final(graph)@ == old(graph)@,
            old(self)@.first is None && old(graph)@.live ==> r is Ok && final(graph)@ == old(
                graph,
            )@.with_stages(old(self)@.stage_kinds()) && final(self)@ == (RungView {
                first: Some(old(graph)@.stages.len() as usize),
                ..old(self)@
            }),
    {
        proof {
            use_type_invariant(&*self);
        }
        if self.first.is_some() {
            return Err(AttachError::AlreadyAttached);
        }
        let kinds = self.stages();
        match graph.add_many(&kinds) {
            Err(e) => Err(e),
            Ok(first) => {
                proof {
                    graph.lemma_indices_fit();
                    assert(old(self)@.stage_kinds().len() == RUNG_STAGES);
                }
                self.first = Some(first);
                Ok(())
            },
        }
    }

    /// Links the rung: from the splitter `tee` through its chain to the
    /// packager `dashsink`, where it registers as one video rendition. The
    /// first refused link ends the call and is returned with its two stages;
    /// links made before it stay.
    pub fn link(&self, graph: &mut PipelineGraph, tee: StageId, dashsink: StageId) -> (r: Result<
        (),
        LinkError,
    >)
        ensures
            final(graph)@ == self@.linked(old(graph)@, tee, dashsink).0,
            r == match self@.linked(old(graph)@, tee, dashsink).1 {
                None => Ok::<(), LinkError>(()),
                Some(e) => Err::<(), LinkError>(e),
            },
    {
        proof {
            use_type_invariant(self);
        }
        let b: usize = match self.first {
            Some(b) => b,
            None => { return Err(detached(graph, tee, graph.stage_count())); },
        };
        let steps = vec![
            Link::new(tee, b),
            Link::new(b, b + 1),
            Link::new(b + 1, b + 2),
            Link::new(b + 2, b + 3),
            Link::new(b + 3, b + 4),
            Link::new(b + 4, b + 5),
            Link::new(b + 5, b + 6),
            Link::new(b + 6, b + 7),
            Link::filtered(b + 7, b + 8, LinkFilter::EncodedVideoUnits),
            Link::new(b + 8, dashsink),
        ];
        assert(steps@ =~= RungView::chain(b, tee, dashsink));
        graph.link_chain(&steps)
    }
}

/// A rung whose stages are fresh in a well-formed live graph links in full
/// to a splitter and a packager that lie outside it: no link is refused, and
/// the graph gains exactly the rung's chain.
pub proof fn lemma_fresh_rung_links(
    rung: RungView,
    g: GraphView,
    upstream: StageId,
    packager: StageId,
)
    requires
        g.live,
        rung.fresh_in(g),
        g.resolve(upstream) matches Some(u) && u.fans_out(),
        g.resolve(packager) matches Some(p) && p.merges(),
    ensures
        rung.linked(g, upstream, packager) == (
            g.with_links(RungView::chain(rung.first->0, upstream, packager)),
            None::<LinkError>,
        ),
{
    let b = rung.first->0;
    let steps = RungView::chain(b, upstream, packager);
    let kinds = rung.stage_kinds();
    assert forall|k: int| 0 <= k < RUNG_STAGES implies #[trigger] g.stages[b + k] == kinds[k] by {
        assert(g.stages.subrange(b as int, b + RUNG_STAGES)[k] == g.stages[b + k]);
    }
    assert(g.stages[b + 0] == kinds[0]);
    assert(g.stages[b + 1] == kinds[1]);
    assert(g.stages[b + 2] == kinds[2]);
    assert(g.stages[b + 3] == kinds[3]);
    assert(g.stages[b + 4] == kinds[4]);
    assert(g.stages[b + 5] == kinds[5]);
    assert(g.stages[b + 6] == kinds[6]);
    assert(g.stages[b + 7] == kinds[7]);
    assert(g.stages[b + 8] == kinds[8]);
    assert(g.untouched((b + 0) as usize));
    assert(g.untouched((b + 1) as usize));
    assert(g.untouched((b + 2) as usize));
    assert(g.untouched((b + 3) as usize));
    assert(g.untouched((b + 4) as usize));
    assert(g.untouched((b + 5) as usize));
    assert(g.untouched((b + 6) as usize));
    assert(g.untouched((b + 7) as usize));
    assert(g.untouched((b + 8) as usize));
    assert(upstream < b || upstream >= b + RUNG_STAGES) by {
        if b <= upstream < b + RUNG_STAGES {
            assert(g.stages[b + (upstream - b)] == kinds[upstream - b]);
        }
    }
    assert(packager < b || packager >= b + RUNG_STAGES) by {
        if b <= packager < b + RUNG_STAGES {
            assert(g.stages[b + (packager - b)] == kinds[packager - b]);
        }
    }
    assert(g.admits(steps));
    crate::graph::lemma_admitted_chain_is_made(g, steps);
}

} // verus!
