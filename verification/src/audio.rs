//! The audio branch: the one chain that turns decoded audio into the single
//! audio rendition.

use crate::branch::{detached, detached_error};
use crate::graph::{lemma_admitted_chain_is_made, AttachError, GraphView, LinkError, PipelineGraph};
use crate::stage::{Link, LinkFilter, StageId, StageKind, AUDIO_BITRATE};
use vstd::prelude::*;

verus! {

/// Number of stages in the audio branch.
pub const AUDIO_STAGES: usize = 6;

/// Mathematical content of the audio branch.
pub struct AudioView {
    /// Index of the first of its stages, once it is in a graph.
    pub first: Option<StageId>,
}

impl AudioView {
    /// The stage kinds of the branch, from its input to its output.
    pub open spec fn stage_kinds() -> Seq<StageKind> {
        seq![
            StageKind::Buffer,
            StageKind::AudioConverter,
            StageKind::AudioResampler,
            StageKind::Buffer,
            StageKind::AudioEncoder { bitrate: AUDIO_BITRATE },
            StageKind::Buffer,
        ]
    }

    /// The links of a branch whose first stage is `b`, down to the packager.
    /// The encoder is fed stereo only.
    pub open spec fn chain(b: StageId, packager: StageId) -> Seq<Link> {
        seq![
            Link::plain(b, (b + 1) as usize),
            Link::plain((b + 1) as usize, (b + 2) as usize),
            Link::plain((b + 2) as usize, (b + 3) as usize),
            Link { from: (b + 3) as usize, to: (b + 4) as usize, filter: LinkFilter::StereoAudio },
            Link::plain((b + 4) as usize, (b + 5) as usize),
            Link::plain((b + 5) as usize, packager),
        ]
    }

    /// What `link` does to graph `g`: the graph reached, and the refusal if
    /// there was one.
    pub open spec fn linked(self, g: GraphView, packager: StageId) -> (
        GraphView,
        Option<LinkError>,
    ) {
        match self.first {
            Some(b) => g.link_chain(Self::chain(b, packager)),
            None => (g, Some(detached_error(g, g.stages.len() as usize, packager))),
        }
    }

    /// The branch's stages lie in the arena of `g`, are what the branch says,
    /// and carry no link yet.
    pub open spec fn fresh_in(self, g: GraphView) -> bool {
        &&& self.first matches Some(b)
        &&& b + AUDIO_STAGES <= g.stages.len()
        &&& b + AUDIO_STAGES <= usize::MAX
        &&& g.stages.subrange(b as int, b + AUDIO_STAGES) == Self::stage_kinds()
        &&& forall|s: StageId| b <= s < b + AUDIO_STAGES ==> #[trigger] g.untouched(s)
    }
}

/// The audio branch: converts, resamples, forces stereo, encodes at a fixed
/// bit rate, and hands the result to the packager as the audio rendition.
/// Its input port is that of its first stage.
#[derive(Debug)]
pub struct AudioBranch {
    first: Option<StageId>,
}

impl View for AudioBranch {
    type V = AudioView;

    closed spec fn view(&self) -> AudioView {
        AudioView { first: self.first }
    }
}

impl AudioBranch {
    #[verifier::type_invariant]
    spec fn inv(self) -> bool {
        self.first matches Some(b) ==> b + AUDIO_STAGES <= usize::MAX
    }

    /// Describes the audio branch. It is in no graph yet.
    pub fn new() -> (b: AudioBranch)
        ensures
            b@ == (AudioView { first: None }),
    {
        AudioBranch { first: None }
    }

    /// The stage that takes the branch's input, once the branch is in a graph.
    pub fn head(&self) -> (id: Option<StageId>)
        ensures
            id == self@.first,
    {
        self.first
    }

    /// The stage that feeds the packager, once the branch is in a graph.
    pub fn tail(&self) -> (id: Option<StageId>)
        ensures
            id == match self@.first {
                Some(b) => Some((b + 5) as usize),
                None => None,
            },
    {
        proof {
            use_type_invariant(self);
        }
        match self.first {
            Some(b) => Some(b + 5),
            None => None,
        }
    }

    /// The stage kinds of the branch, from its input to its output.
    pub fn stages(&self) -> (kinds: Vec<StageKind>)
        ensures
            kinds@ == AudioView::stage_kinds(),
    {
        let kinds = vec![
            StageKind::Buffer,
            StageKind::AudioConverter,
            StageKind::AudioResampler,
            StageKind::Buffer,
            StageKind::AudioEncoder { bitrate: AUDIO_BITRATE },
            StageKind::Buffer,
        ];
        assert(kinds@ =~= AudioView::stage_kinds());
        kinds
    }

    /// Adds the branch's stages to `graph`. A branch enters a graph once: a
    /// second call is refused, and so is a graph that was torn down; neither
    /// changes anything.
    pub fn add_to_pipeline(&mut self, graph: &mut PipelineGraph) -> (r: Result<(), AttachError>)
        ensures
            old(self)@.first is Some ==> r == Err::<(), AttachError>(AttachError::AlreadyAttached)
                && final(self)@ == old(self)@ && final(graph)@ == old(graph)@,
            old(self)@.first is None && !old(graph)@.live ==> r == Err::<(), AttachError>(
                AttachError::GraphReleased,
            ) && final(self)@ == old(self)@ && final(graph)@ == old(graph)@,
            old(self)@.first is None && old(graph)@.live ==> r is Ok && final(graph)@ == old(
                graph,
            )@.with_stages(AudioView::stage_kinds()) && final(self)@ == (AudioView {
                first: Some(old(graph)@.stages.len() as usize),
            }),
    {
        if self.first.is_some() {
            return Err(AttachError::AlreadyAttached);
        }
        let kinds = self.stages();
        match graph.add_many(&kinds) {
            Err(e) => Err(e),
            Ok(first) => {
                proof {
                    graph.lemma_indices_fit();
                    assert(AudioView::stage_kinds().len() == AUDIO_STAGES);
                }
                self.first = Some(first);
                Ok(())
            },
        }
    }

    /// Links the branch's chain down to the packager `dashsink`, where it
    /// registers as the audio rendition. The first refused link ends the call
    /// and is returned with its two stages; links made before it stay.
    pub fn link(&self, graph: &mut PipelineGraph, dashsink: StageId) -> (r: Result<(), LinkError>)
        ensures
            final(graph)@ == self@.linked(old(graph)@, dashsink).0,
            r == match self@.linked(old(graph)@, dashsink).1 {
                None => Ok::<(), LinkError>(()),
                Some(e) => Err::<(), LinkError>(e),
            },
    {
        proof {
            use_type_invariant(self);
        }
        let b: usize = match self.first {
            Some(b) => b,
            None => { return Err(detached(graph, graph.stage_count(), dashsink)); },
        };
        let steps = vec![
            Link::new(b, b + 1),
            Link::new(b + 1, b + 2),
            Link::new(b + 2, b + 3),
            Link::filtered(b + 3, b + 4, LinkFilter::StereoAudio),
            Link::new(b + 4, b + 5),
            Link::new(b + 5, dashsink),
        ];
        assert(steps@ =~= AudioView::chain(b, dashsink));
        graph.link_chain(&steps)
    }
}

/// An audio branch whose stages are fresh in a live graph links in full to a
/// packager: no link is refused, and the graph gains exactly the chain.
pub proof fn lemma_fresh_audio_links(audio: AudioView, g: GraphView, packager: StageId)
    requires
        g.live,
        audio.fresh_in(g),
        g.resolve(packager) matches Some(p) && p.merges(),
    ensures
        audio.linked(g, packager) == (
            g.with_links(AudioView::chain(audio.first->0, packager)),
            None::<LinkError>,
        ),
{
    let b = audio.first->0;
    let steps = AudioView::chain(b, packager);
    let kinds = AudioView::stage_kinds();
    assert forall|k: int| 0 <= k < AUDIO_STAGES implies #[trigger] g.stages[b + k] == kinds[k] by {
        assert(g.stages.subrange(b as int, b + AUDIO_STAGES)[k] == g.stages[b + k]);
    }
    assert(g.stages[b + 0] == kinds[0]);
    assert(g.stages[b + 1] == kinds[1]);
    assert(g.stages[b + 2] == kinds[2]);
    assert(g.stages[b + 3] == kinds[3]);
    assert(g.stages[b + 4] == kinds[4]);
    assert(g.stages[b + 5] == kinds[5]);
    assert(g.untouched((b + 0) as usize));
    assert(g.untouched((b + 1) as usize));
    assert(g.untouched((b + 2) as usize));
    assert(g.untouched((b + 3) as usize));
    assert(g.untouched((b + 4) as usize));
    assert(g.untouched((b + 5) as usize));
    assert(packager < b || packager >= b + AUDIO_STAGES) by {
        if b <= packager < b + AUDIO_STAGES {
            assert(g.stages[b + (packager - b)] == kinds[packager - b]);
        }
    }
    assert(g.admits(steps));
    lemma_admitted_chain_is_made(g, steps);
}

} // verus!
