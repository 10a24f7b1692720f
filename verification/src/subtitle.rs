//! Subtitle branches: one per subtitle track that the demultiplexer exposes,
//! built while the graph runs.

use crate::branch::{detached, detached_error};
use crate::graph::{
    lemma_admitted_chain_is_made, lemma_stages_keep_well_formed, AttachError, GraphView, LinkError,
    LinkFault, PipelineGraph,
};
use crate::stage::{Link, StageId, StageKind};
use crate::text::{
    decimal, decimal_string, join_path, joined, lemma_decimal_is_injective,
    lemma_joined_is_injective,
};
use vstd::prelude::*;
use vstd::string::*;

verus! {

/// Number of stages that a subtitle branch brings into the graph.
pub const SUBTITLE_STAGES: usize = 5;

/// Number of stages that a subtitle branch adds when it is linked: its own
/// splitter and one buffer before each of its two outputs.
pub const SUBTITLE_FAN_STAGES: usize = 3;

/// The directory of subtitle track `track_id` under `output_dir`:
/// `subtitles_` and the track number.
pub open spec fn subtitle_directory(output_dir: Seq<char>, track_id: usize) -> Seq<char> {
    joined(output_dir, "subtitles_"@ + decimal(track_id as nat))
}

/// Each subtitle track has a directory of its own: under one output
/// directory, different tracks get different directories.
pub proof fn lemma_subtitle_directories_differ(output_dir: Seq<char>, a: usize, b: usize)
    requires
        a != b,
    ensures
        subtitle_directory(output_dir, a) != subtitle_directory(output_dir, b),
{
    let head = "subtitles_"@;
    let name_a = head + decimal(a as nat);
    let name_b = head + decimal(b as nat);
    if subtitle_directory(output_dir, a) == subtitle_directory(output_dir, b) {
        lemma_joined_is_injective(output_dir, name_a, name_b);
        assert(name_a.subrange(head.len() as int, name_a.len() as int) =~= decimal(a as nat));
        assert(name_b.subrange(head.len() as int, name_b.len() as int) =~= decimal(b as nat));
        lemma_decimal_is_injective(a as nat, b as nat);
    }
}

/// Mathematical content of a subtitle branch.
pub struct SubtitleView {
    /// Number of the subtitle track.
    pub track_id: usize,
    /// Directory that holds what the track produces.
    pub directory: Seq<char>,
    /// Index of the first of its stages, once it is in a graph.
    pub first: Option<StageId>,
}

impl SubtitleView {
    /// Where the numbered frames of the track go.
    pub open spec fn frame_pattern(self) -> Seq<char> {
        joined(self.directory, "frame_%05d.png"@)
    }

    /// Where the captions of the track go.
    pub open spec fn caption_file(self) -> Seq<char> {
        joined(self.directory, "subtitles.vtt"@)
    }

    /// The stage kinds that the branch brings into the graph: buffer, text
    /// overlay, image encoder, and the two sinks.
    pub open spec fn stage_kinds(self) -> Seq<StageKind> {
        seq![
            StageKind::Buffer,
            StageKind::TextOverlay,
            StageKind::ImageEncoder,
            StageKind::ImageSequenceSink { track_id: self.track_id },
            StageKind::CaptionSink { track_id: self.track_id },
        ]
    }

    /// The stage kinds that linking adds: the branch's own splitter and the
    /// buffers of its image path and of its caption path.
    pub open spec fn fan_kinds() -> Seq<StageKind> {
        seq![StageKind::Splitter, StageKind::Buffer, StageKind::Buffer]
    }

    /// The links of a branch whose stages start at `b` and whose splitter and
    /// buffers start at `f`. The image path runs to its sink. The caption
    /// path ends at its buffer: nothing feeds the caption sink.
    pub open spec fn chain(b: StageId, f: StageId, upstream: StageId) -> Seq<Link> {
        seq![
            Link::plain(upstream, b),
            Link::plain(b, (b + 1) as usize),
            Link::plain((b + 1) as usize, f),
            Link::plain(f, (f + 1) as usize),
            Link::plain((f + 1) as usize, (b + 2) as usize),
            Link::plain((b + 2) as usize, (b + 3) as usize),
            Link::plain(f, (f + 2) as usize),
        ]
    }

    /// What `link` does to graph `g`: the graph reached, and the refusal if
    /// there was one.
    pub open spec fn linked(self, g: GraphView, upstream: StageId) -> (
        GraphView,
        Option<LinkError>,
    ) {
        match self.first {
            None => (g, Some(detached_error(g, upstream, g.stages.len() as usize))),
            Some(b) => if g.live {
                g.with_stages(Self::fan_kinds()).link_chain(
                    Self::chain(b, g.stages.len() as usize, upstream),
                )
            } else {
                (g, Some(LinkError { from: upstream, to: b, fault: LinkFault::GraphReleased }))
            },
        }
    }

    /// The branch's stages lie in the arena of `g`, are what the branch says,
    /// and carry no link yet.
    pub open spec fn fresh_in(self, g: GraphView) -> bool {
        &&& self.first matches Some(b)
        &&& b + SUBTITLE_STAGES <= g.stages.len()
        &&& g.stages.len() + SUBTITLE_FAN_STAGES <= usize::MAX
        &&& g.stages.subrange(b as int, b + SUBTITLE_STAGES) == self.stage_kinds()
        &&& forall|s: StageId| b <= s < b + SUBTITLE_STAGES ==> #[trigger] g.untouched(s)
    }
}

/// A subtitle branch: renders the text of one subtitle track onto frames and
/// writes them as a numbered image sequence in a directory of its own. A
/// caption sink belongs to the branch, but nothing feeds it: frames are
/// produced, captions are not promised.
#[derive(Debug)]
pub struct SubtitleBranch {
    track_id: usize,
    directory: String,
    first: Option<StageId>,
}

impl View for SubtitleBranch {
    type V = SubtitleView;

    closed spec fn view(&self) -> SubtitleView {
        SubtitleView { track_id: self.track_id, directory: self.directory@, first: self.first }
    }
}

impl SubtitleBranch {
    #[verifier::type_invariant]
    spec fn inv(self) -> bool {
        self.first matches Some(b) ==> b + SUBTITLE_STAGES <= usize::MAX
    }

    /// Describes the branch of subtitle track `track_id`, whose output goes
    /// to a directory of its own under `output_dir`. The branch is in no
    /// graph yet, and nothing is created on disk.
    pub fn new(output_dir: &str, track_id: usize) -> (b: SubtitleBranch)
        ensures
            b@ == (SubtitleView {
                track_id,
                directory: subtitle_directory(output_dir@, track_id),
                first: None,
            }),
    {
        let mut name = String::from_str("subtitles_");
        let number = decimal_string(track_id);
        name.append(number.as_str());
        let directory = join_path(output_dir, name.as_str());
        SubtitleBranch { track_id, directory, first: None }
    }

    /// Number of the subtitle track.
    pub fn track_id(&self) -> (id: usize)
        ensures
            id == self@.track_id,
    {
        self.track_id
    }

    /// Directory that holds what the track produces.
    pub fn directory(&self) -> (path: &str)
        ensures
            path@ == self@.directory,
    {
        self.directory.as_str()
    }

    /// Where the numbered frames of the track go: a pattern in which `%05d`
    /// stands for the frame number.
    pub fn frame_pattern(&self) -> (path: String)
        ensures
            path@ == self@.frame_pattern(),
    {
        join_path(self.directory.as_str(), "frame_%05d.png")
    }

    /// Where the captions of the track go.
    pub fn caption_file(&self) -> (path: String)
        ensures
            path@ == self@.caption_file(),
    {
        join_path(self.directory.as_str(), "subtitles.vtt")
    }

    /// The stage that takes the branch's input, once the branch is in a graph.
    pub fn head(&self) -> (id: Option<StageId>)
        ensures
            id == self@.first,
    {
        self.first
    }

    /// The stage kinds that the branch brings into the graph.
    pub fn stages(&self) -> (kinds: Vec<StageKind>)
        ensures
            kinds@ == self@.stage_kinds(),
    {
        let kinds = vec![
            StageKind::Buffer,
            StageKind::TextOverlay,
            StageKind::ImageEncoder,
            StageKind::ImageSequenceSink { track_id: self.track_id },
            StageKind::CaptionSink { track_id: self.track_id },
        ];
        assert(kinds@ =~= self@.stage_kinds());
        kinds
    }

    /// Adds the branch's stages to `graph`. A branch enters a graph once: a
    /// second call is refused, and so is a graph that was torn down; neither
    /// changes anything.
    pub fn add_to_pipeline(&mut self, graph: &mut PipelineGraph) -> (r: Result<(), AttachError>)
        ensures
            old(self)@.first is Some ==> r == Err::<(), AttachError>(AttachError::AlreadyAttached)
                && final(self)@ == old(self)@ && final(graph)@ == old(graph)@,
            old(self)@.first is None && !old(graph)@.live ==> r == Err::<(), AttachError>(
                AttachError::GraphReleased,
            ) && final(self)@ == old(self)@ && final(graph)@ == old(graph)@,
            old(self)@.first is None && old(graph)@.live ==> r is Ok && final(graph)@ == old(
                graph,
            )@.with_stages(old(self)@.stage_kinds()) && final(self)@ == (SubtitleView {
                first: Some(old(graph)@.stages.len() as usize),
                ..old(self)@
            }),
    {
        if self.first.is_some() {
            return Err(AttachError::AlreadyAttached);
        }
        let kinds = self.stages();
        match graph.add_many(&kinds) {
            Err(e) => Err(e),
            Ok(first) => {
                proof {
                    graph.lemma_indices_fit();
                    assert(old(self)@.stage_kinds().len() == SUBTITLE_STAGES);
                }
                self.first = Some(first);
                Ok(())
            },
        }
    }

    /// Links the branch to the splitter `tee` that carries its track: adds
    /// the branch's own splitter and buffers to `graph`, then makes the links
    /// of the image path and of the caption path in order. The first refused
    /// link ends the call and is returned with its two stages; what was added
    /// and linked before it stays.
    pub fn link(&self, graph: &mut PipelineGraph, tee: StageId) -> (r: Result<(), LinkError>)
        ensures
            final(graph)@ == self@.linked(old(graph)@, tee).0,
            r == match self@.linked(old(graph)@, tee).1 {
                None => Ok::<(), LinkError>(()),
                Some(e) => Err::<(), LinkError>(e),
            },
    {
        proof {
            use_type_invariant(self);
        }
        let b: usize = match self.first {
            Some(b) => b,
            None => { return Err(detached(graph, tee, graph.stage_count())); },
        };
        let fan = vec![StageKind::Splitter, StageKind::Buffer, StageKind::Buffer];
        assert(fan@ =~= SubtitleView::fan_kinds());
        let f: usize = match graph.add_many(&fan) {
            Ok(f) => f,
            Err(_) => {
                return Err(LinkError { from: tee, to: b, fault: LinkFault::GraphReleased });
            },
        };
        proof {
            graph.lemma_indices_fit();
        }
        let steps = vec![
            Link::new(tee, b),
            Link::new(b, b + 1),
            Link::new(b + 1, f),
            Link::new(f, f + 1),
            Link::new(f + 1, b + 2),
            Link::new(b + 2, b + 3),
            Link::new(f, f + 2),
        ];
        assert(steps@ =~= SubtitleView::chain(b, f, tee));
        graph.link_chain(&steps)
    }
}

/// A subtitle branch whose stages are fresh in a well-formed live graph links
/// in full to a splitter that lies outside it: no link is refused, and the
/// graph gains exactly the branch's splitter and buffers and its chain.
pub proof fn lemma_fresh_subtitle_links(branch: SubtitleView, g: GraphView, upstream: StageId)
    requires
        g.live,
        g.well_formed(),
        branch.fresh_in(g),
        g.resolve(upstream) matches Some(u) && u.fans_out(),
    ensures
        branch.linked(g, upstream) == (
            g.with_stages(SubtitleView::fan_kinds()).with_links(
                SubtitleView::chain(branch.first->0, g.stages.len() as usize, upstream),
            ),
            None::<LinkError>,
        ),
{
    let b = branch.first->0;
    let f = g.stages.len() as usize;
    let h = g.with_stages(SubtitleView::fan_kinds());
    let steps = SubtitleView::chain(b, f, upstream);
    let kinds = branch.stage_kinds();
    lemma_stages_keep_well_formed(g, SubtitleView::fan_kinds());
    assert forall|k: int| 0 <= k < SUBTITLE_STAGES implies #[trigger] h.stages[b + k]
        == kinds[k] by {
        assert(g.stages.subrange(b as int, b + SUBTITLE_STAGES)[k] == g.stages[b + k]);
    }
    assert(h.stages[b + 0] == kinds[0]);
    assert(h.stages[b + 1] == kinds[1]);
    assert(h.stages[b + 2] == kinds[2]);
    assert(h.stages[b + 3] == kinds[3]);
    assert(h.stages[f + 0] == StageKind::Splitter);
    assert(h.stages[f + 1] == StageKind::Buffer);
    assert(h.stages[f + 2] == StageKind::Buffer);
    assert(g.untouched((b + 0) as usize));
    assert(g.untouched((b + 1) as usize));
    assert(g.untouched((b + 2) as usize));
    assert(g.untouched((b + 3) as usize));
    assert(h.stages[upstream as int] == g.stages[upstream as int]);
    assert forall|s: StageId| f <= s implies #[trigger] h.untouched(s) by {
        if h.has_outgoing(s) {
            let i = choose|i: int| 0 <= i < h.links.len() && (#[trigger] h.links[i]).from == s;
            assert(g.links[i].from < g.stages.len());
        }
        if h.has_incoming(s) {
            let i = choose|i: int| 0 <= i < h.links.len() && (#[trigger] h.links[i]).to == s;
            assert(g.links[i].to < g.stages.len());
        }
    }
    assert(h.untouched(f));
    assert(h.untouched((f + 1) as usize));
    assert(h.untouched((f + 2) as usize));
    assert(h.untouched((b + 0) as usize));
    assert(h.untouched((b + 1) as usize));
    assert(h.untouched((b + 2) as usize));
    assert(h.untouched((b + 3) as usize));
    assert(upstream < b || upstream >= b + SUBTITLE_STAGES) by {
        if b <= upstream < b + SUBTITLE_STAGES {
            assert(g.stages[b + (upstream - b)] == kinds[upstream - b]);
        }
    }
    assert(h.admits(steps));
    lemma_admitted_chain_is_made(h, steps);
}

} // verus!
