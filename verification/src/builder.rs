//! The graph builder: assembles the static part of the pipeline before it runs.

use crate::audio::{lemma_fresh_audio_links, AudioBranch, AudioView, AUDIO_STAGES};
use crate::branch::{
    lemma_fresh_rung_links, ConstructionError, EncodingBranch, RungView, RUNG_STAGES,
};
use crate::graph::{
    count_into, count_out_of, lemma_admitted_chain_is_made, lemma_beyond_arena_untouched,
    lemma_chain_keeps_well_formed, lemma_count_into_concat, lemma_count_out_of_concat,
    lemma_degree_positive, lemma_links_stay, lemma_ports_link_once, lemma_stages_keep_well_formed,
    GraphView, LinkError, PipelineGraph,
};
use crate::stage::{Link, StageId, StageKind};
use vstd::pervasive::unreached;
use vstd::prelude::*;

verus! {

/// Index of the stage that reads the input file.
pub const SOURCE: StageId = 0;

/// Index of the demultiplexer.
pub const DEMUXER: StageId = 1;

/// Index of the splitter that feeds the video ladder.
pub const SPLITTER: StageId = 2;

/// Index of the first stage of the audio branch.
pub const AUDIO_HEAD: StageId = 3;

/// Index of the packager.
pub const PACKAGER: StageId = 9;

/// Index of the first stage of the first ladder rung.
pub const FIRST_RUNG: StageId = 10;

/// What the graph is built from.
#[derive(PartialEq, Eq, Debug)]
pub struct LadderConfig {
    /// Target bit rates of the video renditions, in Mbit/s, one per rung.
    pub ladder: Vec<u32>,
    /// Encoder preset, the same for every rung.
    pub preset: u32,
    /// Length of a segment, in seconds.
    pub target_duration: u32,
    /// Frame rate assumed when the keyframe interval is computed.
    pub frame_rate: u32,
}

/// Mathematical content of a `LadderConfig`.
pub struct LadderView {
    pub ladder: Seq<u32>,
    pub preset: u32,
    pub target_duration: u32,
    pub frame_rate: u32,
}

impl View for LadderConfig {
    type V = LadderView;

    open spec fn view(&self) -> LadderView {
        LadderView {
            ladder: self.ladder@,
            preset: self.preset,
            target_duration: self.target_duration,
            frame_rate: self.frame_rate,
        }
    }
}

/// Why the static graph cannot be built.
#[derive(Clone, Copy, PartialEq, Eq, Debug, Structural)]
pub enum BuildError {
    /// The keyframe interval does not fit in 32 bits.
    KeyframeIntervalOverflow,
    /// The rung at `index` of the ladder cannot be built.
    Rung { index: usize, error: ConstructionError },
}

impl LadderView {
    /// Two rungs of 6 and 2 Mbit/s, preset 8, segments of 4 s, 30 frames per second.
    pub open spec fn standard() -> LadderView {
        LadderView { ladder: seq![6u32, 2u32], preset: 8, target_duration: 4, frame_rate: 30 }
    }

    /// Frames in one segment: one keyframe starts each segment.
    pub open spec fn keyframe_interval(self) -> int {
        self.frame_rate * self.target_duration
    }

    /// Why the rung at `i` cannot be built, if it cannot.
    pub open spec fn rung_error(self, i: int) -> Option<ConstructionError> {
        if self.ladder[i] * 1000 > u32::MAX {
            Some(ConstructionError::BitrateOutOfRange)
        } else if self.keyframe_interval() > i32::MAX {
            Some(ConstructionError::KeyframeIntervalOutOfRange)
        } else {
            None
        }
    }

    /// Every number that the graph needs fits its machine type.
    pub open spec fn buildable(self) -> bool {
        &&& self.keyframe_interval() <= u32::MAX
        &&& forall|i: int| 0 <= i < self.ladder.len() ==> self.rung_error(i) is None
    }

    /// The rung at `i`, in its place in the static graph.
    pub open spec fn rung(self, i: int) -> RungView {
        RungView {
            bitrate_kbps: (self.ladder[i] * 1000) as u32,
            preset: self.preset,
            keyframe_interval: self.keyframe_interval() as u32,
            first: Some((FIRST_RUNG + RUNG_STAGES * i) as usize),
        }
    }

    /// The stages that every static graph starts with: source, demultiplexer,
    /// video splitter, the audio branch, and the packager.
    pub open spec fn base_stages(self) -> Seq<StageKind> {
        seq![StageKind::Source, StageKind::Demultiplexer, StageKind::Splitter]
            + AudioView::stage_kinds() + seq![
            StageKind::Packager { target_duration: self.target_duration },
        ]
    }

    /// The links that every static graph starts with: the source feeds the
    /// demultiplexer, and the audio chain runs to the packager.
    pub open spec fn base_links() -> Seq<Link> {
        seq![Link::plain(SOURCE, DEMUXER)] + AudioView::chain(AUDIO_HEAD, PACKAGER)
    }

    /// The static graph with the first `n` rungs of the ladder.
    pub open spec fn graph_with(self, n: nat) -> GraphView
        decreases n,
    {
        if n == 0 {
            GraphView { stages: self.base_stages(), links: Self::base_links(), live: true }
        } else {
            self.graph_with((n - 1) as nat).with_stages(self.rung(n - 1).stage_kinds()).with_links(
                RungView::chain((FIRST_RUNG + RUNG_STAGES * (n - 1)) as usize, SPLITTER, PACKAGER),
            )
        }
    }

    /// The static graph: one rung for each entry of the ladder, in order.
    pub open spec fn static_graph(self) -> GraphView {
        self.graph_with(self.ladder.len())
    }
}

/// Where the links of the base graph and of one rung's chain go.
proof fn lemma_chain_counts(b: StageId)
    requires
        FIRST_RUNG <= b,
        b + RUNG_STAGES <= usize::MAX,
    ensures
        count_into(RungView::chain(b, SPLITTER, PACKAGER), PACKAGER) == 1,
        count_into(RungView::chain(b, SPLITTER, PACKAGER), SPLITTER) == 0,
        count_into(RungView::chain(b, SPLITTER, PACKAGER), AUDIO_HEAD) == 0,
        count_out_of(RungView::chain(b, SPLITTER, PACKAGER), SPLITTER) == 1,
        count_into(LadderView::base_links(), PACKAGER) == 1,
        count_into(LadderView::base_links(), SPLITTER) == 0,
        count_into(LadderView::base_links(), AUDIO_HEAD) == 0,
        count_out_of(LadderView::base_links(), SPLITTER) == 0,
{
    reveal_with_fuel(count_into, 11);
    reveal_with_fuel(count_out_of, 11);
    assert(LadderView::base_links() =~= seq![
        Link::plain(SOURCE, DEMUXER),
        Link::plain(3, 4),
        Link::plain(4, 5),
        Link::plain(5, 6),
        Link { from: 6, to: 7, filter: crate::stage::LinkFilter::StereoAudio },
        Link::plain(7, 8),
        Link::plain(8, PACKAGER),
    ]);
}

/// The base graph is well formed.
proof fn lemma_base_graph(c: LadderView)
    ensures
        c.graph_with(0).well_formed(),
        c.graph_with(0).stages.len() == FIRST_RUNG,
{
    let bare = GraphView { stages: c.base_stages(), links: Seq::empty(), live: true };
    let steps = LadderView::base_links();
    assert(steps =~= seq![
        Link::plain(SOURCE, DEMUXER),
        Link::plain(3, 4),
        Link::plain(4, 5),
        Link::plain(5, 6),
        Link { from: 6, to: 7, filter: crate::stage::LinkFilter::StereoAudio },
        Link::plain(7, 8),
        Link::plain(8, PACKAGER),
    ]);
    assert(bare.well_formed());
    assert(bare.admits(steps));
    lemma_admitted_chain_is_made(bare, steps);
    lemma_chain_keeps_well_formed(bare, steps);
    assert(bare.with_links(steps) =~= c.graph_with(0));
}

/// One more rung keeps the static graph well formed: its stages are fresh
/// when its chain is made, so no link of the chain is refused.
proof fn lemma_rung_joins(c: LadderView, g: GraphView, m: nat)
    requires
        m < c.ladder.len(),
        FIRST_RUNG + RUNG_STAGES * (m + 1) <= usize::MAX,
        g.well_formed(),
        g.live,
        g.stages.len() == FIRST_RUNG + RUNG_STAGES * m,
        g.stages.subrange(0, FIRST_RUNG as int) == c.base_stages(),
    ensures
        ({
            let b = (FIRST_RUNG + RUNG_STAGES * m) as usize;
            let h = g.with_stages(c.rung(m as int).stage_kinds());
            let next = h.with_links(RungView::chain(b, SPLITTER, PACKAGER));
            &&& c.rung(m as int).fresh_in(h)
            &&& c.rung(m as int).linked(h, SPLITTER, PACKAGER) == (next, None::<LinkError>)
            &&& next.well_formed()
            &&& next.stages.len() == FIRST_RUNG + RUNG_STAGES * (m + 1)
            &&& next.stages.subrange(0, FIRST_RUNG as int) == c.base_stages()
        }),
{
    let rung = c.rung(m as int);
    let b = (FIRST_RUNG + RUNG_STAGES * m) as usize;
    let kinds = rung.stage_kinds();
    let chain = RungView::chain(b, SPLITTER, PACKAGER);
    let h = g.with_stages(kinds);
    let next = h.with_links(chain);
    lemma_stages_keep_well_formed(g, kinds);
    assert(h.stages.subrange(b as int, b + RUNG_STAGES) =~= kinds);
    assert forall|s: StageId| b <= s < b + RUNG_STAGES implies #[trigger] h.untouched(s) by {
        lemma_beyond_arena_untouched(g, s);
    }
    assert(g.stages.subrange(0, FIRST_RUNG as int)[SPLITTER as int] == StageKind::Splitter);
    assert(g.stages.subrange(0, FIRST_RUNG as int)[PACKAGER as int] == (StageKind::Packager {
        target_duration: c.target_duration,
    }));
    assert(rung.fresh_in(h));
    lemma_fresh_rung_links(rung, h, SPLITTER, PACKAGER);
    lemma_chain_keeps_well_formed(h, chain);
    assert(next.stages.subrange(0, FIRST_RUNG as int) =~= g.stages.subrange(0, FIRST_RUNG as int));
}

/// The static graph with its first `n` rungs is well formed and live, and
/// holds the ten base stages and nine more for each rung.
pub proof fn lemma_graph_with_shape(c: LadderView, n: nat)
    requires
        n <= c.ladder.len(),
        FIRST_RUNG + RUNG_STAGES * n <= usize::MAX,
    ensures
        c.graph_with(n).well_formed(),
        c.graph_with(n).live,
        c.graph_with(n).stages.len() == FIRST_RUNG + RUNG_STAGES * n,
        c.graph_with(n).stages.subrange(0, FIRST_RUNG as int) == c.base_stages(),
    decreases n,
{
    if n == 0 {
        lemma_base_graph(c);
        assert(c.graph_with(0).stages.subrange(0, FIRST_RUNG as int) =~= c.base_stages());
    } else {
        let m = (n - 1) as nat;
        lemma_graph_with_shape(c, m);
        lemma_rung_joins(c, c.graph_with(m), m);
    }
}

/// In the static graph with its first `n` rungs the packager takes one
/// rendition for each rung and one for audio, the video splitter feeds one
/// port for each rung, and the inputs of the video splitter and of the audio
/// branch are unlinked.
pub proof fn lemma_graph_with_degrees(c: LadderView, n: nat)
    requires
        n <= c.ladder.len(),
        FIRST_RUNG + RUNG_STAGES * n <= usize::MAX,
    ensures
        c.graph_with(n).in_degree(PACKAGER) == n + 1,
        c.graph_with(n).out_degree(SPLITTER) == n,
        c.graph_with(n).in_degree(SPLITTER) == 0,
        c.graph_with(n).in_degree(AUDIO_HEAD) == 0,
    decreases n,
{
    if n == 0 {
        lemma_chain_counts(FIRST_RUNG);
    } else {
        let m = (n - 1) as nat;
        lemma_graph_with_degrees(c, m);
        let g = c.graph_with(m);
        let b = (FIRST_RUNG + RUNG_STAGES * m) as usize;
        let chain = RungView::chain(b, SPLITTER, PACKAGER);
        lemma_chain_counts(b);
        lemma_count_into_concat(g.links, chain, PACKAGER);
        lemma_count_into_concat(g.links, chain, SPLITTER);
        lemma_count_into_concat(g.links, chain, AUDIO_HEAD);
        lemma_count_out_of_concat(g.links, chain, SPLITTER);
    }
}

/// In the static graph with its first `n` rungs, the rung at `i` is linked to
/// the video splitter at its head and to the packager at its tail.
pub proof fn lemma_graph_with_connects(c: LadderView, n: nat, i: int)
    requires
        0 <= i < n <= c.ladder.len(),
        FIRST_RUNG + RUNG_STAGES * n <= usize::MAX,
    ensures
        c.graph_with(n).connects(SPLITTER, (FIRST_RUNG + RUNG_STAGES * i) as usize),
        c.graph_with(n).connects((FIRST_RUNG + RUNG_STAGES * i + 8) as usize, PACKAGER),
    decreases n,
{
    let m = (n - 1) as nat;
    let g = c.graph_with(m);
    let b = (FIRST_RUNG + RUNG_STAGES * m) as usize;
    let chain = RungView::chain(b, SPLITTER, PACKAGER);
    let h = g.with_stages(c.rung(m as int).stage_kinds());
    let next = c.graph_with(n);
    assert(next == h.with_links(chain));
    let head = (FIRST_RUNG + RUNG_STAGES * i) as usize;
    let tail = (FIRST_RUNG + RUNG_STAGES * i + 8) as usize;
    if i < m {
        lemma_graph_with_connects(c, m, i);
        assert(h.links == g.links);
        assert(h.connects(SPLITTER, head));
        assert(h.connects(tail, PACKAGER));
        lemma_links_stay(h, chain, SPLITTER, head);
        lemma_links_stay(h, chain, tail, PACKAGER);
    } else {
        assert(next.links[g.links.len() as int] == chain[0]);
        assert(next.links[g.links.len() as int + 9] == chain[9]);
    }
}

/// In the static graph with its first `n` rungs, the nine stages of the rung
/// at `i` are those that the rung describes.
pub proof fn lemma_graph_with_stages(c: LadderView, n: nat, i: int)
    requires
        0 <= i < n <= c.ladder.len(),
        FIRST_RUNG + RUNG_STAGES * n <= usize::MAX,
    ensures
        c.graph_with(n).stages.subrange(
            FIRST_RUNG + RUNG_STAGES * i,
            FIRST_RUNG + RUNG_STAGES * i + RUNG_STAGES,
        ) == c.rung(i).stage_kinds(),
    decreases n,
{
    let m = (n - 1) as nat;
    let g = c.graph_with(m);
    let next = c.graph_with(n);
    let at = FIRST_RUNG + RUNG_STAGES * i;
    lemma_graph_with_shape(c, m);
    assert(next.stages == g.stages + c.rung(m as int).stage_kinds());
    if i < m {
        lemma_graph_with_stages(c, m, i);
        assert(next.stages.subrange(at, at + RUNG_STAGES) =~= g.stages.subrange(
            at,
            at + RUNG_STAGES,
        ));
    } else {
        assert(next.stages.subrange(at, at + RUNG_STAGES) =~= c.rung(i).stage_kinds());
    }
}

/// Every ladder whose numbers fit yields a graph with one rung for each of
/// its entries: the rung at `i` encodes at a thousand times the entry's rate
/// with a keyframe every `frame_rate * target_duration` frames, has its
/// input linked once, to the video splitter, and its output linked once, to
/// the packager. The packager takes one rendition for each rung and one for
/// audio.
pub proof fn lemma_one_rung_per_entry(c: LadderView, i: int)
    requires
        c.buildable(),
        0 <= i < c.ladder.len(),
        FIRST_RUNG + RUNG_STAGES * c.ladder.len() <= usize::MAX,
    ensures
        ({
            let g = c.static_graph();
            let head = (FIRST_RUNG + RUNG_STAGES * i) as usize;
            let tail = (FIRST_RUNG + RUNG_STAGES * i + 8) as usize;
            &&& c.rung(i).bitrate_kbps == c.ladder[i] * 1000
            &&& c.rung(i).keyframe_interval == c.frame_rate * c.target_duration
            &&& g.well_formed()
            &&& g.stages.len() == FIRST_RUNG + RUNG_STAGES * c.ladder.len()
            &&& g.stages.subrange(head as int, head + RUNG_STAGES) == c.rung(i).stage_kinds()
            &&& g.connects(SPLITTER, head)
            &&& g.in_degree(head) == 1
            &&& g.connects(tail, PACKAGER)
            &&& g.out_degree(tail) == 1
            &&& g.in_degree(PACKAGER) == c.ladder.len() + 1
            &&& g.out_degree(SPLITTER) == c.ladder.len()
        }),
{
    let n = c.ladder.len();
    let g = c.static_graph();
    let head = (FIRST_RUNG + RUNG_STAGES * i) as usize;
    let tail = (FIRST_RUNG + RUNG_STAGES * i + 8) as usize;
    assert(c.rung_error(i) is None);
    lemma_graph_with_shape(c, n);
    lemma_graph_with_degrees(c, n);
    lemma_graph_with_connects(c, n, i);
    lemma_graph_with_stages(c, n, i);
    let kinds = c.rung(i).stage_kinds();
    assert(g.stages.subrange(head as int, head + RUNG_STAGES)[0] == kinds[0]);
    assert(g.stages.subrange(head as int, head + RUNG_STAGES)[8] == kinds[8]);
    lemma_ports_link_once(g, head);
    lemma_ports_link_once(g, tail);
    lemma_degree_positive(g, head);
    lemma_degree_positive(g, tail);
    let j = choose|j: int|
        0 <= j < g.links.len() && (#[trigger] g.links[j]).from == SPLITTER && g.links[j].to
            == head;
    assert(g.links[j].to == head);
    let k = choose|k: int|
        0 <= k < g.links.len() && (#[trigger] g.links[k]).from == tail && g.links[k].to
            == PACKAGER;
    assert(g.links[k].from == tail);
}

/// The static part of the pipeline, as the builder leaves it.
#[derive(Debug)]
pub struct StaticGraph {
    /// The graph: source, demultiplexer, video splitter, audio branch,
    /// packager and ladder rungs, all linked but for the two input ports that
    /// wait for the demultiplexer's streams.
    pub graph: PipelineGraph,
    /// The stage that reads the input file.
    pub source: StageId,
    /// The demultiplexer.
    pub demuxer: StageId,
    /// The splitter whose input waits for the video stream.
    pub splitter: StageId,
    /// The packager.
    pub packager: StageId,
    /// The audio branch, whose input waits for the audio stream.
    pub audio: AudioBranch,
    /// The ladder rungs, in the order of the ladder.
    pub rungs: Vec<EncodingBranch>,
}

impl LadderConfig {
    /// Frames between two keyframes, so that each segment starts with one:
    /// frame rate times segment length. `None` where that does not fit in 32
    /// bits.
    pub fn keyframe_interval(&self) -> (k: Option<u32>)
        ensures
            match k {
                Some(v) => v == self@.keyframe_interval(),
                None => self@.keyframe_interval() > u32::MAX,
            },
    {
        self.frame_rate.checked_mul(self.target_duration)
    }
}

impl Default for LadderConfig {
    /// Two rungs of 6 and 2 Mbit/s, preset 8, segments of 4 s, 30 frames per second.
    fn default() -> (c: LadderConfig)
        ensures
            c@ == LadderView::standard(),
    {
        let ladder = vec![6u32, 2u32];
        assert(ladder@ =~= seq![6u32, 2u32]);
        LadderConfig { ladder, preset: 8, target_duration: 4, frame_rate: 30 }
    }
}

/// Builds the static graph for `config`: source and demultiplexer, the
/// splitter for video, the audio branch, the packager, and one rung for each
/// entry of the ladder, each linked from the splitter to the packager. The
/// build fails, and returns no graph, where a number does not fit its
/// machine type: the first rung that cannot be built is named.
pub fn build_static_graph(config: &LadderConfig) -> (r: Result<StaticGraph, BuildError>)
    ensures
        match r {
            Ok(built) => {
                &&& config@.buildable()
                &&& built.graph@ == config@.static_graph()
                &&& built.graph@.well_formed()
                &&& built.source == SOURCE
                &&& built.demuxer == DEMUXER
                &&& built.splitter == SPLITTER
                &&& built.packager == PACKAGER
                &&& built.audio@ == (AudioView { first: Some(AUDIO_HEAD) })
                &&& built.rungs@.len() == config@.ladder.len()
                &&& forall|i: int|
                    0 <= i < built.rungs@.len() ==> (#[trigger] built.rungs@[i])@ == config@.rung(
                        i,
                    )
            },
            Err(BuildError::KeyframeIntervalOverflow) => config@.keyframe_interval() > u32::MAX,
            Err(BuildError::Rung { index, error }) => {
                &&& config@.keyframe_interval() <= u32::MAX
                &&& index < config@.ladder.len()
                &&& config@.rung_error(index as int) == Some(error)
                &&& forall|j: int| 0 <= j < index ==> config@.rung_error(j) is None
            },
        },
{
    let keyframe_interval: u32 = match config.keyframe_interval() {
        Some(k) => k,
        None => { return Err(BuildError::KeyframeIntervalOverflow); },
    };
    let mut graph = PipelineGraph::new();
    let front = vec![StageKind::Source, StageKind::Demultiplexer, StageKind::Splitter];
    match graph.add_many(&front) {
        Ok(_) => {},
        Err(_) => { unreached() },
    }
    let mut audio = AudioBranch::new();
    match audio.add_to_pipeline(&mut graph) {
        Ok(()) => {},
        Err(_) => { unreached() },
    }
    match graph.add(StageKind::Packager { target_duration: config.target_duration }) {
        Ok(_) => {},
        Err(_) => { unreached() },
    }
    proof {
        assert(graph@.stages =~= config@.base_stages());
        assert(graph@.links =~= Seq::<Link>::empty());
    }
    match graph.link(Link::new(SOURCE, DEMUXER)) {
        Ok(()) => {},
        Err(_) => { unreached() },
    }
    proof {
        let g = graph@;
        assert(g.stages.subrange(AUDIO_HEAD as int, AUDIO_HEAD + AUDIO_STAGES)
            =~= AudioView::stage_kinds());
        assert(g.links =~= seq![Link::plain(SOURCE, DEMUXER)]);
        lemma_fresh_audio_links(audio@, g, PACKAGER);
        assert(g.with_links(AudioView::chain(AUDIO_HEAD, PACKAGER)) =~= config@.graph_with(0));
    }
    match audio.link(&mut graph, PACKAGER) {
        Ok(()) => {},
        Err(_) => { unreached() },
    }
    let mut rungs: Vec<EncodingBranch> = Vec::new();
    let mut i: usize = 0;
    while i < config.ladder.len()
        invariant
            i <= config.ladder.len(),
            keyframe_interval == config@.keyframe_interval(),
            graph@ == config@.graph_with(i as nat),
            graph@.live,
            graph@.stages.len() == FIRST_RUNG + RUNG_STAGES * i,
            graph@.stages.subrange(0, FIRST_RUNG as int) == config@.base_stages(),
            audio@ == (AudioView { first: Some(AUDIO_HEAD) }),
            rungs@.len() == i,
            forall|j: int| 0 <= j < i ==> (#[trigger] rungs@[j])@ == config@.rung(j),
            forall|j: int| 0 <= j < i ==> config@.rung_error(j) is None,
        decreases config.ladder.len() - i,
    {
        let mut rung = match EncodingBranch::new(
            config.ladder[i],
            config.preset,
            keyframe_interval,
        ) {
            Ok(rung) => rung,
            Err(error) => { return Err(BuildError::Rung { index: i, error }); },
        };
        let ghost before = graph@;
        proof {
            use_type_invariant(&graph);
        }
        match rung.add_to_pipeline(&mut graph) {
            Ok(()) => {},
            Err(_) => { unreached() },
        }
        proof {
            graph.lemma_indices_fit();
            assert(before.with_stages(rung@.stage_kinds()).stages.len() == before.stages.len()
                + RUNG_STAGES);
            assert(rung@ == config@.rung(i as int));
            lemma_rung_joins(config@, before, i as nat);
        }
        match rung.link(&mut graph, SPLITTER, PACKAGER) {
            Ok(()) => {},
            Err(_) => { unreached() },
        }
        rungs.push(rung);
        i = i + 1;
    }
    proof {
        use_type_invariant(&graph);
    }
    Ok(
        StaticGraph {
            graph,
            source: SOURCE,
            demuxer: DEMUXER,
            splitter: SPLITTER,
            packager: PACKAGER,
            audio,
            rungs,
        },
    )
}

} // verus!
