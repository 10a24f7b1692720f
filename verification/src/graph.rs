//! The pipeline graph: an arena of stages and the links between their ports.

use crate::stage::{Link, StageId, StageKind};
use vstd::prelude::*;

verus! {

/// Whether a port is connected to a peer.
#[derive(Clone, Copy, PartialEq, Eq, Debug, Structural)]
pub enum PortLinkState {
    Unlinked,
    Linked,
}

/// Why the graph refuses a link.
#[derive(Clone, Copy, PartialEq, Eq, Debug, Structural)]
pub enum LinkFault {
    /// The graph has been torn down.
    GraphReleased,
    /// One of the two stages is not in the graph.
    UnknownStage,
    /// A stage cannot feed itself.
    SameStage,
    /// The upstream stage has no output port left.
    NoFreeOutput,
    /// The downstream stage has no input port left.
    NoFreeInput,
}

/// A refused link, with the pair of stages that it was to connect.
#[derive(Clone, Copy, PartialEq, Eq, Debug, Structural)]
pub struct LinkError {
    pub from: StageId,
    pub to: StageId,
    pub fault: LinkFault,
}

/// Why stages could not be added to a graph.
#[derive(Clone, Copy, PartialEq, Eq, Debug, Structural)]
pub enum AttachError {
    /// The graph has been torn down.
    GraphReleased,
    /// The stages are in a graph already.
    AlreadyAttached,
}

/// Stages and links that are to be added to a graph together.
#[derive(PartialEq, Eq, Debug)]
pub struct GraphDelta {
    pub stages: Vec<StageKind>,
    pub links: Vec<Link>,
}

/// Mathematical content of a `GraphDelta`.
#[verifier::ext_equal]
pub struct GraphDeltaView {
    pub stages: Seq<StageKind>,
    pub links: Seq<Link>,
}

impl View for GraphDelta {
    type V = GraphDeltaView;

    open spec fn view(&self) -> GraphDeltaView {
        GraphDeltaView { stages: self.stages@, links: self.links@ }
    }
}

/// Mathematical content of a graph: the stages in arena order, the links in
/// the order in which they were made, and whether the graph is still alive.
#[verifier::ext_equal]
pub struct GraphView {
    pub stages: Seq<StageKind>,
    pub links: Seq<Link>,
    pub live: bool,
}

/// Number of links of `links` that enter stage `s`.
pub open spec fn count_into(links: Seq<Link>, s: StageId) -> nat
    decreases links.len(),
{
    if links.len() == 0 {
        0
    } else {
        count_into(links.drop_last(), s) + if links.last().to == s {
            1nat
        } else {
            0nat
        }
    }
}

/// Number of links of `links` that leave stage `s`.
pub open spec fn count_out_of(links: Seq<Link>, s: StageId) -> nat
    decreases links.len(),
{
    if links.len() == 0 {
        0
    } else {
        count_out_of(links.drop_last(), s) + if links.last().from == s {
            1nat
        } else {
            0nat
        }
    }
}

impl GraphView {
    /// A live graph without stages.
    pub open spec fn empty() -> GraphView {
        GraphView { stages: Seq::empty(), links: Seq::empty(), live: true }
    }

    /// Some link leaves stage `s`.
    pub open spec fn has_outgoing(self, s: StageId) -> bool {
        exists|i: int| 0 <= i < self.links.len() && (#[trigger] self.links[i]).from == s
    }

    /// Some link enters stage `s`.
    pub open spec fn has_incoming(self, s: StageId) -> bool {
        exists|i: int| 0 <= i < self.links.len() && (#[trigger] self.links[i]).to == s
    }

    /// Number of links that enter stage `s`.
    pub open spec fn in_degree(self, s: StageId) -> nat {
        count_into(self.links, s)
    }

    /// Number of links that leave stage `s`.
    pub open spec fn out_degree(self, s: StageId) -> nat {
        count_out_of(self.links, s)
    }

    /// No link touches stage `s`.
    pub open spec fn untouched(self, s: StageId) -> bool {
        !self.has_outgoing(s) && !self.has_incoming(s)
    }

    /// The graph holds a link from `from` to `to`.
    pub open spec fn connects(self, from: StageId, to: StageId) -> bool {
        exists|i: int|
            0 <= i < self.links.len() && (#[trigger] self.links[i]).from == from && self.links[i].to
                == to
    }

    /// State of the input port of stage `s`.
    pub open spec fn input_state(self, s: StageId) -> PortLinkState {
        if self.has_incoming(s) {
            PortLinkState::Linked
        } else {
            PortLinkState::Unlinked
        }
    }

    /// The stage at `id`, if the graph is alive and holds it.
    pub open spec fn resolve(self, id: StageId) -> Option<StageKind> {
        if self.live && id < self.stages.len() {
            Some(self.stages[id as int])
        } else {
            None
        }
    }

    /// The reason for which a link from `from` to `to` is refused, if it is.
    pub open spec fn link_fault(self, from: StageId, to: StageId) -> Option<LinkFault> {
        if !self.live {
            Some(LinkFault::GraphReleased)
        } else if from >= self.stages.len() || to >= self.stages.len() {
            Some(LinkFault::UnknownStage)
        } else if from == to {
            Some(LinkFault::SameStage)
        } else if !self.stages[from as int].has_output() || (!self.stages[from as int].fans_out()
            && self.has_outgoing(from)) {
            Some(LinkFault::NoFreeOutput)
        } else if !self.stages[to as int].has_input() || (!self.stages[to as int].merges()
            && self.has_incoming(to)) {
            Some(LinkFault::NoFreeInput)
        } else {
            None
        }
    }

    /// The reason for which stage `from` cannot feed a stage that is new to
    /// the graph, if it cannot.
    pub open spec fn output_fault(self, from: StageId) -> Option<LinkFault> {
        if !self.live {
            Some(LinkFault::GraphReleased)
        } else if from >= self.stages.len() {
            Some(LinkFault::UnknownStage)
        } else if !self.stages[from as int].has_output() || (!self.stages[from as int].fans_out()
            && self.has_outgoing(from)) {
            Some(LinkFault::NoFreeOutput)
        } else {
            None
        }
    }

    /// The graph with `kinds` appended to its arena.
    pub open spec fn with_stages(self, kinds: Seq<StageKind>) -> GraphView {
        GraphView { stages: self.stages + kinds, ..self }
    }

    /// The graph with `link` appended to its links.
    pub open spec fn with_link(self, link: Link) -> GraphView {
        GraphView { links: self.links.push(link), ..self }
    }

    /// The graph with `links` appended to its links.
    pub open spec fn with_links(self, links: Seq<Link>) -> GraphView {
        GraphView { links: self.links + links, ..self }
    }

    /// The graph after teardown.
    pub open spec fn released(self) -> GraphView {
        GraphView { live: false, ..self }
    }

    /// Makes the links of `steps` in order and stops at the first that is
    /// refused: the graph reached, and the refusal if there was one.
    pub open spec fn link_chain(self, steps: Seq<Link>) -> (GraphView, Option<LinkError>)
        decreases steps.len(),
    {
        if steps.len() == 0 {
            (self, None)
        } else {
            match self.link_fault(steps[0].from, steps[0].to) {
                Some(fault) => (
                    self,
                    Some(LinkError { from: steps[0].from, to: steps[0].to, fault }),
                ),
                None => self.with_link(steps[0]).link_chain(steps.drop_first()),
            }
        }
    }

    /// Every link joins two different stages of the arena, out of an output
    /// port and into an input port, and no port carries two links: only a
    /// stage that fans out has several outgoing links, only one that merges
    /// has several incoming ones.
    pub open spec fn well_formed(self) -> bool {
        &&& forall|i: int|
            0 <= i < self.links.len() ==> {
                let l = #[trigger] self.links[i];
                &&& l.from < self.stages.len()
                &&& l.to < self.stages.len()
                &&& l.from != l.to
                &&& self.stages[l.from as int].has_output()
                &&& self.stages[l.to as int].has_input()
            }
        &&& forall|i: int, j: int|
            0 <= i < j < self.links.len() && (#[trigger] self.links[i]).from == (
            #[trigger] self.links[j]).from ==> self.stages[self.links[i].from as int].fans_out()
        &&& forall|i: int, j: int|
            0 <= i < j < self.links.len() && (#[trigger] self.links[i]).to == (
            #[trigger] self.links[j]).to ==> self.stages[self.links[i].to as int].merges()
    }

    /// Each link of `steps` can be made once those before it are made: its
    /// stages are in the arena and differ, and each of its two ports is
    /// either one of many or still free.
    pub open spec fn admits(self, steps: Seq<Link>) -> bool {
        &&& self.live
        &&& forall|k: int|
            0 <= k < steps.len() ==> {
                let l = #[trigger] steps[k];
                &&& l.from < self.stages.len()
                &&& l.to < self.stages.len()
                &&& l.from != l.to
                &&& self.stages[l.from as int].has_output()
                &&& self.stages[l.to as int].has_input()
                &&& self.stages[l.from as int].fans_out() || !self.has_outgoing(l.from)
                &&& self.stages[l.to as int].merges() || !self.has_incoming(l.to)
            }
        &&& forall|j: int, k: int|
            0 <= j < k < steps.len() && (#[trigger] steps[j]).from == (#[trigger] steps[k]).from
                ==> self.stages[steps[j].from as int].fans_out()
        &&& forall|j: int, k: int|
            0 <= j < k < steps.len() && (#[trigger] steps[j]).to == (#[trigger] steps[k]).to
                ==> self.stages[steps[j].to as int].merges()
    }
}

/// Counting the links into a stage goes part by part.
pub proof fn lemma_count_into_concat(a: Seq<Link>, b: Seq<Link>, s: StageId)
    ensures
        count_into(a + b, s) == count_into(a, s) + count_into(b, s),
    decreases b.len(),
{
    if b.len() == 0 {
        assert(a + b =~= a);
    } else {
        assert((a + b).drop_last() =~= a + b.drop_last());
        lemma_count_into_concat(a, b.drop_last(), s);
    }
}

/// Counting the links out of a stage goes part by part.
pub proof fn lemma_count_out_of_concat(a: Seq<Link>, b: Seq<Link>, s: StageId)
    ensures
        count_out_of(a + b, s) == count_out_of(a, s) + count_out_of(b, s),
    decreases b.len(),
{
    if b.len() == 0 {
        assert(a + b =~= a);
    } else {
        assert((a + b).drop_last() =~= a + b.drop_last());
        lemma_count_out_of_concat(a, b.drop_last(), s);
    }
}

/// A stage has an incoming link exactly when its in-degree is positive, and
/// an outgoing one exactly when its out-degree is.
pub proof fn lemma_degree_positive(g: GraphView, s: StageId)
    ensures
        g.has_incoming(s) <==> g.in_degree(s) > 0,
        g.has_outgoing(s) <==> g.out_degree(s) > 0,
    decreases g.links.len(),
{
    if g.links.len() > 0 {
        let h = GraphView { links: g.links.drop_last(), ..g };
        lemma_degree_positive(h, s);
        let n = g.links.len() - 1;
        if h.has_incoming(s) {
            let i = choose|i: int| 0 <= i < h.links.len() && (#[trigger] h.links[i]).to == s;
            assert(g.links[i].to == s);
        }
        if g.has_incoming(s) && g.links[n].to != s {
            let i = choose|i: int| 0 <= i < g.links.len() && (#[trigger] g.links[i]).to == s;
            assert(h.links[i].to == s);
        }
        if g.links[n].to == s {
            assert(g.has_incoming(s));
        }
        if h.has_outgoing(s) {
            let i = choose|i: int| 0 <= i < h.links.len() && (#[trigger] h.links[i]).from == s;
            assert(g.links[i].from == s);
        }
        if g.has_outgoing(s) && g.links[n].from != s {
            let i = choose|i: int| 0 <= i < g.links.len() && (#[trigger] g.links[i]).from == s;
            assert(h.links[i].from == s);
        }
        if g.links[n].from == s {
            assert(g.has_outgoing(s));
        }
    }
}

/// In a well-formed graph a port carries at most one link: a stage that does
/// not merge has in-degree at most one, a stage that does not fan out has
/// out-degree at most one.
pub proof fn lemma_ports_link_once(g: GraphView, s: StageId)
    requires
        g.well_formed(),
        s < g.stages.len(),
    ensures
        !g.stages[s as int].merges() ==> g.in_degree(s) <= 1,
        !g.stages[s as int].fans_out() ==> g.out_degree(s) <= 1,
    decreases g.links.len(),
{
    if g.links.len() > 0 {
        let h = GraphView { links: g.links.drop_last(), ..g };
        let n = g.links.len() - 1;
        assert forall|i: int| 0 <= i < h.links.len() implies h.links[i] == g.links[i] by {}
        assert(h.well_formed()) by {
            assert forall|i: int, j: int|
                0 <= i < j < h.links.len() && (#[trigger] h.links[i]).from == (
                #[trigger] h.links[j]).from implies h.stages[h.links[i].from as int].fans_out() by {
                assert(g.links[i].from == g.links[j].from);
            }
            assert forall|i: int, j: int|
                0 <= i < j < h.links.len() && (#[trigger] h.links[i]).to == (
                #[trigger] h.links[j]).to implies h.stages[h.links[i].to as int].merges() by {
                assert(g.links[i].to == g.links[j].to);
            }
        }
        lemma_ports_link_once(h, s);
        lemma_degree_positive(h, s);
        if !g.stages[s as int].merges() && g.links[n].to == s && h.has_incoming(s) {
            let i = choose|i: int| 0 <= i < h.links.len() && (#[trigger] h.links[i]).to == s;
            assert(g.links[i].to == g.links[n].to);
        }
        if !g.stages[s as int].fans_out() && g.links[n].from == s && h.has_outgoing(s) {
            let i = choose|i: int| 0 <= i < h.links.len() && (#[trigger] h.links[i]).from == s;
            assert(g.links[i].from == g.links[n].from);
        }
    }
}

/// A link that the graph does not refuse keeps the graph well formed.
pub proof fn lemma_link_keeps_well_formed(g: GraphView, link: Link)
    requires
        g.well_formed(),
        g.link_fault(link.from, link.to) is None,
    ensures
        g.with_link(link).well_formed(),
{
    let h = g.with_link(link);
    let n = g.links.len() as int;
    assert forall|i: int, j: int|
        0 <= i < j < h.links.len() && (#[trigger] h.links[i]).from == (#[trigger] h.links[j]).from
        implies h.stages[h.links[i].from as int].fans_out() by {
        if j == n {
            assert(g.links[i].from == link.from);
        } else {
            assert(g.links[i].from == g.links[j].from);
        }
    }
    assert forall|i: int, j: int|
        0 <= i < j < h.links.len() && (#[trigger] h.links[i]).to == (#[trigger] h.links[j]).to
        implies h.stages[h.links[i].to as int].merges() by {
        if j == n {
            assert(g.links[i].to == link.to);
        } else {
            assert(g.links[i].to == g.links[j].to);
        }
    }
    assert forall|i: int| 0 <= i < h.links.len() implies {
        let l = #[trigger] h.links[i];
        &&& l.from < h.stages.len()
        &&& l.to < h.stages.len()
        &&& l.from != l.to
        &&& h.stages[l.from as int].has_output()
        &&& h.stages[l.to as int].has_input()
    } by {
        if i < n {
            assert(h.links[i] == g.links[i]);
        }
    }
}

/// New stages keep the graph well formed and leave every port as it was.
pub proof fn lemma_stages_keep_well_formed(g: GraphView, kinds: Seq<StageKind>)
    requires
        g.well_formed(),
    ensures
        g.with_stages(kinds).well_formed(),
        forall|s: StageId| g.with_stages(kinds).input_state(s) == g.input_state(s),
        forall|s: StageId| #[trigger]
            g.with_stages(kinds).untouched(s) == g.untouched(s),
{
    let h = g.with_stages(kinds);
    assert(h.links == g.links);
    assert forall|i: int| 0 <= i < h.links.len() implies {
        let l = #[trigger] h.links[i];
        &&& l.from < h.stages.len()
        &&& l.to < h.stages.len()
        &&& l.from != l.to
        &&& h.stages[l.from as int].has_output()
        &&& h.stages[l.to as int].has_input()
    } by {
        let l = g.links[i];
        assert(h.stages[l.from as int] == g.stages[l.from as int]);
        assert(h.stages[l.to as int] == g.stages[l.to as int]);
    }
    assert forall|i: int, j: int|
        0 <= i < j < h.links.len() && (#[trigger] h.links[i]).from == (#[trigger] h.links[j]).from
        implies h.stages[h.links[i].from as int].fans_out() by {
        assert(h.stages[g.links[i].from as int] == g.stages[g.links[i].from as int]);
    }
    assert forall|i: int, j: int|
        0 <= i < j < h.links.len() && (#[trigger] h.links[i]).to == (#[trigger] h.links[j]).to
        implies h.stages[h.links[i].to as int].merges() by {
        assert(h.stages[g.links[i].to as int] == g.stages[g.links[i].to as int]);
    }
}

/// In a well-formed graph no link touches an index beyond the arena.
pub proof fn lemma_beyond_arena_untouched(g: GraphView, s: StageId)
    requires
        g.well_formed(),
        s >= g.stages.len(),
    ensures
        g.untouched(s),
{
    if g.has_outgoing(s) {
        let i = choose|i: int| 0 <= i < g.links.len() && (#[trigger] g.links[i]).from == s;
        assert(g.links[i].from < g.stages.len());
    }
    if g.has_incoming(s) {
        let i = choose|i: int| 0 <= i < g.links.len() && (#[trigger] g.links[i]).to == s;
        assert(g.links[i].to < g.stages.len());
    }
}

/// A stage that is new to a well-formed graph and has an input port takes a
/// link from a stage `from` of the graph exactly when `from` has an output
/// port to give.
pub proof fn lemma_new_stage_takes_link(g: GraphView, kinds: Seq<StageKind>, from: StageId)
    requires
        g.well_formed(),
        from < g.stages.len() <= usize::MAX,
        kinds.len() > 0,
        kinds[0].has_input(),
    ensures
        g.with_stages(kinds).link_fault(from, g.stages.len() as usize) == g.output_fault(from),
{
    let h = g.with_stages(kinds);
    let n = g.stages.len() as usize;
    lemma_stages_keep_well_formed(g, kinds);
    lemma_beyond_arena_untouched(g, n);
    assert(h.links == g.links);
    assert(h.stages[n as int] == kinds[0]);
    assert(h.stages[from as int] == g.stages[from as int]);
}

/// Links that a graph holds are still held after more are made.
pub proof fn lemma_links_stay(g: GraphView, more: Seq<Link>, from: StageId, to: StageId)
    requires
        g.connects(from, to),
    ensures
        g.with_links(more).connects(from, to),
{
    let i = choose|i: int|
        0 <= i < g.links.len() && (#[trigger] g.links[i]).from == from && g.links[i].to == to;
    assert(g.with_links(more).links[i] == g.links[i]);
}

/// A chain that the graph admits is made in full: no link of it is refused,
/// and the graph gains exactly its links, in order.
pub proof fn lemma_admitted_chain_is_made(g: GraphView, steps: Seq<Link>)
    requires
        g.admits(steps),
    ensures
        g.link_chain(steps) == (g.with_links(steps), None::<LinkError>),
    decreases steps.len(),
{
    if steps.len() == 0 {
        assert(g.with_links(steps) =~= g);
    } else {
        let first = steps[0];
        let rest = steps.drop_first();
        let h = g.with_link(first);
        assert(g.link_fault(first.from, first.to) is None);
        assert forall|k: int| 0 <= k < rest.len() implies {
            let l = #[trigger] rest[k];
            &&& l.from < h.stages.len()
            &&& l.to < h.stages.len()
            &&& l.from != l.to
            &&& h.stages[l.from as int].has_output()
            &&& h.stages[l.to as int].has_input()
            &&& h.stages[l.from as int].fans_out() || !h.has_outgoing(l.from)
            &&& h.stages[l.to as int].merges() || !h.has_incoming(l.to)
        } by {
            let l = steps[k + 1];
            assert(rest[k] == l);
            if !h.stages[l.from as int].fans_out() && h.has_outgoing(l.from) {
                let i = choose|i: int|
                    0 <= i < h.links.len() && (#[trigger] h.links[i]).from == l.from;
                if i < g.links.len() {
                    assert(g.links[i].from == l.from);
                } else {
                    assert(steps[0].from == steps[k + 1].from);
                }
            }
            if !h.stages[l.to as int].merges() && h.has_incoming(l.to) {
                let i = choose|i: int|
                    0 <= i < h.links.len() && (#[trigger] h.links[i]).to == l.to;
                if i < g.links.len() {
                    assert(g.links[i].to == l.to);
                } else {
                    assert(steps[0].to == steps[k + 1].to);
                }
            }
        }
        assert forall|j: int, k: int|
            0 <= j < k < rest.len() && (#[trigger] rest[j]).from == (#[trigger] rest[k]).from
            implies h.stages[rest[j].from as int].fans_out() by {
            assert(steps[j + 1].from == steps[k + 1].from);
        }
        assert forall|j: int, k: int|
            0 <= j < k < rest.len() && (#[trigger] rest[j]).to == (#[trigger] rest[k]).to
            implies h.stages[rest[j].to as int].merges() by {
            assert(steps[j + 1].to == steps[k + 1].to);
        }
        lemma_admitted_chain_is_made(h, rest);
        assert(h.with_links(rest) =~= g.with_links(steps));
    }
}

/// A chain that a well-formed graph admits leaves it well formed.
pub proof fn lemma_chain_keeps_well_formed(g: GraphView, steps: Seq<Link>)
    requires
        g.well_formed(),
    ensures
        g.link_chain(steps).0.well_formed(),
    decreases steps.len(),
{
    if steps.len() > 0 {
        if g.link_fault(steps[0].from, steps[0].to) is None {
            lemma_link_keeps_well_formed(g, steps[0]);
            lemma_chain_keeps_well_formed(g.with_link(steps[0]), steps.drop_first());
        }
    }
}

/// An input port that is linked stays linked, whatever links are attempted,
/// and unless its stage merges, no further link into it is accepted.
pub proof fn lemma_input_links_once(g: GraphView, s: StageId, link: Link)
    requires
        g.input_state(s) == PortLinkState::Linked,
    ensures
        g.with_link(link).input_state(s) == PortLinkState::Linked,
        link.to == s && g.link_fault(link.from, s) is None ==> s < g.stages.len()
            && g.stages[s as int].merges(),
{
    let i = choose|i: int| 0 <= i < g.links.len() && (#[trigger] g.links[i]).to == s;
    assert(g.with_link(link).links[i].to == s);
}

/// Stages and links as the graph stores them.
#[derive(Debug)]
struct Arena {
    stages: Vec<StageKind>,
    links: Vec<Link>,
}

impl Arena {
    fn empty() -> (a: Arena)
        ensures
            a.stages@.len() == 0,
            a.links@.len() == 0,
    {
        Arena { stages: Vec::new(), links: Vec::new() }
    }
}

/// The pipeline graph. It owns its stages; every other component names a
/// stage by its index here and finds out through `resolve` whether it still
/// exists. A graph is well formed at all times.
#[derive(Debug)]
pub struct PipelineGraph {
    arena: Arena,
    live: bool,
}

impl View for PipelineGraph {
    type V = GraphView;

    closed spec fn view(&self) -> GraphView {
        GraphView { stages: self.arena.stages@, links: self.arena.links@, live: self.live }
    }
}

impl PipelineGraph {
    /// What holds of every graph: its content is well formed.
    #[verifier::type_invariant]
    pub open spec fn inv(self) -> bool {
        self@.well_formed()
    }

    /// Every stage and every link of a graph has an index that the machine
    /// can hold.
    pub proof fn lemma_indices_fit(self)
        ensures
            self@.stages.len() <= usize::MAX,
            self@.links.len() <= usize::MAX,
    {
        assert(self.arena.stages@.len() == self.arena.stages.len());
        assert(self.arena.links@.len() == self.arena.links.len());
    }

    /// Makes a live graph without stages.
    pub fn new() -> (g: PipelineGraph)
        ensures
            g@ == GraphView::empty(),
    {
        PipelineGraph { arena: Arena::empty(), live: true }
    }

    /// Tells whether the graph has not been torn down.
    pub fn is_live(&self) -> (b: bool)
        ensures
            b == self@.live,
    {
        self.live
    }

    /// Number of stages in the arena.
    pub fn stage_count(&self) -> (n: usize)
        ensures
            n == self@.stages.len(),
    {
        self.arena.stages.len()
    }

    /// Number of links.
    pub fn link_count(&self) -> (n: usize)
        ensures
            n == self@.links.len(),
    {
        self.arena.links.len()
    }

    /// The stage at `id`, whether or not the graph is alive.
    pub fn stage_at(&self, id: StageId) -> (k: Option<StageKind>)
        ensures
            k == if id < self@.stages.len() {
                Some(self@.stages[id as int])
            } else {
                None
            },
    {
        if id < self.arena.stages.len() {
            Some(self.arena.stages[id])
        } else {
            None
        }
    }

    /// The `index`-th link that was made.
    pub fn link_at(&self, index: usize) -> (l: Option<Link>)
        ensures
            l == if index < self@.links.len() {
                Some(self@.links[index as int])
            } else {
                None
            },
    {
        if index < self.arena.links.len() {
            Some(self.arena.links[index])
        } else {
            None
        }
    }

    /// Looks a stage up through the liveness check: `None` once the graph is
    /// torn down, or where it never held `id`.
    pub fn resolve(&self, id: StageId) -> (k: Option<StageKind>)
        ensures
            k == self@.resolve(id),
    {
        if self.live && id < self.arena.stages.len() {
            Some(self.arena.stages[id])
        } else {
            None
        }
    }

    /// Tells whether a link leaves stage `s`.
    pub fn has_outgoing(&self, s: StageId) -> (b: bool)
        ensures
            b == self@.has_outgoing(s),
    {
        let mut i: usize = 0;
        while i < self.arena.links.len()
            invariant
                i <= self.arena.links.len(),
                forall|j: int| 0 <= j < i ==> (#[trigger] self.arena.links@[j]).from != s,
            decreases self.arena.links.len() - i,
        {
            if self.arena.links[i].from == s {
                return true;
            }
            i = i + 1;
        }
        false
    }

    /// Tells whether a link enters stage `s`.
    pub fn has_incoming(&self, s: StageId) -> (b: bool)
        ensures
            b == self@.has_incoming(s),
    {
        let mut i: usize = 0;
        while i < self.arena.links.len()
            invariant
                i <= self.arena.links.len(),
                forall|j: int| 0 <= j < i ==> (#[trigger] self.arena.links@[j]).to != s,
            decreases self.arena.links.len() - i,
        {
            if self.arena.links[i].to == s {
                return true;
            }
            i = i + 1;
        }
        false
    }

    /// Tells whether the graph holds a link from `from` to `to`.
    pub fn connects(&self, from: StageId, to: StageId) -> (b: bool)
        ensures
            b == self@.connects(from, to),
    {
        let mut i: usize = 0;
        while i < self.arena.links.len()
            invariant
                i <= self.arena.links.len(),
                forall|j: int|
                    0 <= j < i ==> !((#[trigger] self.arena.links@[j]).from == from
                        && self.arena.links@[j].to == to),
            decreases self.arena.links.len() - i,
        {
            if self.arena.links[i].from == from && self.arena.links[i].to == to {
                return true;
            }
            i = i + 1;
        }
        false
    }

    /// Number of links that enter stage `s`.
    pub fn in_degree(&self, s: StageId) -> (n: usize)
        ensures
            n == self@.in_degree(s),
    {
        let mut n: usize = 0;
        let mut i: usize = 0;
        while i < self.arena.links.len()
            invariant
                i <= self.arena.links.len(),
                n <= i,
                n == count_into(self.arena.links@.take(i as int), s),
            decreases self.arena.links.len() - i,
        {
            assert(self.arena.links@.take(i + 1).drop_last() =~= self.arena.links@.take(i as int));
            if self.arena.links[i].to == s {
                n = n + 1;
            }
            i = i + 1;
        }
        assert(self.arena.links@.take(i as int) =~= self.arena.links@);
        n
    }

    /// Number of links that leave stage `s`.
    pub fn out_degree(&self, s: StageId) -> (n: usize)
        ensures
            n == self@.out_degree(s),
    {
        let mut n: usize = 0;
        let mut i: usize = 0;
        while i < self.arena.links.len()
            invariant
                i <= self.arena.links.len(),
                n <= i,
                n == count_out_of(self.arena.links@.take(i as int), s),
            decreases self.arena.links.len() - i,
        {
            assert(self.arena.links@.take(i + 1).drop_last() =~= self.arena.links@.take(i as int));
            if self.arena.links[i].from == s {
                n = n + 1;
            }
            i = i + 1;
        }
        assert(self.arena.links@.take(i as int) =~= self.arena.links@);
        n
    }

    /// State of the input port of stage `s`.
    pub fn input_state(&self, s: StageId) -> (state: PortLinkState)
        ensures
            state == self@.input_state(s),
    {
        if self.has_incoming(s) {
            PortLinkState::Linked
        } else {
            PortLinkState::Unlinked
        }
    }

    /// Says why stage `from` could not feed a stage that is new to the graph.
    pub fn output_fault(&self, from: StageId) -> (fault: Option<LinkFault>)
        ensures
            fault == self@.output_fault(from),
    {
        if !self.live {
            return Some(LinkFault::GraphReleased);
        }
        if from >= self.arena.stages.len() {
            return Some(LinkFault::UnknownStage);
        }
        let up = self.arena.stages[from];
        if !up.produces_output() || (!up.is_fan_out() && self.has_outgoing(from)) {
            return Some(LinkFault::NoFreeOutput);
        }
        None
    }

    /// Says why a link from `from` to `to` would be refused, without making it.
    pub fn link_fault(&self, from: StageId, to: StageId) -> (fault: Option<LinkFault>)
        ensures
            fault == self@.link_fault(from, to),
    {
        if !self.live {
            return Some(LinkFault::GraphReleased);
        }
        if from >= self.arena.stages.len() || to >= self.arena.stages.len() {
            return Some(LinkFault::UnknownStage);
        }
        if from == to {
            return Some(LinkFault::SameStage);
        }
        let up = self.arena.stages[from];
        if !up.produces_output() || (!up.is_fan_out() && self.has_outgoing(from)) {
            return Some(LinkFault::NoFreeOutput);
        }
        let down = self.arena.stages[to];
        if !down.accepts_input() || (!down.is_merge() && self.has_incoming(to)) {
            return Some(LinkFault::NoFreeInput);
        }
        None
    }

    /// Adds one stage and returns its index. A graph that was torn down takes
    /// no stage.
    pub fn add(&mut self, kind: StageKind) -> (r: Result<StageId, AttachError>)
        ensures
            old(self)@.live ==> r == Ok::<StageId, AttachError>(old(self)@.stages.len() as usize)
                && final(self)@ == old(self)@.with_stages(seq![kind]),
            !old(self)@.live ==> r == Err::<StageId, AttachError>(AttachError::GraphReleased)
                && final(self)@ == old(self)@,
    {
        let kinds = vec![kind];
        assert(kinds@ =~= seq![kind]);
        self.add_many(&kinds)
    }

    /// Adds the stages of `kinds` in order and returns the index of the first.
    /// A graph that was torn down takes no stage.
    pub fn add_many(&mut self, kinds: &Vec<StageKind>) -> (r: Result<StageId, AttachError>)
        ensures
            old(self)@.live ==> r == Ok::<StageId, AttachError>(old(self)@.stages.len() as usize)
                && final(self)@ == old(self)@.with_stages(kinds@),
            !old(self)@.live ==> r == Err::<StageId, AttachError>(AttachError::GraphReleased)
                && final(self)@ == old(self)@,
    {
        proof {
            use_type_invariant(&*self);
        }
        if !self.live {
            return Err(AttachError::GraphReleased);
        }
        let mut arena = Arena::empty();
        std::mem::swap(&mut arena, &mut self.arena);
        let first: usize = arena.stages.len();
        let mut i: usize = 0;
        while i < kinds.len()
            invariant
                i <= kinds.len(),
                arena.links@ == old(self).arena.links@,
                arena.stages@ == old(self).arena.stages@ + kinds@.take(i as int),
            decreases kinds.len() - i,
        {
            arena.stages.push(kinds[i]);
            assert(kinds@.take(i + 1) =~= kinds@.take(i as int).push(kinds@[i as int]));
            i = i + 1;
        }
        proof {
            assert(kinds@.take(i as int) =~= kinds@);
            lemma_stages_keep_well_formed(old(self)@, kinds@);
            assert(old(self)@.with_stages(kinds@) =~= (GraphView {
                stages: arena.stages@,
                links: arena.links@,
                live: true,
            }));
        }
        self.arena = arena;
        Ok(first)
    }

    /// Makes `link`, or refuses it and leaves the graph as it was.
    pub fn link(&mut self, link: Link) -> (r: Result<(), LinkError>)
        ensures
            match old(self)@.link_fault(link.from, link.to) {
                None => r is Ok && final(self)@ == old(self)@.with_link(link),
                Some(fault) => r == Err::<(), LinkError>(
                    LinkError { from: link.from, to: link.to, fault },
                ) && final(self)@ == old(self)@,
            },
    {
        proof {
            use_type_invariant(&*self);
        }
        match self.link_fault(link.from, link.to) {
            Some(fault) => Err(LinkError { from: link.from, to: link.to, fault }),
            None => {
                let mut arena = Arena::empty();
                std::mem::swap(&mut arena, &mut self.arena);
                arena.links.push(link);
                proof {
                    lemma_link_keeps_well_formed(old(self)@, link);
                    assert(old(self)@.with_link(link) =~= (GraphView {
                        stages: arena.stages@,
                        links: arena.links@,
                        live: true,
                    }));
                }
                self.arena = arena;
                Ok(())
            },
        }
    }

    /// Makes the links of `steps` in order. The first refusal ends the call:
    /// the links before it stay, those after it are not attempted.
    pub fn link_chain(&mut self, steps: &Vec<Link>) -> (r: Result<(), LinkError>)
        ensures
            final(self)@ == old(self)@.link_chain(steps@).0,
            r == match old(self)@.link_chain(steps@).1 {
                None => Ok::<(), LinkError>(()),
                Some(e) => Err::<(), LinkError>(e),
            },
    {
        let mut i: usize = 0;
        assert(steps@.skip(0) =~= steps@);
        while i < steps.len()
            invariant
                i <= steps.len(),
                old(self)@.link_chain(steps@) == self@.link_chain(steps@.skip(i as int)),
            decreases steps.len() - i,
        {
            let step = steps[i];
            assert(steps@.skip(i as int)[0] == step);
            assert(steps@.skip(i as int).drop_first() =~= steps@.skip(i + 1));
            match self.link(step) {
                Err(e) => { return Err(e); },
                Ok(()) => {},
            }
            i = i + 1;
        }
        assert(steps@.skip(i as int).len() == 0);
        Ok(())
    }

    /// Tears the graph down. Its stages can no longer be resolved, and it
    /// takes no further stage or link.
    pub fn release(&mut self)
        ensures
            final(self)@ == old(self)@.released(),
    {
        proof {
            use_type_invariant(&*self);
        }
        self.live = false;
    }
}

} // verus!
