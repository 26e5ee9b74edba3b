//! The annotator: the stage of the transform pass that writes onto logic
//! blocks the path of names that leads to them, and onto transitions the
//! names of the steps they connect.

use crate::error::Error;
use crate::error::ErrorView;
use crate::event::visit_view;
use crate::event::Event;
use crate::event::EventView;
use crate::event::VisitProcessing;
use crate::event::VisitProcessingView;
use crate::event::VisitResult;
use crate::event::XmlNodeVisitor;
use crate::grafcet::is_control_node;
use crate::grafcet::is_node_tag;
use crate::grafcet::node_ids;
use crate::grafcet::node_of;
use crate::grafcet::GrafcetCounter;
use crate::grafcet::GrafcetNodeView;
use crate::grafcet::GrafcetTracer;
use crate::guid::Guid;
use crate::name_tracker::name_of;
use crate::name_tracker::NameEntries;
use crate::name_tracker::NameTracker;
use crate::name_tracker::RungView;
use crate::tag::CurrentTag;
use vstd::prelude::*;
use vstd::slice::slice_to_vec;
use vstd::string::*;
use vstd::utf8::*;

verus! {

/// The display name that stands for an identifier. An identifier with a
/// name of its own has that name. One without is a fork or a junction: the
/// name is that of its neighbour on the side with exactly one reference,
/// found in the same way, in at most `budget` steps from node to node. There
/// is no name where the walk comes to an identifier that is neither named
/// nor recorded as a node, or where the steps run out, as they do on a ring
/// of nodes without names.
pub open spec fn resolved(
    names: NameEntries,
    nodes: Seq<GrafcetNodeView>,
    id: Seq<u8>,
    budget: nat,
) -> Option<Seq<char>>
    decreases budget,
{
    match name_of(names, id) {
        Some(name) => Some(name),
        None => match node_of(nodes, id) {
            Some(node) => if budget == 0 {
                None
            } else {
                resolved(names, nodes, node.unique_link(), (budget - 1) as nat)
            },
            None => None,
        },
    }
}

/// The number of steps from node to node that the walk from an identifier
/// takes until it stops, be it at a name, at an identifier that is not
/// recorded, or at the end of its budget.
pub open spec fn hops(
    names: NameEntries,
    nodes: Seq<GrafcetNodeView>,
    id: Seq<u8>,
    budget: nat,
) -> nat
    decreases budget,
{
    match name_of(names, id) {
        Some(_) => 0,
        None => match node_of(nodes, id) {
            Some(node) => if budget == 0 {
                0
            } else {
                1 + hops(names, nodes, node.unique_link(), (budget - 1) as nat)
            },
            None => 0,
        },
    }
}

/// No walk takes more steps than its budget.
pub proof fn lemma_hops_within_budget(
    names: NameEntries,
    nodes: Seq<GrafcetNodeView>,
    id: Seq<u8>,
    budget: nat,
)
    ensures
        hops(names, nodes, id, budget) <= budget,
    decreases budget,
{
    if name_of(names, id) is None && node_of(nodes, id) is Some && budget > 0 {
        lemma_hops_within_budget(
            names,
            nodes,
            node_of(nodes, id).unwrap().unique_link(),
            (budget - 1) as nat,
        );
    }
}

/// A walk that finds a name finds the same name in as many steps under
/// every budget that is no smaller than its number of steps.
pub proof fn lemma_walk_needs_its_steps_only(
    names: NameEntries,
    nodes: Seq<GrafcetNodeView>,
    id: Seq<u8>,
    budget: nat,
    other: nat,
)
    requires
        resolved(names, nodes, id, budget) is Some,
        other >= hops(names, nodes, id, budget),
    ensures
        resolved(names, nodes, id, other) == resolved(names, nodes, id, budget),
        hops(names, nodes, id, other) == hops(names, nodes, id, budget),
    decreases budget,
{
    if name_of(names, id) is None {
        let node = node_of(nodes, id).unwrap();
        lemma_walk_needs_its_steps_only(
            names,
            nodes,
            node.unique_link(),
            (budget - 1) as nat,
            (other - 1) as nat,
        );
    }
}

/// The identifiers on the way of a walk that finds a name are all
/// different, and all of them are recorded nodes: together with any set of
/// recorded identifiers from which the way to a name is longer, they are no
/// more than the recorded identifiers.
proof fn lemma_walk_visits_no_node_twice(
    names: NameEntries,
    nodes: Seq<GrafcetNodeView>,
    id: Seq<u8>,
    budget: nat,
    visited: Set<Seq<u8>>,
)
    requires
        resolved(names, nodes, id, budget) is Some,
        visited.finite(),
        visited.subset_of(node_ids(nodes).to_set()),
        forall|v: Seq<u8>| #[trigger]
            visited.contains(v) ==> resolved(names, nodes, v, budget) is Some && hops(
                names,
                nodes,
                v,
                budget,
            ) > hops(names, nodes, id, budget),
    ensures
        hops(names, nodes, id, budget) + visited.len() <= node_ids(nodes).to_set().len(),
    decreases hops(names, nodes, id, budget),
{
    broadcast use {vstd::set::group_set_axioms, vstd::seq_lib::seq_to_set_is_finite};

    let recorded = node_ids(nodes).to_set();
    if name_of(names, id) is Some {
        vstd::set_lib::lemma_len_subset(visited, recorded);
    } else {
        let node = node_of(nodes, id).unwrap();
        let next = node.unique_link();
        lemma_hops_within_budget(names, nodes, next, (budget - 1) as nat);
        lemma_walk_needs_its_steps_only(names, nodes, next, (budget - 1) as nat, budget);
        node_ids(nodes).index_of_last_ensures(id);
        assert(recorded.contains(id));
        assert(!visited.contains(id));
        let longer = visited.insert(id);
        assert forall|v: Seq<u8>| #[trigger] longer.contains(v) implies resolved(
            names,
            nodes,
            v,
            budget,
        ) is Some && hops(names, nodes, v, budget) > hops(names, nodes, next, budget) by {
            if v != id {
                assert(visited.contains(v));
            }
        }
        lemma_walk_visits_no_node_twice(names, nodes, next, budget, longer);
    }
}

/// As many steps as there are recorded nodes are budget enough: a walk that
/// finds a name under any budget finds the same name under this one. The
/// budget cuts short only a walk that would never end.
pub proof fn lemma_node_count_is_budget_enough(
    names: NameEntries,
    nodes: Seq<GrafcetNodeView>,
    id: Seq<u8>,
    budget: nat,
)
    requires
        resolved(names, nodes, id, budget) is Some,
    ensures
        resolved(names, nodes, id, nodes.len()) == resolved(names, nodes, id, budget),
{
    lemma_walk_visits_no_node_twice(names, nodes, id, budget, Set::empty());
    node_ids(nodes).lemma_cardinality_of_set();
    lemma_walk_needs_its_steps_only(names, nodes, id, budget, nodes.len());
}

/// The name of the attribute that carries an annotation.
pub open spec fn context_key() -> Seq<u8> {
    "ctx".spec_bytes()
}

/// What the annotator holds while it follows a document.
#[verifier::ext_equal]
pub struct DiffHeaderView {
    /// The records of the logic blocks, from the pass before.
    pub rungs: Seq<RungView>,
    /// The display names of steps and transitions, from the pass before.
    pub names: NameEntries,
    /// The control nodes, from the pass before.
    pub nodes: Seq<GrafcetNodeView>,
    /// The number of control nodes opened so far.
    pub count: nat,
    /// The number of logic blocks opened so far.
    pub next_rung: usize,
}

impl DiffHeaderView {
    /// The display name that stands for an identifier, with as many steps
    /// allowed as there are nodes.
    pub open spec fn name(self, id: Seq<u8>) -> Option<Seq<char>> {
        resolved(self.names, self.nodes, id, self.nodes.len())
    }

    /// The annotation of the transition that was opened last: the names of
    /// the node it comes from, of itself and of the node it leads to, as
    /// `from->[itself]->to`. The transition is the control node at the place
    /// `count` of the document sequence, counted from one, and must have
    /// exactly one reference on each side.
    pub open spec fn transition_context(self) -> Result<Seq<u8>, ErrorView> {
        if self.count == 0 || self.count > self.nodes.len() {
            Err(ErrorView::MissingNode { position: self.count as usize })
        } else {
            let node = node_of(self.nodes, node_ids(self.nodes)[self.count - 1]).unwrap();
            if !(node.from.len() == 1 && node.to.len() == 1) {
                Err(ErrorView::AmbiguousTransition { node })
            } else {
                match self.name(node.from[0]) {
                    None => Err(ErrorView::UnresolvedName { id: node.from[0] }),
                    Some(from) => match self.name(node.id) {
                        None => Err(ErrorView::UnresolvedName { id: node.id }),
                        Some(itself) => match self.name(node.to[0]) {
                            None => Err(ErrorView::UnresolvedName { id: node.to[0] }),
                            Some(to) => Ok(
                                encode_utf8(from + "->["@ + itself + "]->"@ + to),
                            ),
                        },
                    },
                }
            }
        }
    }

    /// The state after one more event, and what the visit answers.
    ///
    /// Only opening tags matter. That of a control node is counted. That of
    /// a logic block gets the attribute `ctx` with the path noted in the next
    /// record that has not been used, which is used up by it. That of a
    /// transition gets the attribute `ctx` with the transition's annotation.
    /// Every other event is handed on as it came.
    pub open spec fn step(self, event: EventView, current: CurrentTag) -> (
        DiffHeaderView,
        Result<VisitProcessingView, ErrorView>,
    ) {
        match event {
            EventView::Start(tag) => {
                if is_control_node(current) && self.count >= usize::MAX {
                    (self, Err(ErrorView::CounterOverflow))
                } else {
                    let counted = DiffHeaderView {
                        count: if is_control_node(current) {
                            self.count + 1
                        } else {
                            self.count
                        },
                        ..self
                    };
                    if current == CurrentTag::RungEntity {
                        if self.next_rung >= self.rungs.len() {
                            (counted, Err(ErrorView::MissingRung { index: self.next_rung }))
                        } else {
                            (
                                DiffHeaderView {
                                    next_rung: (self.next_rung + 1) as usize,
                                    ..counted
                                },
                                Ok(
                                    VisitProcessingView::Continue(
                                        EventView::Start(
                                            tag.with_attribute(
                                                context_key(),
                                                self.rungs[self.next_rung as int].name,
                                            ),
                                        ),
                                    ),
                                ),
                            )
                        }
                    } else if current == CurrentTag::GrafcetTransition {
                        match counted.transition_context() {
                            Ok(context) => (
                                counted,
                                Ok(
                                    VisitProcessingView::Continue(
                                        EventView::Start(
                                            tag.with_attribute(context_key(), context),
                                        ),
                                    ),
                                ),
                            ),
                            Err(error) => (counted, Err(error)),
                        }
                    } else {
                        (counted, Ok(VisitProcessingView::Continue(event)))
                    }
                }
            },
            _ => (self, Ok(VisitProcessingView::Continue(event))),
        }
    }
}

/// Writes onto the opening tags of logic blocks and transitions where in
/// the document they stand: the path of names for a block, the neighbours'
/// names for a transition.
#[derive(Debug)]
pub struct DiffHeader<'a> {
    trk: &'a NameTracker,
    grc: &'a GrafcetTracer,
    grc_cnt: GrafcetCounter,
    current_rung: usize,
}

impl<'a> View for DiffHeader<'a> {
    type V = DiffHeaderView;

    closed spec fn view(&self) -> DiffHeaderView {
        DiffHeaderView {
            rungs: self.trk@.rungs,
            names: self.trk@.ids,
            nodes: self.grc@.nodes,
            count: self.grc_cnt@,
            next_rung: self.current_rung,
        }
    }
}

impl<'a> DiffHeader<'a> {
    /// An annotator at the start of a document, over what the pass before
    /// has collected.
    pub fn new(trk: &'a NameTracker, grc: &'a GrafcetTracer) -> (annotator: Self)
        ensures
            annotator@ == (DiffHeaderView {
                rungs: trk@.rungs,
                names: trk@.ids,
                nodes: grc@.nodes,
                count: 0,
                next_rung: 0,
            }),
    {
        DiffHeader { trk, grc, grc_cnt: GrafcetCounter::default(), current_rung: 0 }
    }

    /// Adds the attribute `ctx` with the given value to an opening tag.
    pub fn add_ctx_attr(bytes: &mut crate::event::StartTag, hdr: &[u8])
        ensures
            final(bytes)@ == old(bytes)@.with_attribute(context_key(), hdr@),
    {
        bytes.push_attribute("ctx".as_bytes(), hdr);
    }

    /// The display name that stands for an identifier.
    pub fn id(&self, id: &Guid) -> (res: Result<&'a str, Error>)
        ensures
            match res {
                Ok(name) => self@.name(id@) == Some(name@),
                Err(error) => self@.name(id@) is None && error@ == (ErrorView::UnresolvedName {
                    id: id@,
                }),
            },
    {
        let total = self.grc.node_count();
        let mut budget = total;
        let mut current: &[u8] = id.as_ref();
        loop
            invariant
                budget <= total,
                total == self@.nodes.len(),
                self@.name(id@) == resolved(self@.names, self@.nodes, current@, budget as nat),
            decreases budget,
        {
            match self.trk.display_name(current) {
                Some(name) => {
                    return Ok(name);
                },
                None => {},
            }
            match self.grc.find_node(current) {
                Some(node) => {
                    if budget == 0 {
                        return Err(Error::UnresolvedName { id: slice_to_vec(id.as_ref()) });
                    }
                    budget = budget - 1;
                    if node.to.len() == 1 {
                        current = node.to[0].as_ref();
                    } else {
                        current = node.from[0].as_ref();
                    }
                },
                None => {
                    return Err(Error::UnresolvedName { id: slice_to_vec(id.as_ref()) });
                },
            }
        }
    }

    /// The annotation of the transition that was opened last.
    pub fn trans_ctx(&self) -> (res: Result<Vec<u8>, Error>)
        ensures
            match res {
                Ok(context) => self@.transition_context() == Ok::<Seq<u8>, ErrorView>(context@),
                Err(error) => self@.transition_context() == Err::<Seq<u8>, ErrorView>(error@),
            },
    {
        let position = self.grc_cnt.count();
        if position == 0 || position > self.grc.node_count() {
            return Err(Error::MissingNode { position });
        }
        let node = self.grc.get_current_node(&self.grc_cnt);
        match node.uniq_triple() {
            None => Err(Error::AmbiguousTransition { node: node.clone() }),
            Some((from, id, to)) => {
                let from_name = match self.id(from) {
                    Ok(name) => name,
                    Err(error) => {
                        return Err(error);
                    },
                };
                let own_name = match self.id(id) {
                    Ok(name) => name,
                    Err(error) => {
                        return Err(error);
                    },
                };
                let to_name = match self.id(to) {
                    Ok(name) => name,
                    Err(error) => {
                        return Err(error);
                    },
                };
                let mut context = String::from_str(from_name);
                context.append("->[");
                context.append(own_name);
                context.append("]->");
                context.append(to_name);
                Ok(context.as_str().as_bytes_vec())
            },
        }
    }
}

impl<'a> XmlNodeVisitor for DiffHeader<'a> {
    fn visit(&mut self, event: Event, current: CurrentTag) -> (res: VisitResult)
        ensures
            (final(self)@, visit_view(res)) == old(self)@.step(event@, current),
    {
        match event {
            Event::Start(mut bytes) => {
                if is_node_tag(current) {
                    if !self.grc_cnt.has_room() {
                        return Err(Error::CounterOverflow);
                    }
                    self.grc_cnt.process_current_tag(current);
                }
                match current {
                    CurrentTag::RungEntity => {
                        match self.trk.rung(self.current_rung) {
                            Some(rung) => {
                                Self::add_ctx_attr(&mut bytes, rung.name.as_slice());
                                self.current_rung = self.current_rung + 1;
                            },
                            None => {
                                return Err(Error::MissingRung { index: self.current_rung });
                            },
                        }
                    },
                    CurrentTag::GrafcetTransition => {
                        match self.trans_ctx() {
                            Ok(context) => {
                                Self::add_ctx_attr(&mut bytes, context.as_slice());
                            },
                            Err(error) => {
                                return Err(error);
                            },
                        }
                    },
                    _ => {},
                }
                Ok(VisitProcessing::Continue(Event::Start(bytes)))
            },
            other => Ok(VisitProcessing::Continue(other)),
        }
    }
}

} // verus!
