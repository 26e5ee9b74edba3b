//! The network of control nodes: steps, transitions, forks and junctions,
//! each with the identifiers of its neighbours, put together again from the
//! texts that a document spreads over its elements.

use crate::bytes::bytes_eq;
use crate::error::Error;
use crate::error::ErrorView;
use crate::event::visit_view;
use crate::event::Event;
use crate::event::EventView;
use crate::event::VisitProcessing;
use crate::event::VisitProcessingView;
use crate::event::VisitResult;
use crate::event::XmlNodeVisitor;
use crate::guid::Guid;
use crate::guid::GUID_LEN;
use crate::tag::CurrentTag;
use vstd::pervasive::unreached;
use vstd::prelude::*;
use vstd::slice::slice_to_vec;

verus! {

/// A control node of the step and transition network: its own identifier,
/// and the identifiers it names as coming in and as going out, in document
/// order.
#[derive(Debug, PartialEq, Eq)]
pub struct GrafcetNode {
    pub id: Guid,
    pub from: Vec<Guid>,
    pub to: Vec<Guid>,
}

/// The mathematical content of a [`GrafcetNode`].
#[verifier::ext_equal]
pub struct GrafcetNodeView {
    pub id: Seq<u8>,
    pub from: Seq<Seq<u8>>,
    pub to: Seq<Seq<u8>>,
}

impl GrafcetNodeView {
    /// A node with an empty identifier and no reference.
    pub open spec fn empty() -> GrafcetNodeView {
        GrafcetNodeView { id: Seq::empty(), from: Seq::empty(), to: Seq::empty() }
    }

    /// The rule of the network: a node has exactly one incoming reference or
    /// exactly one outgoing reference. Both may hold; a fork or a junction
    /// has many references on its other side.
    pub open spec fn fan_ok(self) -> bool {
        self.from.len() == 1 || self.to.len() == 1
    }

    /// The neighbour on the side that has exactly one reference: the
    /// outgoing side where it has one, else the incoming side.
    pub open spec fn unique_link(self) -> Seq<u8> {
        if self.to.len() == 1 {
            self.to[0]
        } else {
            self.from[0]
        }
    }
}

impl View for GrafcetNode {
    type V = GrafcetNodeView;

    open spec fn view(&self) -> GrafcetNodeView {
        GrafcetNodeView { id: self.id@, from: self.from.deep_view(), to: self.to.deep_view() }
    }
}

impl DeepView for GrafcetNode {
    type V = GrafcetNodeView;

    open spec fn deep_view(&self) -> GrafcetNodeView {
        self@
    }
}

impl Default for GrafcetNode {
    fn default() -> (node: Self)
        ensures
            node@ == GrafcetNodeView::empty(),
    {
        let node = GrafcetNode { id: Guid::default(), from: Vec::new(), to: Vec::new() };
        assert(node@ =~= GrafcetNodeView::empty());
        node
    }
}

/// A copy of a list of identifiers.
fn clone_guids(list: &Vec<Guid>) -> (copy: Vec<Guid>)
    ensures
        copy.deep_view() == list.deep_view(),
{
    let mut copy: Vec<Guid> = Vec::new();
    let mut i: usize = 0;
    while i < list.len()
        invariant
            i <= list@.len(),
            copy@.len() == i,
            forall|j: int| 0 <= j < i ==> copy@[j]@ == list@[j]@,
        decreases list@.len() - i,
    {
        copy.push(list[i].clone());
        i = i + 1;
    }
    assert(copy.deep_view() =~= list.deep_view());
    copy
}

impl Clone for GrafcetNode {
    fn clone(&self) -> (copy: Self)
        ensures
            copy@ == self@,
    {
        GrafcetNode {
            id: self.id.clone(),
            from: clone_guids(&self.from),
            to: clone_guids(&self.to),
        }
    }
}

impl GrafcetNode {
    /// The links `(from, id, to)` of a node that has exactly one reference on
    /// each side, and nothing for any other node.
    pub fn uniq_triple(&self) -> (triple: Option<(&Guid, &Guid, &Guid)>)
        ensures
            triple is Some <==> self@.from.len() == 1 && self@.to.len() == 1,
            triple matches Some((from, id, to)) ==> from@ == self@.from[0] && id@ == self@.id
                && to@ == self@.to[0],
    {
        if self.from.len() == 1 && self.to.len() == 1 {
            Some((&self.from[0], &self.id, &self.to[0]))
        } else {
            None
        }
    }
}

/// Whether a tag is that of a control node: a step, a transition, a fork or
/// a junction.
pub open spec fn is_control_node(tag: CurrentTag) -> bool {
    tag == CurrentTag::GrafcetNodeStep || tag == CurrentTag::GrafcetTransition || tag
        == CurrentTag::GrafcetOrFork || tag == CurrentTag::GrafcetOrJunction
}

/// Counts the control nodes met so far.
#[derive(Debug)]
pub struct GrafcetCounter(usize);

impl View for GrafcetCounter {
    type V = nat;

    closed spec fn view(&self) -> nat {
        self.0 as nat
    }
}

impl Default for GrafcetCounter {
    fn default() -> (counter: Self)
        ensures
            counter@ == 0,
    {
        GrafcetCounter(0)
    }
}

impl GrafcetCounter {
    /// Counts the tag if it is that of a control node, and says whether it
    /// is one.
    pub fn process_current_tag(&mut self, current: CurrentTag) -> (counted: bool)
        requires
            old(self)@ < usize::MAX,
        ensures
            counted == is_control_node(current),
            final(self)@ == old(self)@ + (if counted { 1nat } else { 0nat }),
    {
        match current {
            CurrentTag::GrafcetNodeStep
            | CurrentTag::GrafcetTransition
            | CurrentTag::GrafcetOrFork
            | CurrentTag::GrafcetOrJunction => {
                self.0 = self.0 + 1;
                true
            },
            _ => false,
        }
    }

    /// The number of control nodes counted.
    pub fn count(&self) -> (count: usize)
        ensures
            count == self@,
    {
        self.0
    }

    /// Whether the counter can count one more.
    pub fn has_room(&self) -> (room: bool)
        ensures
            room == (self@ < usize::MAX),
    {
        self.0 < usize::MAX
    }
}

/// The rule of the network holds of every node.
pub open spec fn nodes_ok(nodes: Seq<GrafcetNodeView>) -> bool {
    forall|i: int| 0 <= i < nodes.len() ==> (#[trigger] nodes[i]).fan_ok()
}

/// The identifiers of the nodes, in the order of the nodes: the document
/// sequence.
pub open spec fn node_ids(nodes: Seq<GrafcetNodeView>) -> Seq<Seq<u8>> {
    nodes.map_values(|node: GrafcetNodeView| node.id)
}

/// The node that is recorded for an identifier: the last one that came with
/// it, or nothing where none did.
pub open spec fn node_of(nodes: Seq<GrafcetNodeView>, id: Seq<u8>) -> Option<GrafcetNodeView> {
    match node_ids(nodes).index_of_last(id) {
        Some(i) => Some(nodes[i]),
        None => None,
    }
}

/// The control nodes of a document in the order in which their elements
/// closed. Every node in it keeps the rule of the network.
#[derive(Debug)]
pub struct NodeTable {
    nodes: Vec<GrafcetNode>,
}

impl View for NodeTable {
    type V = Seq<GrafcetNodeView>;

    closed spec fn view(&self) -> Seq<GrafcetNodeView> {
        self.nodes.deep_view()
    }
}

impl NodeTable {
    #[verifier::type_invariant]
    spec fn inv(self) -> bool {
        nodes_ok(self.nodes.deep_view())
    }

    /// A table without nodes.
    pub fn new() -> (table: Self)
        ensures
            table@ == Seq::<GrafcetNodeView>::empty(),
    {
        let table = NodeTable { nodes: Vec::new() };
        assert(table.nodes.deep_view() =~= Seq::<GrafcetNodeView>::empty());
        table
    }

    /// States what holds of every table.
    pub fn all_ok(&self)
        ensures
            nodes_ok(self@),
    {
        proof {
            use_type_invariant(self);
        }
    }

    /// The number of nodes recorded.
    pub fn len(&self) -> (len: usize)
        ensures
            len == self@.len(),
    {
        self.nodes.len()
    }

    /// Puts a node behind those recorded.
    pub fn record(&mut self, node: GrafcetNode)
        requires
            node@.fan_ok(),
        ensures
            final(self)@ == old(self)@.push(node@),
    {
        proof {
            use_type_invariant(&*self);
        }
        let ghost before = self.nodes.deep_view();
        let mut taken = NodeTable::new();
        std::mem::swap(self, &mut taken);
        let NodeTable { mut nodes } = taken;
        nodes.push(node);
        proof {
            assert(nodes.deep_view() =~= before.push(node@));
        }
        *self = NodeTable { nodes };
    }

    /// The node at a place of the document sequence.
    pub fn at(&self, place: usize) -> (node: &GrafcetNode)
        requires
            place < self@.len(),
        ensures
            node@ == self@[place as int],
            node@.fan_ok(),
    {
        proof {
            use_type_invariant(self);
            assert(self.nodes.deep_view()[place as int].fan_ok());
        }
        &self.nodes[place]
    }

    /// The node recorded for an identifier.
    pub fn find(&self, id: &[u8]) -> (found: Option<&GrafcetNode>)
        ensures
            match found {
                Some(node) => node_of(self@, id@) == Some(node@) && node@.fan_ok(),
                None => node_of(self@, id@) is None,
            },
    {
        proof {
            use_type_invariant(self);
        }
        let ghost ids = node_ids(self@);
        proof {
            ids.index_of_last_ensures(id@);
        }
        let mut i: usize = self.nodes.len();
        while i > 0
            invariant
                i <= self.nodes@.len(),
                ids == node_ids(self@),
                ids.len() == self.nodes@.len(),
                nodes_ok(self@),
                forall|j: int| i <= j < ids.len() ==> ids[j] != id@,
            decreases i,
        {
            i = i - 1;
            if bytes_eq(self.nodes[i].id.as_ref(), id) {
                proof {
                    assert(ids[i as int] == id@);
                    assert(ids.contains(id@));
                    ids.index_of_last_ensures(id@);
                    assert(self@[i as int].fan_ok());
                }
                return Some(&self.nodes[i]);
            }
        }
        None
    }
}

/// What the builder of the network holds while it follows a document.
#[verifier::ext_equal]
pub struct GrafcetTracerView {
    /// The nodes completed so far.
    pub nodes: Seq<GrafcetNodeView>,
    /// The node that is being put together.
    pub pending: GrafcetNodeView,
    /// The depth at which the identifier of that node was seen, 0 where none
    /// was.
    pub pending_depth: usize,
    /// The number of elements that are open.
    pub depth: usize,
}

impl GrafcetTracerView {
    /// The state before the first event.
    pub open spec fn initial() -> GrafcetTracerView {
        GrafcetTracerView {
            nodes: Seq::empty(),
            pending: GrafcetNodeView::empty(),
            pending_depth: 0,
            depth: 0,
        }
    }

    /// The state after one more event, and what the visit answers.
    ///
    /// The text of an `Id` element sets the identifier of the pending node
    /// and notes the depth; the texts of `To` and `From` elements go behind
    /// its outgoing and its incoming references. An opening tag adds one to
    /// the depth and a closing tag takes one off. Where the closing tag is
    /// that of a control node, the pending node is checked, put behind the
    /// completed ones, and a new empty node is begun. The check fails where
    /// the identifier was noted more than one level further in than the
    /// element that closes, and where the node breaks the rule of the
    /// network. Every event is handed on as it came.
    pub open spec fn step(self, event: EventView, current: CurrentTag) -> (
        GrafcetTracerView,
        Result<VisitProcessingView, ErrorView>,
    ) {
        let handed_on = Ok::<VisitProcessingView, ErrorView>(VisitProcessingView::Continue(event));
        match event {
            EventView::Text(text) => {
                if current == CurrentTag::Id || current == CurrentTag::To || current
                    == CurrentTag::From {
                    if text.len() > GUID_LEN {
                        (self, Err(ErrorView::IdentifierTooLong { text }))
                    } else if current == CurrentTag::Id {
                        (
                            GrafcetTracerView {
                                pending: GrafcetNodeView { id: text, ..self.pending },
                                pending_depth: self.depth,
                                ..self
                            },
                            handed_on,
                        )
                    } else if current == CurrentTag::To {
                        (
                            GrafcetTracerView {
                                pending: GrafcetNodeView {
                                    to: self.pending.to.push(text),
                                    ..self.pending
                                },
                                ..self
                            },
                            handed_on,
                        )
                    } else {
                        (
                            GrafcetTracerView {
                                pending: GrafcetNodeView {
                                    from: self.pending.from.push(text),
                                    ..self.pending
                                },
                                ..self
                            },
                            handed_on,
                        )
                    }
                } else {
                    (self, handed_on)
                }
            },
            EventView::Start(_) => {
                if self.depth >= usize::MAX {
                    (self, Err(ErrorView::CounterOverflow))
                } else {
                    (GrafcetTracerView { depth: (self.depth + 1) as usize, ..self }, handed_on)
                }
            },
            EventView::End(_) => {
                if self.depth == 0 {
                    (self, Err(ErrorView::UnbalancedClose { name: event->End_0 }))
                } else if !is_control_node(current) {
                    (GrafcetTracerView { depth: (self.depth - 1) as usize, ..self }, handed_on)
                } else if self.depth + 1 < self.pending_depth {
                    (
                        self,
                        Err(
                            ErrorView::NodeDepthMismatch {
                                node: self.pending,
                                open_depth: self.pending_depth,
                                close_depth: self.depth,
                            },
                        ),
                    )
                } else if !self.pending.fan_ok() {
                    (self, Err(ErrorView::NodeFanMismatch { node: self.pending }))
                } else {
                    (
                        GrafcetTracerView {
                            nodes: self.nodes.push(self.pending),
                            pending: GrafcetNodeView::empty(),
                            pending_depth: 0,
                            depth: (self.depth - 1) as usize,
                        },
                        handed_on,
                    )
                }
            },
            _ => (self, handed_on),
        }
    }
}

/// Rebuilds the network of control nodes from the identifiers and references
/// that a document spreads over its elements.
#[derive(Debug)]
pub struct GrafcetTracer {
    nodes: NodeTable,
    new_node: (usize, GrafcetNode),
    current_depth: usize,
}

impl View for GrafcetTracer {
    type V = GrafcetTracerView;

    closed spec fn view(&self) -> GrafcetTracerView {
        GrafcetTracerView {
            nodes: self.nodes@,
            pending: self.new_node.1@,
            pending_depth: self.new_node.0,
            depth: self.current_depth,
        }
    }
}

impl Default for GrafcetTracer {
    fn default() -> (tracer: Self)
        ensures
            tracer@ == GrafcetTracerView::initial(),
    {
        GrafcetTracer {
            nodes: NodeTable::new(),
            new_node: (0, GrafcetNode::default()),
            current_depth: 0,
        }
    }
}

impl GrafcetTracer {
    /// States what holds of the nodes of every tracer.
    pub fn all_ok(&self)
        ensures
            nodes_ok(self@.nodes),
    {
        self.nodes.all_ok();
    }

    /// The node recorded for an identifier, if there is one.
    pub fn find_node(&self, id: &[u8]) -> (found: Option<&GrafcetNode>)
        ensures
            match found {
                Some(node) => node_of(self@.nodes, id@) == Some(node@) && node@.fan_ok(),
                None => node_of(self@.nodes, id@) is None,
            },
    {
        self.nodes.find(id)
    }

    /// The neighbour of a recorded node on its side with exactly one
    /// reference: the outgoing side where it has one, else the incoming side.
    pub fn get_unique_link(&self, id: &Guid) -> (link: &Guid)
        requires
            node_of(self@.nodes, id@) is Some,
        ensures
            link@ == node_of(self@.nodes, id@).unwrap().unique_link(),
    {
        match self.nodes.find(id.as_ref()) {
            Some(curr) => {
                if curr.to.len() == 1 {
                    &curr.to[0]
                } else {
                    &curr.from[0]
                }
            },
            None => unreached(),
        }
    }

    /// The node that stands for the control node opened as number `cnt` of
    /// the document: the one recorded for the identifier at that place of the
    /// document sequence.
    pub fn get_current_node(&self, cnt: &GrafcetCounter) -> (node: &GrafcetNode)
        requires
            1 <= cnt@ <= self@.nodes.len(),
        ensures
            node_of(self@.nodes, node_ids(self@.nodes)[cnt@ - 1]) == Some(node@),
            node@.fan_ok(),
    {
        let at_place = self.nodes.at(cnt.count() - 1);
        proof {
            let ids = node_ids(self@.nodes);
            assert(ids[cnt@ - 1] == at_place@.id);
            assert(ids.contains(at_place@.id));
            ids.index_of_last_ensures(at_place@.id);
        }
        match self.nodes.find(at_place.id.as_ref()) {
            Some(node) => node,
            None => unreached(),
        }
    }

    /// The number of control nodes recorded.
    pub fn node_count(&self) -> (count: usize)
        ensures
            count == self@.nodes.len(),
    {
        self.nodes.len()
    }
}

impl XmlNodeVisitor for GrafcetTracer {
    fn visit(&mut self, event: Event, current: CurrentTag) -> (res: VisitResult)
        ensures
            (final(self)@, visit_view(res)) == old(self)@.step(event@, current),
            nodes_ok(final(self)@.nodes),
    {
        self.nodes.all_ok();
        match &event {
            Event::Text(text) => {
                match current {
                    CurrentTag::Id => {
                        match Guid::try_from(text.as_slice()) {
                            Ok(id) => {
                                self.new_node.0 = self.current_depth;
                                self.new_node.1.id = id;
                            },
                            Err(error) => {
                                return Err(error);
                            },
                        }
                    },
                    CurrentTag::To => {
                        match Guid::try_from(text.as_slice()) {
                            Ok(id) => {
                                let ghost before = self.new_node.1.to.deep_view();
                                self.new_node.1.to.push(id);
                                assert(self.new_node.1.to.deep_view() =~= before.push(text@));
                            },
                            Err(error) => {
                                return Err(error);
                            },
                        }
                    },
                    CurrentTag::From => {
                        match Guid::try_from(text.as_slice()) {
                            Ok(id) => {
                                let ghost before = self.new_node.1.from.deep_view();
                                self.new_node.1.from.push(id);
                                assert(self.new_node.1.from.deep_view() =~= before.push(text@));
                            },
                            Err(error) => {
                                return Err(error);
                            },
                        }
                    },
                    _ => {},
                }
            },
            Event::Start(_) => {
                if self.current_depth == usize::MAX {
                    return Err(Error::CounterOverflow);
                }
                self.current_depth = self.current_depth + 1;
            },
            Event::End(name) => {
                if self.current_depth == 0 {
                    return Err(Error::UnbalancedClose { name: slice_to_vec(name.as_slice()) });
                }
                if is_node_tag(current) {
                    if self.new_node.0 > 0 && self.current_depth < self.new_node.0 - 1 {
                        return Err(
                            Error::NodeDepthMismatch {
                                node: self.new_node.1.clone(),
                                open_depth: self.new_node.0,
                                close_depth: self.current_depth,
                            },
                        );
                    }
                    if self.new_node.1.from.len() != 1 && self.new_node.1.to.len() != 1 {
                        return Err(Error::NodeFanMismatch { node: self.new_node.1.clone() });
                    }
                    let mut taken = (0usize, GrafcetNode::default());
                    std::mem::swap(&mut self.new_node, &mut taken);
                    self.nodes.record(taken.1);
                }
                self.current_depth = self.current_depth - 1;
            },
            _ => {},
        }
        self.nodes.all_ok();
        Ok(VisitProcessing::Continue(event))
    }
}

/// Whether a tag is that of a control node.
pub fn is_node_tag(tag: CurrentTag) -> (node: bool)
    ensures
        node == is_control_node(tag),
{
    match tag {
        CurrentTag::GrafcetNodeStep
        | CurrentTag::GrafcetTransition
        | CurrentTag::GrafcetOrFork
        | CurrentTag::GrafcetOrJunction => true,
        _ => false,
    }
}

/// A node that keeps the rule and is not a plain link, with one reference
/// in and one out, has exactly one reference on exactly one of its sides.
pub proof fn lemma_one_side_is_single(node: GrafcetNodeView)
    requires
        node.fan_ok(),
        !(node.from.len() == 1 && node.to.len() == 1),
    ensures
        (node.from.len() == 1) != (node.to.len() == 1),
{
}

/// The rule of the network is kept: whatever the event, the nodes completed
/// after it keep the rule if those before it did.
pub proof fn lemma_step_keeps_rule(state: GrafcetTracerView, event: EventView, current: CurrentTag)
    requires
        nodes_ok(state.nodes),
    ensures
        nodes_ok(state.step(event, current).0.nodes),
{
}

} // verus!
