//! The tracker of names: the stage of the collection pass that follows the
//! names in force and notes a record for every logic block and a display
//! name for every step and transition.

use crate::bytes::bytes_eq;
use crate::error::Error;
use crate::error::ErrorView;
use crate::event::visit_view;
use crate::event::Event;
use crate::event::EventView;
use crate::event::VisitProcessing;
use crate::event::VisitProcessingView;
use crate::event::VisitResult;
use crate::event::XmlNodeVisitor;
use crate::guid::Guid;
use crate::guid::GUID_LEN;
use crate::names::breadcrumb;
use crate::names::first_deeper;
use crate::names::kept_below;
use crate::names::latest;
use crate::names::pushed;
use crate::names::stack_sorted;
use crate::names::NameStack;
use crate::names::Names;
use crate::tag::CurrentTag;
use crate::text::utf8_string;
use vstd::prelude::*;
use vstd::slice::slice_to_vec;
use vstd::string::*;
use vstd::utf8::*;

verus! {

/// What was noted when a logic block closed: the path of names that leads to
/// the block, and the comment met since the block before it.
#[derive(Debug, PartialEq, Eq)]
pub struct Rung {
    pub name: Vec<u8>,
    pub main_comment: Vec<u8>,
}

/// The mathematical content of a [`Rung`].
#[verifier::ext_equal]
pub struct RungView {
    pub name: Seq<u8>,
    pub main_comment: Seq<u8>,
}

impl View for Rung {
    type V = RungView;

    open spec fn view(&self) -> RungView {
        RungView { name: self.name@, main_comment: self.main_comment@ }
    }
}

impl DeepView for Rung {
    type V = RungView;

    open spec fn deep_view(&self) -> RungView {
        self@
    }
}

/// Display names by identifier, in the order in which they were noted.
pub type NameEntries = Seq<(Seq<u8>, Seq<char>)>;

/// The identifiers of the entries, in their order.
pub open spec fn entry_ids(entries: NameEntries) -> Seq<Seq<u8>> {
    entries.map_values(|entry: (Seq<u8>, Seq<char>)| entry.0)
}

/// The display name of an identifier: the one noted last for it, or nothing
/// where none was.
pub open spec fn name_of(entries: NameEntries, id: Seq<u8>) -> Option<Seq<char>> {
    match entry_ids(entries).index_of_last(id) {
        Some(i) => Some(entries[i].1),
        None => None,
    }
}

/// The display names of the control nodes of a document.
#[derive(Debug)]
pub struct NameTable {
    entries: Vec<(Guid, String)>,
}

impl View for NameTable {
    type V = NameEntries;

    closed spec fn view(&self) -> NameEntries {
        self.entries.deep_view()
    }
}

impl NameTable {
    /// A table without names.
    pub fn new() -> (table: Self)
        ensures
            table@ == NameEntries::empty(),
    {
        let table = NameTable { entries: Vec::new() };
        assert(table.entries.deep_view() =~= NameEntries::empty());
        table
    }

    /// Notes a display name for an identifier. A name noted before for the
    /// same identifier no longer counts.
    pub fn insert(&mut self, id: Guid, name: String)
        ensures
            final(self)@ == old(self)@.push((id@, name@)),
    {
        let ghost before = self.entries.deep_view();
        self.entries.push((id, name));
        assert(self.entries.deep_view() =~= before.push((id@, name@)));
    }

    /// The display name of an identifier.
    pub fn find(&self, id: &[u8]) -> (found: Option<&str>)
        ensures
            match found {
                Some(name) => name_of(self@, id@) == Some(name@),
                None => name_of(self@, id@) is None,
            },
    {
        let ghost ids = entry_ids(self@);
        proof {
            ids.index_of_last_ensures(id@);
        }
        let mut i: usize = self.entries.len();
        while i > 0
            invariant
                i <= self.entries@.len(),
                ids == entry_ids(self@),
                ids.len() == self.entries@.len(),
                forall|j: int| i <= j < ids.len() ==> ids[j] != id@,
            decreases i,
        {
            i = i - 1;
            if bytes_eq(self.entries[i].0.as_ref(), id) {
                proof {
                    assert(ids[i as int] == id@);
                    assert(ids.contains(id@));
                    ids.index_of_last_ensures(id@);
                }
                return Some(self.entries[i].1.as_str());
            }
        }
        None
    }
}

/// What the tracker of names holds while it follows a document.
#[verifier::ext_equal]
pub struct NameTrackerView {
    /// One record for each logic block that has closed, in document order.
    pub rungs: Seq<RungView>,
    /// The display names of the steps and transitions that have closed.
    pub ids: NameEntries,
    /// The names in force.
    pub names: Names,
    /// The comment met since the last logic block closed.
    pub comment: Seq<u8>,
    /// The identifier met last.
    pub id: Seq<u8>,
    /// The number of elements that are open.
    pub depth: usize,
}

impl NameTrackerView {
    /// The state before the first event.
    pub open spec fn initial() -> NameTrackerView {
        NameTrackerView {
            rungs: Seq::empty(),
            ids: Seq::empty(),
            names: Seq::empty(),
            comment: Seq::empty(),
            id: Seq::empty(),
            depth: 0,
        }
    }

    /// The state after one more event, and what the visit answers.
    ///
    /// The text of an `Id` element is kept as the identifier met last, that
    /// of a `MainComment` element as the comment. The text of a `Name`
    /// element, read as UTF-8, goes onto the stack of names at the current
    /// depth, in place of what stood there or deeper. An opening tag adds one
    /// to the depth and a closing tag takes one off. Before that, the closing
    /// tag of a logic block notes a record of the path of names and the
    /// comment, and forgets the comment; that of a step gives the identifier
    /// the first name that lies deeper than the step itself; that of a
    /// transition gives the identifier the name at the top of the stack, and
    /// then takes from the stack what lies as deep as the transition or
    /// deeper. Every event is handed on as it came.
    pub open spec fn step(self, event: EventView, current: CurrentTag) -> (
        NameTrackerView,
        Result<VisitProcessingView, ErrorView>,
    ) {
        let handed_on = Ok::<VisitProcessingView, ErrorView>(VisitProcessingView::Continue(event));
        match event {
            EventView::Text(text) => {
                if current == CurrentTag::Id {
                    if text.len() > GUID_LEN {
                        (self, Err(ErrorView::IdentifierTooLong { text }))
                    } else {
                        (NameTrackerView { id: text, ..self }, handed_on)
                    }
                } else if current == CurrentTag::MainComment {
                    (NameTrackerView { comment: text, ..self }, handed_on)
                } else if current == CurrentTag::Name {
                    if !valid_utf8(text) {
                        (self, Err(ErrorView::NameNotUtf8 { text }))
                    } else {
                        (
                            NameTrackerView {
                                names: pushed(self.names, self.depth, decode_utf8(text)),
                                ..self
                            },
                            handed_on,
                        )
                    }
                } else {
                    (self, handed_on)
                }
            },
            EventView::Start(_) => {
                if self.depth >= usize::MAX {
                    (self, Err(ErrorView::CounterOverflow))
                } else {
                    (NameTrackerView { depth: (self.depth + 1) as usize, ..self }, handed_on)
                }
            },
            EventView::End(_) => {
                if self.depth == 0 {
                    (self, Err(ErrorView::UnbalancedClose { name: event->End_0 }))
                } else {
                    let depth = (self.depth - 1) as usize;
                    if current == CurrentTag::RungEntity {
                        (
                            NameTrackerView {
                                rungs: self.rungs.push(
                                    RungView {
                                        name: encode_utf8(breadcrumb(self.names)),
                                        main_comment: self.comment,
                                    },
                                ),
                                comment: Seq::empty(),
                                depth,
                                ..self
                            },
                            handed_on,
                        )
                    } else if current == CurrentTag::GrafcetNodeStep {
                        (
                            NameTrackerView {
                                ids: self.ids.push((self.id, first_deeper(self.names, self.depth))),
                                depth,
                                ..self
                            },
                            handed_on,
                        )
                    } else if current == CurrentTag::GrafcetTransition {
                        (
                            NameTrackerView {
                                ids: self.ids.push((self.id, latest(self.names))),
                                names: kept_below(self.names, self.depth),
                                depth,
                                ..self
                            },
                            handed_on,
                        )
                    } else {
                        (NameTrackerView { depth, ..self }, handed_on)
                    }
                }
            },
            _ => (self, handed_on),
        }
    }
}

/// Follows the names of a document: which names are in force at each place,
/// which path leads to each logic block, and what each step and transition
/// is called.
#[derive(Debug)]
pub struct NameTracker {
    rungs: Vec<Rung>,
    ids: NameTable,
    names: NameStack,
    new_comment: Vec<u8>,
    new_id: Guid,
    depth: usize,
}

impl View for NameTracker {
    type V = NameTrackerView;

    closed spec fn view(&self) -> NameTrackerView {
        NameTrackerView {
            rungs: self.rungs.deep_view(),
            ids: self.ids@,
            names: self.names@,
            comment: self.new_comment@,
            id: self.new_id@,
            depth: self.depth,
        }
    }
}

impl Default for NameTracker {
    fn default() -> (tracker: Self)
        ensures
            tracker@ == NameTrackerView::initial(),
    {
        let tracker = NameTracker {
            rungs: Vec::new(),
            ids: NameTable::new(),
            names: NameStack::new(),
            new_comment: Vec::new(),
            new_id: Guid::default(),
            depth: 0,
        };
        assert(tracker.rungs.deep_view() =~= Seq::<RungView>::empty());
        tracker
    }
}

impl NameTracker {
    /// States what holds of the names of every tracker.
    pub fn sorted(&self)
        ensures
            stack_sorted(self@.names),
    {
        self.names.sorted();
    }

    /// The path of names that leads to the current place, as bytes.
    pub fn mk_rung_name(&self) -> (name: Vec<u8>)
        ensures
            name@ == encode_utf8(breadcrumb(self@.names)),
    {
        let path = self.names.breadcrumb();
        path.as_str().as_bytes_vec()
    }

    /// The name at the top of the stack, or the empty name.
    pub fn latest_name(&self) -> (name: String)
        ensures
            name@ == latest(self@.names),
    {
        self.names.latest()
    }

    /// Takes from the stack the names that lie as deep as the current place
    /// or deeper.
    pub fn remove_old_names(&mut self)
        ensures
            final(self)@ == (NameTrackerView {
                names: kept_below(old(self)@.names, old(self)@.depth),
                ..old(self)@
            }),
    {
        self.names.discard_from(self.depth);
    }

    /// The number of records of logic blocks.
    pub fn rung_count(&self) -> (count: usize)
        ensures
            count == self@.rungs.len(),
    {
        self.rungs.len()
    }

    /// The record of the logic block that closed as number `index`, from
    /// zero.
    pub fn rung(&self, index: usize) -> (rung: Option<&Rung>)
        ensures
            match rung {
                Some(r) => index < self@.rungs.len() <= usize::MAX && r@ == self@.rungs[index as int],
                None => index >= self@.rungs.len(),
            },
    {
        if index < self.rungs.len() {
            Some(&self.rungs[index])
        } else {
            None
        }
    }

    /// The display name noted for an identifier.
    pub fn display_name(&self, id: &[u8]) -> (found: Option<&str>)
        ensures
            match found {
                Some(name) => name_of(self@.ids, id@) == Some(name@),
                None => name_of(self@.ids, id@) is None,
            },
    {
        self.ids.find(id)
    }
}

impl XmlNodeVisitor for NameTracker {
    fn visit(&mut self, event: Event, current: CurrentTag) -> (res: VisitResult)
        ensures
            (final(self)@, visit_view(res)) == old(self)@.step(event@, current),
            stack_sorted(final(self)@.names),
    {
        match &event {
            Event::Text(text) => {
                match current {
                    CurrentTag::Id => {
                        match Guid::try_from(text.as_slice()) {
                            Ok(id) => {
                                self.new_id = id;
                            },
                            Err(error) => {
                                self.names.sorted();
                                return Err(error);
                            },
                        }
                    },
                    CurrentTag::MainComment => {
                        self.new_comment = slice_to_vec(text.as_slice());
                    },
                    CurrentTag::Name => {
                        match utf8_string(text.as_slice()) {
                            Some(name) => {
                                self.names.push_name(self.depth, name);
                            },
                            None => {
                                self.names.sorted();
                                return Err(
                                    Error::NameNotUtf8 { text: slice_to_vec(text.as_slice()) },
                                );
                            },
                        }
                    },
                    _ => {},
                }
            },
            Event::Start(_) => {
                if self.depth == usize::MAX {
                    self.names.sorted();
                    return Err(Error::CounterOverflow);
                }
                self.depth = self.depth + 1;
            },
            Event::End(name) => {
                if self.depth == 0 {
                    self.names.sorted();
                    return Err(Error::UnbalancedClose { name: slice_to_vec(name.as_slice()) });
                }
                match current {
                    CurrentTag::RungEntity => {
                        let mut main_comment: Vec<u8> = Vec::new();
                        std::mem::swap(&mut main_comment, &mut self.new_comment);
                        let name = self.mk_rung_name();
                        let ghost before = self.rungs.deep_view();
                        let rung = Rung { name, main_comment };
                        self.rungs.push(rung);
                        assert(self.rungs.deep_view() =~= before.push(rung@));
                    },
                    CurrentTag::GrafcetNodeStep => {
                        let name = self.names.first_deeper(self.depth);
                        self.ids.insert(self.new_id.clone(), name);
                    },
                    CurrentTag::GrafcetTransition => {
                        let name = self.latest_name();
                        self.ids.insert(self.new_id.clone(), name);
                        self.remove_old_names();
                    },
                    _ => {},
                }
                self.depth = self.depth - 1;
            },
            _ => {},
        }
        self.names.sorted();
        Ok(VisitProcessing::Continue(event))
    }
}

/// The stack of names stays sorted: whatever the event, the depths of the
/// stack after it grow from bottom to top if those before it did.
pub proof fn lemma_step_keeps_sorted(state: NameTrackerView, event: EventView, current: CurrentTag)
    requires
        stack_sorted(state.names),
    ensures
        stack_sorted(state.step(event, current).0.names),
{
    crate::names::lemma_kept_below(state.names, state.depth);
}

} // verus!
