//! The symbols of input and output addresses, collected from the pairs of
//! address and symbol in a document.

use crate::arrays::name_array;
use crate::arrays::name_bytes;
use crate::arrays::name_slice;
use crate::bytes::bytes_eq;
use crate::error::Error;
use crate::error::ErrorView;
use crate::event::visit_view;
use crate::event::Event;
use crate::event::EventView;
use crate::event::VisitProcessing;
use crate::event::VisitProcessingView;
use crate::event::VisitResult;
use crate::event::XmlNodeVisitor;
use crate::tag::CurrentTag;
use arrayvec::ArrayVec;
use vstd::pervasive::unreached;
use vstd::prelude::*;
use vstd::slice::slice_to_vec;

verus! {

/// The greatest length of an address or of a symbol, in bytes.
pub const NAME_LEN: usize = 30;

/// An address or a symbol: a text of at most 30 bytes.
#[derive(Debug)]
pub struct IoName(ArrayVec<u8, 30>);

impl View for IoName {
    type V = Seq<u8>;

    closed spec fn view(&self) -> Seq<u8> {
        name_bytes(self.0)
    }
}

impl DeepView for IoName {
    type V = Seq<u8>;

    open spec fn deep_view(&self) -> Seq<u8> {
        self@
    }
}

impl IoName {
    /// The name made of the given bytes, if they are not too many.
    pub fn try_from(bytes: &[u8]) -> (res: Result<IoName, Error>)
        ensures
            match res {
                Ok(name) => bytes@.len() <= NAME_LEN && name@ == bytes@,
                Err(error) => bytes@.len() > NAME_LEN && error@ == (ErrorView::NameTooLong {
                    text: bytes@,
                }),
            },
    {
        match name_array(bytes) {
            Ok(array) => Ok(IoName(array)),
            Err(_) => Err(Error::NameTooLong { text: slice_to_vec(bytes) }),
        }
    }

    /// The name's bytes.
    pub fn as_ref(&self) -> (bytes: &[u8])
        ensures
            bytes@ == self@,
            bytes@.len() <= NAME_LEN,
    {
        name_slice(&self.0)
    }
}

impl Default for IoName {
    fn default() -> (name: Self)
        ensures
            name@ == Seq::<u8>::empty(),
    {
        let nothing: Vec<u8> = Vec::new();
        match name_array(nothing.as_slice()) {
            Ok(array) => IoName(array),
            Err(_) => unreached(),
        }
    }
}

/// Symbols by address, in the order in which they were noted.
pub type SymbolEntries = Seq<(Seq<u8>, Seq<u8>)>;

/// The addresses of the entries, in their order.
pub open spec fn addresses(entries: SymbolEntries) -> Seq<Seq<u8>> {
    entries.map_values(|entry: (Seq<u8>, Seq<u8>)| entry.0)
}

/// The symbol of an address: the one noted last for it, or nothing where
/// none was.
pub open spec fn symbol_of(entries: SymbolEntries, address: Seq<u8>) -> Option<Seq<u8>> {
    match addresses(entries).index_of_last(address) {
        Some(i) => Some(entries[i].1),
        None => None,
    }
}

/// What the collector of symbols holds while it follows a document.
#[verifier::ext_equal]
pub struct IoNamesView {
    /// The symbols noted so far.
    pub names: SymbolEntries,
    /// The address that waits for its symbol, with the depth at which it was
    /// seen.
    pub pending: Option<(usize, Seq<u8>)>,
    /// The number of elements that are open.
    pub depth: usize,
}

impl IoNamesView {
    /// The state before the first event.
    pub open spec fn initial() -> IoNamesView {
        IoNamesView { names: Seq::empty(), pending: None, depth: 0 }
    }

    /// The address under which the next symbol is noted: the one that waits,
    /// or the empty address where none does.
    pub open spec fn pending_address(self) -> Seq<u8> {
        match self.pending {
            Some((_, address)) => address,
            None => Seq::empty(),
        }
    }

    /// The state after one more event, and what the visit answers.
    ///
    /// The text of an `Address` element waits, with the current depth, for a
    /// symbol. The text of a `Symbol` element is noted under the address that
    /// waits, which then waits no more. An opening tag adds one to the depth
    /// and a closing tag takes one off; an address seen more than two levels
    /// further in than where the closing tag leaves the document is given up.
    /// Every event is handed on as it came.
    pub open spec fn step(self, event: EventView, current: CurrentTag) -> (
        IoNamesView,
        Result<VisitProcessingView, ErrorView>,
    ) {
        let handed_on = Ok::<VisitProcessingView, ErrorView>(VisitProcessingView::Continue(event));
        match event {
            EventView::Start(_) => {
                if self.depth >= usize::MAX {
                    (self, Err(ErrorView::CounterOverflow))
                } else {
                    (IoNamesView { depth: (self.depth + 1) as usize, ..self }, handed_on)
                }
            },
            EventView::End(_) => {
                if self.depth == 0 {
                    (self, Err(ErrorView::UnbalancedClose { name: event->End_0 }))
                } else {
                    let depth = (self.depth - 1) as usize;
                    let pending = match self.pending {
                        Some((seen_at, _)) if depth + 2 < seen_at => None,
                        _ => self.pending,
                    };
                    (IoNamesView { pending, depth, ..self }, handed_on)
                }
            },
            EventView::Text(text) => {
                if current == CurrentTag::Address {
                    if text.len() > NAME_LEN {
                        (self, Err(ErrorView::NameTooLong { text }))
                    } else {
                        (IoNamesView { pending: Some((self.depth, text)), ..self }, handed_on)
                    }
                } else if current == CurrentTag::Symbol {
                    if text.len() > NAME_LEN {
                        (self, Err(ErrorView::NameTooLong { text }))
                    } else {
                        (
                            IoNamesView {
                                names: self.names.push((self.pending_address(), text)),
                                pending: None,
                                ..self
                            },
                            handed_on,
                        )
                    }
                } else {
                    (self, handed_on)
                }
            },
            _ => (self, handed_on),
        }
    }
}

/// Collects the symbols that a document gives to its input and output
/// addresses.
#[derive(Debug)]
pub struct IoNames {
    names: Vec<(IoName, IoName)>,
    new_address: Option<(usize, IoName)>,
    depth: usize,
}

impl View for IoNames {
    type V = IoNamesView;

    closed spec fn view(&self) -> IoNamesView {
        IoNamesView {
            names: self.names.deep_view(),
            pending: match self.new_address {
                Some((seen_at, address)) => Some((seen_at, address@)),
                None => None,
            },
            depth: self.depth,
        }
    }
}

impl Default for IoNames {
    fn default() -> (names: Self)
        ensures
            names@ == IoNamesView::initial(),
    {
        IoNames::new()
    }
}

impl IoNames {
    /// A collector that has seen nothing.
    pub fn new() -> (names: Self)
        ensures
            names@ == IoNamesView::initial(),
    {
        let names = IoNames { names: Vec::new(), new_address: None, depth: 0 };
        assert(names.names.deep_view() =~= SymbolEntries::empty());
        names
    }

    /// The symbol noted for an address.
    pub fn get_symbol(&self, address: &[u8]) -> (found: Option<&[u8]>)
        ensures
            match found {
                Some(symbol) => symbol_of(self@.names, address@) == Some(symbol@),
                None => symbol_of(self@.names, address@) is None,
            },
    {
        let ghost known = addresses(self@.names);
        proof {
            known.index_of_last_ensures(address@);
        }
        let mut i: usize = self.names.len();
        while i > 0
            invariant
                i <= self.names@.len(),
                known == addresses(self@.names),
                known.len() == self.names@.len(),
                forall|j: int| i <= j < known.len() ==> known[j] != address@,
            decreases i,
        {
            i = i - 1;
            if bytes_eq(self.names[i].0.as_ref(), address) {
                proof {
                    assert(known[i as int] == address@);
                    assert(known.contains(address@));
                    known.index_of_last_ensures(address@);
                }
                return Some(self.names[i].1.as_ref());
            }
        }
        None
    }
}

impl XmlNodeVisitor for IoNames {
    fn visit(&mut self, event: Event, current: CurrentTag) -> (res: VisitResult)
        ensures
            (final(self)@, visit_view(res)) == old(self)@.step(event@, current),
    {
        match &event {
            Event::Start(_) => {
                if self.depth == usize::MAX {
                    return Err(Error::CounterOverflow);
                }
                self.depth = self.depth + 1;
            },
            Event::End(name) => {
                if self.depth == 0 {
                    return Err(Error::UnbalancedClose { name: slice_to_vec(name.as_slice()) });
                }
                self.depth = self.depth - 1;
                let given_up = match &self.new_address {
                    Some((seen_at, _)) => *seen_at >= 2 && self.depth < *seen_at - 2,
                    None => false,
                };
                if given_up {
                    self.new_address = None;
                }
            },
            Event::Text(text) => {
                match current {
                    CurrentTag::Address => {
                        match IoName::try_from(text.as_slice()) {
                            Ok(address) => {
                                self.new_address = Some((self.depth, address));
                            },
                            Err(error) => {
                                return Err(error);
                            },
                        }
                    },
                    CurrentTag::Symbol => {
                        match IoName::try_from(text.as_slice()) {
                            Ok(symbol) => {
                                let mut waiting: Option<(usize, IoName)> = None;
                                std::mem::swap(&mut waiting, &mut self.new_address);
                                let address = match waiting {
                                    Some((_, address)) => address,
                                    None => IoName::default(),
                                };
                                let ghost before = self.names.deep_view();
                                let ghost entry = (address@, symbol@);
                                self.names.push((address, symbol));
                                assert(self.names.deep_view() =~= before.push(entry));
                            },
                            Err(error) => {
                                return Err(error);
                            },
                        }
                    },
                    _ => {},
                }
            },
            _ => {},
        }
        Ok(VisitProcessing::Continue(event))
    }
}

} // verus!
