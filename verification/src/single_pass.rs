//! A conversion in one pass for documents that need no annotations.

use crate::error::Error;
use crate::error::ErrorView;
use crate::event::tag_during;
use crate::event::Event;
use crate::event::EventView;
use crate::intern::decimal_digits;
use crate::intern::intern;
use crate::intern::interned_text;
use crate::intern::GuidMap;
use crate::io_names::IoNames;
use crate::io_names::SymbolEntries;
use crate::normalize::normalized;
use crate::normalize::NormalizeInstructionLine;
use crate::tag::CurrentTag;
use crate::xml::EQUALS;
use vstd::prelude::*;

verus! {

/// What is to be done with an event that the single pass was fed.
#[derive(Debug, PartialEq, Eq)]
pub enum Fed {
    /// Write this event.
    Write(Event),
    /// Write nothing for the event.
    Skip,
    /// The document has ended: write nothing and fetch nothing more.
    Stop,
}

/// The mathematical content of a [`Fed`].
pub enum FedView {
    Write(EventView),
    Skip,
    Stop,
}

impl View for Fed {
    type V = FedView;

    open spec fn view(&self) -> FedView {
        match *self {
            Fed::Write(event) => FedView::Write(event@),
            Fed::Skip => FedView::Skip,
            Fed::Stop => FedView::Stop,
        }
    }
}

/// The mathematical content of what feeding an event answers.
pub open spec fn fed_view(res: Result<Fed, Error>) -> Result<FedView, ErrorView> {
    match res {
        Ok(fed) => Ok(fed@),
        Err(error) => Err(error@),
    }
}

/// What the single pass holds while it follows a document.
#[verifier::ext_equal]
pub struct SinglePassView {
    /// The tag in force.
    pub current: CurrentTag,
    /// The identifiers met so far.
    pub table: Seq<Seq<u8>>,
    /// Whether the document is inside a ladder diagram.
    pub skipping: bool,
}

impl SinglePassView {
    /// The state before the first event.
    pub open spec fn initial() -> SinglePassView {
        SinglePassView { current: CurrentTag::NoTag, table: Seq::empty(), skipping: false }
    }

    /// The state after one more event, and what is to be done with the
    /// event.
    ///
    /// Outside a ladder diagram an opening tag sets the tag in force and is
    /// written; that of a ladder diagram begins the skipping. A closing tag
    /// clears the tag in force; it is written unless the pass skips, and that
    /// of a ladder diagram ends the skipping and is written. A text outside a
    /// ladder diagram is written: as the number of the identifier it holds
    /// under an `Id`, `To` or `From` tag, in normal form under an
    /// `InstructionLine` tag, else as it came. Any other event is written
    /// outside a ladder diagram. The end of the document stops the pass.
    pub open spec fn step(self, event: EventView) -> (SinglePassView, Result<FedView, ErrorView>) {
        match event {
            EventView::Eof => (self, Ok(FedView::Stop)),
            EventView::End(_) => {
                let closes = tag_during(event, self.current);
                let cleared = SinglePassView { current: CurrentTag::NoTag, ..self };
                if !self.skipping {
                    (cleared, Ok(FedView::Write(event)))
                } else if closes == CurrentTag::LadderElements {
                    (SinglePassView { skipping: false, ..cleared }, Ok(FedView::Write(event)))
                } else {
                    (cleared, Ok(FedView::Skip))
                }
            },
            _ => if self.skipping {
                (self, Ok(FedView::Skip))
            } else {
                match event {
                    EventView::Start(_) => {
                        let current = tag_during(event, self.current);
                        (
                            SinglePassView {
                                current,
                                skipping: current == CurrentTag::LadderElements,
                                ..self
                            },
                            Ok(FedView::Write(event)),
                        )
                    },
                    EventView::Text(text) => {
                        if self.current == CurrentTag::Id || self.current == CurrentTag::To
                            || self.current == CurrentTag::From {
                            let (table, number) = intern(self.table, text);
                            match number {
                                Ok(n) => (
                                    SinglePassView { table, ..self },
                                    Ok(FedView::Write(EventView::Text(interned_text(n)))),
                                ),
                                Err(error) => (SinglePassView { table, ..self }, Err(error)),
                            }
                        } else if self.current == CurrentTag::InstructionLine {
                            (
                                self,
                                Ok(
                                    FedView::Write(
                                        EventView::Text(normalized(SymbolEntries::empty(), text)),
                                    ),
                                ),
                            )
                        } else {
                            (self, Ok(FedView::Write(event)))
                        }
                    },
                    _ => (self, Ok(FedView::Write(event))),
                }
            },
        }
    }
}

/// A plain conversion in one pass, which needs nothing from an earlier pass:
/// numbers for identifiers, instruction lines in normal form, no content in
/// ladder diagrams.
pub struct SinglePass {
    current_tag: CurrentTag,
    id_map: GuidMap,
    skipping: bool,
}

impl View for SinglePass {
    type V = SinglePassView;

    closed spec fn view(&self) -> SinglePassView {
        SinglePassView { current: self.current_tag, table: self.id_map@, skipping: self.skipping }
    }
}

impl SinglePass {
    /// A pass before the first event.
    pub fn new() -> (pass: Self)
        ensures
            pass@ == SinglePassView::initial(),
    {
        SinglePass { current_tag: CurrentTag::NoTag, id_map: GuidMap::new(), skipping: false }
    }

    /// Takes the next event of the document and says what is to be written
    /// for it.
    pub fn feed(&mut self, event: Event) -> (res: Result<Fed, Error>)
        ensures
            (final(self)@, fed_view(res)) == old(self)@.step(event@),
    {
        match event {
            Event::Eof => Ok(Fed::Stop),
            Event::End(name) => {
                let event = Event::End(name);
                let closes = event.current_tag(self.current_tag);
                self.current_tag = CurrentTag::NoTag;
                if self.skipping {
                    if closes == CurrentTag::LadderElements {
                        self.skipping = false;
                    } else {
                        return Ok(Fed::Skip);
                    }
                }
                Ok(Fed::Write(event))
            },
            other => {
                if self.skipping {
                    return Ok(Fed::Skip);
                }
                match other {
                    Event::Start(tag) => {
                        let event = Event::Start(tag);
                        self.current_tag = event.current_tag(self.current_tag);
                        if self.current_tag == CurrentTag::LadderElements {
                            self.skipping = true;
                        }
                        Ok(Fed::Write(event))
                    },
                    Event::Text(txt) => {
                        match self.current_tag {
                            CurrentTag::Id | CurrentTag::To | CurrentTag::From => {
                                match self.id_map.get_or_insert(txt.as_slice()) {
                                    Ok(number) => {
                                        let mut text: Vec<u8> = Vec::new();
                                        text.push(EQUALS);
                                        text.push(EQUALS);
                                        let mut digits = decimal_digits(number);
                                        text.append(&mut digits);
                                        text.push(EQUALS);
                                        text.push(EQUALS);
                                        assert(text@ =~= interned_text(number));
                                        Ok(Fed::Write(Event::Text(text)))
                                    },
                                    Err(error) => Err(error),
                                }
                            },
                            CurrentTag::InstructionLine => {
                                let no_symbols = IoNames::new();
                                let normalizer = NormalizeInstructionLine::new(&no_symbols);
                                let new = normalizer.normalize_text(txt.as_slice());
                                Ok(Fed::Write(Event::Text(new)))
                            },
                            _ => Ok(Fed::Write(Event::Text(txt))),
                        }
                    },
                    unchanged => Ok(Fed::Write(unchanged)),
                }
            },
        }
    }
}

} // verus!
