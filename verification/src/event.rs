//! The events of a document, the visitors that a pipeline is made of, and
//! the tag in force from event to event.

use crate::error::Error;
use crate::error::ErrorView;
use crate::tag::classify;
use crate::tag::CurrentTag;
use crate::xml::attribute_bytes;
use crate::xml::end_local_name;
use crate::xml::local_part;
use crate::xml::push_attribute;
use crate::xml::start_local_name;
use vstd::prelude::*;
use vstd::slice::slice_to_vec;

verus! {

/// An opening tag as the tokenizer hands it out: the tag's content, a name
/// followed by its attributes, and the length of the name.
#[derive(Debug, PartialEq, Eq)]
pub struct StartTag {
    pub content: Vec<u8>,
    pub name_len: usize,
}

/// The mathematical content of a [`StartTag`].
pub struct StartTagView {
    pub content: Seq<u8>,
    pub name_len: nat,
}

impl StartTagView {
    /// The tag's name: the first `name_len` bytes of the content, or all of
    /// it where it is shorter than that.
    pub open spec fn name(self) -> Seq<u8> {
        if self.name_len <= self.content.len() {
            self.content.take(self.name_len as int)
        } else {
            self.content
        }
    }

    /// The tag with one more attribute at its end.
    pub open spec fn with_attribute(self, key: Seq<u8>, value: Seq<u8>) -> StartTagView {
        StartTagView { content: self.content + attribute_bytes(key, value), name_len: self.name_len }
    }
}

impl View for StartTag {
    type V = StartTagView;

    open spec fn view(&self) -> StartTagView {
        StartTagView { content: self.content@, name_len: self.name_len as nat }
    }
}

impl Clone for StartTag {
    fn clone(&self) -> (copy: Self)
        ensures
            copy@ == self@,
    {
        StartTag { content: slice_to_vec(self.content.as_slice()), name_len: self.name_len }
    }
}

impl StartTag {
    /// An opening tag that holds a name and no attribute.
    pub fn named(name: &[u8]) -> (tag: StartTag)
        ensures
            tag@.content == name@,
            tag@.name_len == name@.len(),
            tag@.name() == name@,
    {
        StartTag { content: slice_to_vec(name), name_len: name.len() }
    }

    /// The name without its namespace prefix.
    pub fn local_name(&self) -> (local: Vec<u8>)
        ensures
            local@ == local_part(self@.name()),
    {
        if self.name_len <= self.content.len() {
            start_local_name(self.content.as_slice(), self.name_len)
        } else {
            proof {
                assert(self.content@.take(self.content@.len() as int) =~= self.content@);
            }
            start_local_name(self.content.as_slice(), self.content.len())
        }
    }

    /// Adds the attribute `key="value"` behind those that the tag has. Key
    /// and value are written as they are.
    pub fn push_attribute(&mut self, key: &[u8], value: &[u8])
        ensures
            final(self)@ == old(self)@.with_attribute(key@, value@),
    {
        let mut content: Vec<u8> = Vec::new();
        std::mem::swap(&mut content, &mut self.content);
        self.content = push_attribute(content, self.name_len, key, value);
    }
}

/// One token of a document, in document order.
#[derive(Debug, PartialEq, Eq)]
pub enum Event {
    /// An element opens.
    Start(StartTag),
    /// An element closes; the field is its full name.
    End(Vec<u8>),
    /// An element without content.
    Empty(StartTag),
    /// Character data, escaped as in the document.
    Text(Vec<u8>),
    /// A comment.
    Comment(Vec<u8>),
    /// A section of character data that is not parsed.
    CData(Vec<u8>),
    /// The declaration at the head of the document.
    Decl(Vec<u8>),
    /// A processing instruction.
    PI(Vec<u8>),
    /// The declaration of the document type.
    DocType(Vec<u8>),
    /// The document has ended.
    Eof,
}

/// The mathematical content of an [`Event`].
pub enum EventView {
    Start(StartTagView),
    End(Seq<u8>),
    Empty(StartTagView),
    Text(Seq<u8>),
    Comment(Seq<u8>),
    CData(Seq<u8>),
    Decl(Seq<u8>),
    PI(Seq<u8>),
    DocType(Seq<u8>),
    Eof,
}

impl View for Event {
    type V = EventView;

    open spec fn view(&self) -> EventView {
        match *self {
            Event::Start(tag) => EventView::Start(tag@),
            Event::End(name) => EventView::End(name@),
            Event::Empty(tag) => EventView::Empty(tag@),
            Event::Text(text) => EventView::Text(text@),
            Event::Comment(text) => EventView::Comment(text@),
            Event::CData(text) => EventView::CData(text@),
            Event::Decl(text) => EventView::Decl(text@),
            Event::PI(text) => EventView::PI(text@),
            Event::DocType(text) => EventView::DocType(text@),
            Event::Eof => EventView::Eof,
        }
    }
}

impl DeepView for Event {
    type V = EventView;

    open spec fn deep_view(&self) -> EventView {
        self@
    }
}

impl Clone for Event {
    fn clone(&self) -> (copy: Self)
        ensures
            copy@ == self@,
    {
        match self {
            Event::Start(tag) => Event::Start(tag.clone()),
            Event::End(name) => Event::End(slice_to_vec(name.as_slice())),
            Event::Empty(tag) => Event::Empty(tag.clone()),
            Event::Text(text) => Event::Text(slice_to_vec(text.as_slice())),
            Event::Comment(text) => Event::Comment(slice_to_vec(text.as_slice())),
            Event::CData(text) => Event::CData(slice_to_vec(text.as_slice())),
            Event::Decl(text) => Event::Decl(slice_to_vec(text.as_slice())),
            Event::PI(text) => Event::PI(slice_to_vec(text.as_slice())),
            Event::DocType(text) => Event::DocType(slice_to_vec(text.as_slice())),
            Event::Eof => Event::Eof,
        }
    }
}

/// What a visitor tells the driver about an event.
#[derive(Debug, PartialEq, Eq)]
pub enum VisitProcessing {
    /// Hand the event, as it now is, to the next visitor.
    Continue(Event),
    /// Drop the event: no later visitor sees it, the driver goes on with the
    /// next event of the document.
    NextNode,
}

/// The mathematical content of a [`VisitProcessing`].
pub enum VisitProcessingView {
    Continue(EventView),
    NextNode,
}

impl View for VisitProcessing {
    type V = VisitProcessingView;

    open spec fn view(&self) -> VisitProcessingView {
        match *self {
            VisitProcessing::Continue(event) => VisitProcessingView::Continue(event@),
            VisitProcessing::NextNode => VisitProcessingView::NextNode,
        }
    }
}

/// What a visit answers: what is to become of the event, or why the pass is
/// abandoned.
pub type VisitResult = Result<VisitProcessing, Error>;

/// The mathematical content of a [`VisitResult`].
pub open spec fn visit_view(res: VisitResult) -> Result<VisitProcessingView, ErrorView> {
    match res {
        Ok(processing) => Ok(processing@),
        Err(error) => Err(error@),
    }
}

/// A stage of a pipeline. The driver calls `visit` once for each event that
/// reaches the stage, in document order, with the tag that holds for it.
pub trait XmlNodeVisitor {
    /// Takes one event, with the tag in force, and answers what is to become
    /// of it: `Continue` with the event, changed or not, for the stage behind;
    /// `NextNode` to keep the event from every stage behind; or an error that
    /// ends the pass.
    fn visit(&mut self, event: Event, current: CurrentTag) -> (res: VisitResult);
}

/// The tag that holds while an event is visited, given the tag carried over
/// from the event before it: an opening or a closing tag gives its own
/// classification, any other event leaves the tag as it was.
pub open spec fn tag_during(event: EventView, carried: CurrentTag) -> CurrentTag {
    match event {
        EventView::Start(tag) => classify(local_part(tag.name())),
        EventView::End(name) => classify(local_part(name)),
        _ => carried,
    }
}

/// The tag carried over to the next event: nothing after a closing tag, else
/// the tag that held during the event.
pub open spec fn tag_after(event: EventView, carried: CurrentTag) -> CurrentTag {
    match event {
        EventView::End(_) => CurrentTag::NoTag,
        _ => tag_during(event, carried),
    }
}

impl Event {
    /// The tag that holds while this event is visited.
    pub fn current_tag(&self, carried: CurrentTag) -> (current: CurrentTag)
        ensures
            current == tag_during(self@, carried),
    {
        match self {
            Event::Start(tag) => {
                let local = tag.local_name();
                CurrentTag::from(local.as_slice())
            },
            Event::End(name) => {
                let local = end_local_name(name.as_slice());
                CurrentTag::from(local.as_slice())
            },
            _ => carried,
        }
    }

    /// The tag to carry over to the event that follows this one, given the
    /// tag that was carried over to this one.
    pub fn tag_to_carry(&self, carried: CurrentTag) -> (next: CurrentTag)
        ensures
            next == tag_after(self@, carried),
    {
        match self {
            Event::End(_) => CurrentTag::NoTag,
            _ => self.current_tag(carried),
        }
    }

    /// Whether this event ends the document.
    pub fn is_eof(&self) -> (eof: bool)
        ensures
            eof == (self@ is Eof),
    {
        match self {
            Event::Eof => true,
            _ => false,
        }
    }
}

} // verus!
