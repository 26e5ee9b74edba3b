//! The elider: the stage that leaves out what lies inside marked blocks.

use crate::error::ErrorView;
use crate::event::visit_view;
use crate::event::Event;
use crate::event::EventView;
use crate::event::VisitProcessing;
use crate::event::VisitProcessingView;
use crate::event::VisitResult;
use crate::event::XmlNodeVisitor;
use crate::tag::CurrentTag;
use vstd::prelude::*;

verus! {

/// What the elider holds: the tag that marks a block whose content is left
/// out, and whether the document is inside such a block.
pub struct SkipTagView {
    pub skipping: bool,
    pub tag: CurrentTag,
}

impl SkipTagView {
    /// The state after one more event, and what the visit answers.
    ///
    /// The opening tag of a marked block begins the skipping and its closing
    /// tag ends it; both are handed on, so the block itself stays in the
    /// document, empty. While the elider skips, every event that the marked
    /// tag does not hold for is dropped: the subtrees under the block go,
    /// opening tag, content and closing tag.
    pub open spec fn step(self, event: EventView, current: CurrentTag) -> (
        SkipTagView,
        Result<VisitProcessingView, ErrorView>,
    ) {
        if current != self.tag && self.skipping {
            (self, Ok(VisitProcessingView::NextNode))
        } else if current == self.tag {
            let skipping = match event {
                EventView::Start(_) => true,
                EventView::End(_) => false,
                _ => self.skipping,
            };
            (SkipTagView { skipping, ..self }, Ok(VisitProcessingView::Continue(event)))
        } else {
            (self, Ok(VisitProcessingView::Continue(event)))
        }
    }
}

/// Leaves out of a document what lies inside the blocks of one tag.
#[derive(Debug)]
pub struct SkipTag {
    skipping: bool,
    tag: CurrentTag,
}

impl View for SkipTag {
    type V = SkipTagView;

    closed spec fn view(&self) -> SkipTagView {
        SkipTagView { skipping: self.skipping, tag: self.tag }
    }
}

impl SkipTag {
    /// An elider for the blocks of the given tag, outside any of them.
    pub fn new(tag: CurrentTag) -> (elider: Self)
        ensures
            elider@ == (SkipTagView { skipping: false, tag }),
    {
        SkipTag { skipping: false, tag }
    }

    /// Whether the document is inside a marked block.
    pub fn is_skipping(&self) -> (skipping: bool)
        ensures
            skipping == self@.skipping,
    {
        self.skipping
    }
}

impl XmlNodeVisitor for SkipTag {
    fn visit(&mut self, event: Event, current: CurrentTag) -> (res: VisitResult)
        ensures
            (final(self)@, visit_view(res)) == old(self)@.step(event@, current),
    {
        if current != self.tag && self.skipping {
            return Ok(VisitProcessing::NextNode);
        }
        if current == self.tag {
            match &event {
                Event::Start(_) => {
                    self.skipping = true;
                },
                Event::End(_) => {
                    self.skipping = false;
                },
                _ => {},
            }
        }
        Ok(VisitProcessing::Continue(event))
    }
}

} // verus!
