//! The driver that threads events through visitors, and the two pipelines
//! of this library, each a visitor made of its stages.

use crate::annotate::DiffHeader;
use crate::annotate::DiffHeaderView;
use crate::error::Error;
use crate::error::ErrorView;
use crate::event::tag_after;
use crate::event::tag_during;
use crate::event::visit_view;
use crate::event::Event;
use crate::event::EventView;
use crate::event::VisitProcessing;
use crate::event::VisitProcessingView;
use crate::event::VisitResult;
use crate::event::XmlNodeVisitor;
use crate::grafcet::nodes_ok;
use crate::grafcet::GrafcetTracer;
use crate::grafcet::GrafcetTracerView;
use crate::intern::intern_step;
use crate::intern::GuidVisitor;
use crate::io_names::IoNames;
use crate::io_names::IoNamesView;
use crate::name_tracker::NameTracker;
use crate::name_tracker::NameTrackerView;
use crate::names::stack_sorted;
use crate::normalize::NormalizeInstructionLine;
use crate::normalize::NormalizeView;
use crate::skip::SkipTag;
use crate::skip::SkipTagView;
use crate::tag::CurrentTag;
use vstd::prelude::*;

verus! {

/// What the driver of a pipeline does after an event.
#[derive(Copy, Clone, Debug, PartialEq, Eq, Structural)]
pub enum Action {
    /// Fetch the next event of the document.
    ReadNext,
    /// The document has ended.
    Stop,
}

/// What the driver does after an event: stop at the end of the document,
/// else fetch the next event.
pub open spec fn action_after(event: EventView) -> Action {
    if event is Eof {
        Action::Stop
    } else {
        Action::ReadNext
    }
}

/// How the handling of one event ended.
#[derive(Debug, PartialEq, Eq)]
pub struct Handled {
    /// What to do next.
    pub action: Action,
    /// The event as the last visitor handed it on, or nothing where a
    /// visitor dropped it.
    pub passed: Option<Event>,
}

/// Threads the events of one document through a pipeline of visitors and
/// keeps the tag that holds between two events.
#[derive(Debug)]
pub struct Driver {
    current_tag: CurrentTag,
}

impl View for Driver {
    type V = CurrentTag;

    closed spec fn view(&self) -> CurrentTag {
        self.current_tag
    }
}

impl Driver {
    /// A driver before the first event, with no tag in force.
    pub fn new() -> (driver: Self)
        ensures
            driver@ == CurrentTag::NoTag,
    {
        Driver { current_tag: CurrentTag::NoTag }
    }

    /// The tag carried over to the next event.
    pub fn current_tag(&self) -> (tag: CurrentTag)
        ensures
            tag == self@,
    {
        self.current_tag
    }

    /// The tag that every visitor is to see for the event that comes next.
    pub fn tag_for(&self, event: &Event) -> (current: CurrentTag)
        ensures
            current == tag_during(event@, self@),
    {
        event.current_tag(self.current_tag)
    }

    /// Ends the handling of an event, given the event as it came and what
    /// the visitors answered to it. An error is handed up as it is and leaves
    /// the driver as it was. Else the driver takes up the tag for the next
    /// event, hands up the event that the visitors handed on, if any, and
    /// says whether the document has ended.
    pub fn finish(&mut self, raw: &Event, answer: VisitResult) -> (res: Result<Handled, Error>)
        ensures
            match answer {
                Ok(processing) => final(self)@ == tag_after(raw@, old(self)@) && res == Ok::<
                    Handled,
                    Error,
                >(
                    Handled {
                        action: action_after(raw@),
                        passed: match processing {
                            VisitProcessing::Continue(event) => Some(event),
                            VisitProcessing::NextNode => None,
                        },
                    },
                ),
                Err(error) => final(self)@ == old(self)@ && res == Err::<Handled, Error>(error),
            },
    {
        match answer {
            Ok(processing) => {
                self.current_tag = raw.tag_to_carry(self.current_tag);
                let action = if raw.is_eof() {
                    Action::Stop
                } else {
                    Action::ReadNext
                };
                let passed = match processing {
                    VisitProcessing::Continue(event) => Some(event),
                    VisitProcessing::NextNode => None,
                };
                Ok(Handled { action, passed })
            },
            Err(error) => Err(error),
        }
    }

    /// Handles one event: the visitors get it, in their order, under the
    /// tag that holds during the event, as [`relay`] hands it down; then the
    /// driver takes up the tag for the next event, as [`Driver::finish`]
    /// says. What the visitors do to the event and to themselves is theirs to
    /// state, so of the outcome only this much holds whatever they are.
    pub fn process(&mut self, visitors: &mut [&mut dyn XmlNodeVisitor], event: Event) -> (res:
        Result<Action, Error>)
        ensures
            final(visitors)@.len() == old(visitors)@.len(),
            old(visitors)@.len() == 0 ==> res is Ok,
            match res {
                Ok(action) => final(self)@ == tag_after(event@, old(self)@) && action
                    == action_after(event@),
                Err(_) => final(self)@ == old(self)@,
            },
    {
        let current = self.tag_for(&event);
        let raw = event.clone();
        let answer = relay(visitors, event, current);
        match self.finish(&raw, answer) {
            Ok(handled) => Ok(handled.action),
            Err(error) => Err(error),
        }
    }
}

/// Hands an event down a row of visitors, each with the same tag. The first
/// visitor gets the event as it came, each further one the event that the
/// visitor before it handed on. A visitor that drops the event or fails is
/// the last to be called, and its answer is the answer of the row; else the
/// answer is that of the last visitor. A row without visitors hands the
/// event on as it came.
pub fn relay(visitors: &mut [&mut dyn XmlNodeVisitor], event: Event, current: CurrentTag) -> (answer:
    VisitResult)
    ensures
        final(visitors)@.len() == old(visitors)@.len(),
        old(visitors)@.len() == 0 ==> answer == Ok::<VisitProcessing, Error>(
            VisitProcessing::Continue(event),
        ),
{
    let count = visitors.len();
    let mut passed = event;
    let mut i: usize = 0;
    while i < count
        invariant
            count == visitors@.len(),
            count == old(visitors)@.len(),
            i <= count,
            i == 0 ==> passed == event,
        decreases count - i,
    {
        match visitors[i].visit(passed, current) {
            Ok(VisitProcessing::Continue(changed)) => {
                passed = changed;
            },
            Ok(VisitProcessing::NextNode) => {
                return Ok(VisitProcessing::NextNode);
            },
            Err(error) => {
                return Err(error);
            },
        }
        i = i + 1;
    }
    Ok(VisitProcessing::Continue(passed))
}

/// Threads a whole document through the visitors: its events are handled
/// one by one, in their order, by a driver that starts with no tag in force,
/// up to the event that ends the document or to the first error. What
/// follows the end of the document is not handled.
///
/// Whether the pass fails, and what becomes of the visitors, is decided by
/// the visitors alone, each event by [`Driver::process`]. Success is owed
/// where no visitor has a say: on a row without visitors, and on a document
/// without events, for which no visitor is called.
pub fn process_file(events: &[Event], visitors: &mut [&mut dyn XmlNodeVisitor]) -> (res: Result<
    (),
    Error,
>)
    ensures
        final(visitors)@.len() == old(visitors)@.len(),
        old(visitors)@.len() == 0 ==> res is Ok,
        events@.len() == 0 ==> res is Ok,
{
    let mut driver = Driver::new();
    let count = events.len();
    let mut i: usize = 0;
    while i < count
        invariant
            count == events@.len(),
            i <= count,
            visitors@.len() == old(visitors)@.len(),
        decreases count - i,
    {
        match driver.process(visitors, events[i].clone()) {
            Ok(Action::Stop) => {
                return Ok(());
            },
            Ok(Action::ReadNext) => {},
            Err(error) => {
                return Err(error);
            },
        }
        i = i + 1;
    }
    Ok(())
}

/// What one stage answers, carried into the next stage: an event that the
/// stage before hands on is given to `next`; where the stage before dropped
/// the event or failed, the next stage stays as it is and so does the answer.
pub open spec fn chained<S>(
    before: Result<VisitProcessingView, ErrorView>,
    state: S,
    next: spec_fn(EventView) -> (S, Result<VisitProcessingView, ErrorView>),
) -> (S, Result<VisitProcessingView, ErrorView>) {
    match before {
        Ok(VisitProcessingView::Continue(event)) => next(event),
        _ => (state, before),
    }
}

/// What the collection pass holds while it follows a document.
#[verifier::ext_equal]
pub struct CollectionView {
    pub symbols: IoNamesView,
    pub names: NameTrackerView,
    pub network: GrafcetTracerView,
}

impl CollectionView {
    /// The state before the first event.
    pub open spec fn initial() -> CollectionView {
        CollectionView {
            symbols: IoNamesView::initial(),
            names: NameTrackerView::initial(),
            network: GrafcetTracerView::initial(),
        }
    }

    /// The state after one more event, and what the visit answers: the
    /// event goes to the collector of symbols, then to the tracker of names,
    /// then to the builder of the network. The first of them that fails ends
    /// the pass.
    pub open spec fn step(self, event: EventView, current: CurrentTag) -> (
        CollectionView,
        Result<VisitProcessingView, ErrorView>,
    ) {
        let (symbols, first) = self.symbols.step(event, current);
        let (names, second) = chained(
            first,
            self.names,
            |passed: EventView| self.names.step(passed, current),
        );
        let (network, third) = chained(
            second,
            self.network,
            |passed: EventView| self.network.step(passed, current),
        );
        (CollectionView { symbols, names, network }, third)
    }
}

/// The first pass over a document: it changes nothing and collects what the
/// second pass cannot know while it writes, the symbols of the addresses, the
/// names and paths, and the network of control nodes.
#[derive(Debug)]
pub struct CollectionPass {
    ionames: IoNames,
    name_tracker: NameTracker,
    grafcet_tracer: GrafcetTracer,
}

impl View for CollectionPass {
    type V = CollectionView;

    closed spec fn view(&self) -> CollectionView {
        CollectionView {
            symbols: self.ionames@,
            names: self.name_tracker@,
            network: self.grafcet_tracer@,
        }
    }
}

impl CollectionPass {
    /// A pass before the first event.
    pub fn new() -> (pass: Self)
        ensures
            pass@ == CollectionView::initial(),
    {
        CollectionPass {
            ionames: IoNames::new(),
            name_tracker: NameTracker::default(),
            grafcet_tracer: GrafcetTracer::default(),
        }
    }

    /// The symbols collected.
    pub fn ionames(&self) -> (names: &IoNames)
        ensures
            names@ == self@.symbols,
    {
        &self.ionames
    }

    /// The names and paths collected.
    pub fn name_tracker(&self) -> (tracker: &NameTracker)
        ensures
            tracker@ == self@.names,
    {
        &self.name_tracker
    }

    /// The network of control nodes collected.
    pub fn grafcet_tracer(&self) -> (tracer: &GrafcetTracer)
        ensures
            tracer@ == self@.network,
    {
        &self.grafcet_tracer
    }
}

impl XmlNodeVisitor for CollectionPass {
    fn visit(&mut self, event: Event, current: CurrentTag) -> (res: VisitResult)
        ensures
            (final(self)@, visit_view(res)) == old(self)@.step(event@, current),
            stack_sorted(final(self)@.names.names),
            nodes_ok(final(self)@.network.nodes),
    {
        self.name_tracker.sorted();
        self.grafcet_tracer.all_ok();
        let event = match self.ionames.visit(event, current) {
            Ok(VisitProcessing::Continue(passed)) => passed,
            Ok(VisitProcessing::NextNode) => {
                return Ok(VisitProcessing::NextNode);
            },
            Err(error) => {
                return Err(error);
            },
        };
        let event = match self.name_tracker.visit(event, current) {
            Ok(VisitProcessing::Continue(passed)) => passed,
            Ok(VisitProcessing::NextNode) => {
                return Ok(VisitProcessing::NextNode);
            },
            Err(error) => {
                return Err(error);
            },
        };
        self.grafcet_tracer.visit(event, current)
    }
}

/// What the transform pass holds while it follows a document.
#[verifier::ext_equal]
pub struct TransformView {
    pub elider: SkipTagView,
    pub interner: Seq<Seq<u8>>,
    pub annotator: DiffHeaderView,
    pub normalizer: NormalizeView,
}

impl TransformView {
    /// The state before the first event, over what the collection pass has
    /// collected: the elider is set on the ladder diagrams, no identifier has
    /// a number, no block and no node has been opened.
    pub open spec fn initial(tables: CollectionView) -> TransformView {
        TransformView {
            elider: SkipTagView { skipping: false, tag: CurrentTag::LadderElements },
            interner: Seq::empty(),
            annotator: DiffHeaderView {
                rungs: tables.names.rungs,
                names: tables.names.ids,
                nodes: tables.network.nodes,
                count: 0,
                next_rung: 0,
            },
            normalizer: NormalizeView {
                in_entity: false,
                text: Seq::empty(),
                symbols: tables.symbols.names,
            },
        }
    }

    /// The state after one more event, and what the visit answers: the
    /// event goes to the elider, then to the interner of identifiers, then to
    /// the annotator, then to the normalizer of instruction lines, each of
    /// which may change it. A stage that drops the event or fails keeps it
    /// from the stages behind it. What the last stage hands on is what the
    /// pass hands on, to be written.
    pub open spec fn step(self, event: EventView, current: CurrentTag) -> (
        TransformView,
        Result<VisitProcessingView, ErrorView>,
    ) {
        let (elider, first) = self.elider.step(event, current);
        let (interner, second) = chained(
            first,
            self.interner,
            |passed: EventView| intern_step(self.interner, passed, current),
        );
        let (annotator, third) = chained(
            second,
            self.annotator,
            |passed: EventView| self.annotator.step(passed, current),
        );
        let (normalizer, fourth) = chained(
            third,
            self.normalizer,
            |passed: EventView| self.normalizer.step(passed, current),
        );
        (TransformView { elider, interner, annotator, normalizer }, fourth)
    }
}

/// The second pass over a document: it leaves out the ladder diagrams, puts
/// numbers in place of identifiers, writes the annotations and brings the
/// instruction lines to normal form.
pub struct TransformPass<'a> {
    tag_skipper: SkipTag,
    guid_map: GuidVisitor,
    diff_headers: DiffHeader<'a>,
    inst_line_mangle: NormalizeInstructionLine<'a>,
}

impl<'a> View for TransformPass<'a> {
    type V = TransformView;

    closed spec fn view(&self) -> TransformView {
        TransformView {
            elider: self.tag_skipper@,
            interner: self.guid_map@,
            annotator: self.diff_headers@,
            normalizer: self.inst_line_mangle@,
        }
    }
}

impl<'a> TransformPass<'a> {
    /// A pass before the first event, over what the collection pass has
    /// collected.
    pub fn new(tables: &'a CollectionPass) -> (pass: Self)
        ensures
            pass@ == TransformView::initial(tables@),
    {
        TransformPass {
            tag_skipper: SkipTag::new(CurrentTag::LadderElements),
            guid_map: GuidVisitor::new(),
            diff_headers: DiffHeader::new(&tables.name_tracker, &tables.grafcet_tracer),
            inst_line_mangle: NormalizeInstructionLine::new(&tables.ionames),
        }
    }
}

impl<'a> XmlNodeVisitor for TransformPass<'a> {
    fn visit(&mut self, event: Event, current: CurrentTag) -> (res: VisitResult)
        ensures
            (final(self)@, visit_view(res)) == old(self)@.step(event@, current),
    {
        let event = match self.tag_skipper.visit(event, current) {
            Ok(VisitProcessing::Continue(passed)) => passed,
            Ok(VisitProcessing::NextNode) => {
                return Ok(VisitProcessing::NextNode);
            },
            Err(error) => {
                return Err(error);
            },
        };
        let event = match self.guid_map.visit(event, current) {
            Ok(VisitProcessing::Continue(passed)) => passed,
            Ok(VisitProcessing::NextNode) => {
                return Ok(VisitProcessing::NextNode);
            },
            Err(error) => {
                return Err(error);
            },
        };
        let event = match self.diff_headers.visit(event, current) {
            Ok(VisitProcessing::Continue(passed)) => passed,
            Ok(VisitProcessing::NextNode) => {
                return Ok(VisitProcessing::NextNode);
            },
            Err(error) => {
                return Err(error);
            },
        };
        self.inst_line_mangle.visit(event, current)
    }
}

} // verus!
