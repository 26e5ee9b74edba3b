//! The two passes over whole documents, and what a pass over a document
//! is: the events are visited in their order under the tag that holds for
//! each, up to the end of the document or to the first failure.

use crate::error::Error;
use crate::error::ErrorView;
use crate::event::tag_after;
use crate::event::tag_during;
use crate::event::Event;
use crate::event::EventView;
use crate::event::VisitProcessingView;
use crate::event::XmlNodeVisitor;
use crate::pipeline::Action;
use crate::pipeline::CollectionPass;
use crate::pipeline::CollectionView;
use crate::pipeline::Driver;
use crate::pipeline::TransformPass;
use crate::pipeline::TransformView;
use crate::tag::CurrentTag;
use vstd::prelude::*;

verus! {

/// How far a pass over a document has come.
pub enum Status {
    /// The pass takes further events.
    Running,
    /// The pass has met the end of the document.
    Finished,
    /// The pass was abandoned.
    Failed(ErrorView),
}

/// A pass at some place of a document.
#[verifier::ext_equal]
pub struct Run<S> {
    /// What the pipeline holds.
    pub state: S,
    /// The tag carried over to the next event.
    pub carried: CurrentTag,
    /// The events handed on by the pipeline so far, in their order.
    pub output: Seq<EventView>,
    /// Whether the pass still runs.
    pub status: Status,
}

/// A pass that runs, after one more event: the pipeline visits the event
/// under the tag that holds during it. Where the pipeline fails the pass has
/// failed. Else the event that it hands on, if it hands one on, goes behind
/// the output, the tag for the next event is taken up, and the pass has
/// finished if the event was the end of the document.
pub open spec fn advance<S>(
    step: spec_fn(S, EventView, CurrentTag) -> (S, Result<VisitProcessingView, ErrorView>),
    run: Run<S>,
    event: EventView,
) -> Run<S> {
    let (state, answer) = step(run.state, event, tag_during(event, run.carried));
    match answer {
        Err(error) => Run { state, status: Status::Failed(error), ..run },
        Ok(processing) => Run {
            state,
            carried: tag_after(event, run.carried),
            output: match processing {
                VisitProcessingView::Continue(passed) => run.output.push(passed),
                VisitProcessingView::NextNode => run.output,
            },
            status: if event is Eof {
                Status::Finished
            } else {
                Status::Running
            },
        },
    }
}

/// A pass over the events of a document from a given state of the pipeline:
/// the events are visited in their order, up to the first that ends the
/// document or makes the pass fail. What follows that event is not looked at.
pub open spec fn pass_over<S>(
    step: spec_fn(S, EventView, CurrentTag) -> (S, Result<VisitProcessingView, ErrorView>),
    start: S,
    events: Seq<EventView>,
) -> Run<S>
    decreases events.len(),
{
    if events.len() == 0 {
        Run {
            state: start,
            carried: CurrentTag::NoTag,
            output: Seq::empty(),
            status: Status::Running,
        }
    } else {
        let before = pass_over(step, start, events.drop_last());
        if before.status is Running {
            advance(step, before, events.last())
        } else {
            before
        }
    }
}

/// A pass that has stopped stays where it stopped, whatever follows.
pub proof fn lemma_pass_stops<S>(
    step: spec_fn(S, EventView, CurrentTag) -> (S, Result<VisitProcessingView, ErrorView>),
    start: S,
    events: Seq<EventView>,
    seen: int,
)
    requires
        0 <= seen <= events.len(),
        !(pass_over(step, start, events.take(seen)).status is Running),
    ensures
        pass_over(step, start, events) == pass_over(step, start, events.take(seen)),
    decreases events.len(),
{
    if seen == events.len() {
        assert(events.take(seen) =~= events);
    } else {
        assert(events.drop_last().take(seen) =~= events.take(seen));
        lemma_pass_stops(step, start, events.drop_last(), seen);
    }
}

/// The collection pass over a document, from its start.
pub open spec fn collection_run(events: Seq<EventView>) -> Run<CollectionView> {
    pass_over(
        |state: CollectionView, event: EventView, current: CurrentTag| state.step(event, current),
        CollectionView::initial(),
        events,
    )
}

/// What the collection pass collects from a document, or why it fails.
pub open spec fn collected(events: Seq<EventView>) -> Result<CollectionView, ErrorView> {
    match collection_run(events).status {
        Status::Failed(error) => Err(error),
        _ => Ok(collection_run(events).state),
    }
}

/// The transform pass over a document, from its start, with what the
/// collection pass has collected.
pub open spec fn transform_run(tables: CollectionView, events: Seq<EventView>) -> Run<
    TransformView,
> {
    pass_over(
        |state: TransformView, event: EventView, current: CurrentTag| state.step(event, current),
        TransformView::initial(tables),
        events,
    )
}

/// The events that the transform pass hands on to be written, or why it
/// fails.
pub open spec fn transformed(tables: CollectionView, events: Seq<EventView>) -> Result<
    Seq<EventView>,
    ErrorView,
> {
    match transform_run(tables, events).status {
        Status::Failed(error) => Err(error),
        _ => Ok(transform_run(tables, events).output),
    }
}

/// Two runs of the transform pass over the same document with the same
/// tables end alike. Each run answers what `transformed` says of the content
/// of document and tables, which is what [`transform`] states of it, so the
/// two cannot differ, neither in an event nor in an error.
pub proof fn lemma_transform_deterministic(
    tables: CollectionView,
    events: Seq<EventView>,
    first: Result<Seq<EventView>, ErrorView>,
    second: Result<Seq<EventView>, ErrorView>,
)
    requires
        first == transformed(tables, events),
        second == transformed(tables, events),
    ensures
        first == second,
{
}

/// The document in its form for comparison: what the transform pass makes
/// of it with what the collection pass has collected from it.
pub open spec fn converted(events: Seq<EventView>) -> Result<Seq<EventView>, ErrorView> {
    match collected(events) {
        Ok(tables) => transformed(tables, events),
        Err(error) => Err(error),
    }
}

/// Runs the collection pass over a document.
pub fn collect(events: &[Event]) -> (res: Result<CollectionPass, Error>)
    ensures
        match res {
            Ok(tables) => collected(events.deep_view()) == Ok::<CollectionView, ErrorView>(
                tables@,
            ),
            Err(error) => collected(events.deep_view()) == Err::<CollectionView, ErrorView>(
                error@,
            ),
        },
{
    let ghost step = |state: CollectionView, event: EventView, current: CurrentTag|
        state.step(event, current);
    let ghost all = events.deep_view();
    let ghost mut output: Seq<EventView> = Seq::empty();
    let mut pass = CollectionPass::new();
    let mut driver = Driver::new();
    let count = events.len();
    let mut i: usize = 0;
    proof {
        assert(all.take(0) =~= Seq::<EventView>::empty());
    }
    while i < count
        invariant
            count == events@.len(),
            i <= count,
            all == events.deep_view(),
            step == |state: CollectionView, event: EventView, current: CurrentTag|
                state.step(event, current),
            pass_over(step, CollectionView::initial(), all.take(i as int)) == (Run {
                state: pass@,
                carried: driver@,
                output,
                status: Status::Running,
            }),
        decreases count - i,
    {
        proof {
            assert(all.take(i + 1).drop_last() =~= all.take(i as int));
            assert(all.take(i + 1).last() == events[i as int]@);
        }
        let current = driver.tag_for(&events[i]);
        let answer = pass.visit(events[i].clone(), current);
        match driver.finish(&events[i], answer) {
            Ok(handled) => {
                proof {
                    output = match handled.passed {
                        Some(passed) => output.push(passed@),
                        None => output,
                    };
                }
                i = i + 1;
                match handled.action {
                    Action::Stop => {
                        proof {
                            lemma_pass_stops(step, CollectionView::initial(), all, i as int);
                        }
                        return Ok(pass);
                    },
                    Action::ReadNext => {},
                }
            },
            Err(error) => {
                proof {
                    lemma_pass_stops(step, CollectionView::initial(), all, i + 1);
                }
                return Err(error);
            },
        }
    }
    proof {
        assert(all.take(count as int) =~= all);
    }
    Ok(pass)
}

/// Runs the transform pass over a document, with what the collection pass
/// has collected, and gives the events to be written. The answer depends on
/// nothing but the content of the document and of the tables: two runs over
/// the same content give the same events or the same error.
pub fn transform(events: &[Event], tables: &CollectionPass) -> (res: Result<Vec<Event>, Error>)
    ensures
        match res {
            Ok(written) => transformed(tables@, events.deep_view()) == Ok::<
                Seq<EventView>,
                ErrorView,
            >(written.deep_view()),
            Err(error) => transformed(tables@, events.deep_view()) == Err::<
                Seq<EventView>,
                ErrorView,
            >(error@),
        },
{
    let ghost step = |state: TransformView, event: EventView, current: CurrentTag|
        state.step(event, current);
    let ghost all = events.deep_view();
    let ghost start = TransformView::initial(tables@);
    let mut written: Vec<Event> = Vec::new();
    let mut pass = TransformPass::new(tables);
    let mut driver = Driver::new();
    let count = events.len();
    let mut i: usize = 0;
    proof {
        assert(all.take(0) =~= Seq::<EventView>::empty());
        assert(written.deep_view() =~= Seq::<EventView>::empty());
    }
    while i < count
        invariant
            count == events@.len(),
            i <= count,
            all == events.deep_view(),
            start == TransformView::initial(tables@),
            step == |state: TransformView, event: EventView, current: CurrentTag|
                state.step(event, current),
            pass_over(step, start, all.take(i as int)) == (Run {
                state: pass@,
                carried: driver@,
                output: written.deep_view(),
                status: Status::Running,
            }),
        decreases count - i,
    {
        proof {
            assert(all.take(i + 1).drop_last() =~= all.take(i as int));
            assert(all.take(i + 1).last() == events[i as int]@);
        }
        let current = driver.tag_for(&events[i]);
        let answer = pass.visit(events[i].clone(), current);
        match driver.finish(&events[i], answer) {
            Ok(handled) => {
                match handled.passed {
                    Some(passed) => {
                        let ghost before = written.deep_view();
                        written.push(passed);
                        proof {
                            assert(written.deep_view() =~= before.push(passed@));
                        }
                    },
                    None => {},
                }
                i = i + 1;
                match handled.action {
                    Action::Stop => {
                        proof {
                            lemma_pass_stops(step, start, all, i as int);
                        }
                        return Ok(written);
                    },
                    Action::ReadNext => {},
                }
            },
            Err(error) => {
                proof {
                    lemma_pass_stops(step, start, all, i + 1);
                }
                return Err(error);
            },
        }
    }
    proof {
        assert(all.take(count as int) =~= all);
    }
    Ok(written)
}

/// Brings a document into its form for comparison: the collection pass
/// runs over it, then the transform pass with what was collected.
pub fn convert(events: &[Event]) -> (res: Result<Vec<Event>, Error>)
    ensures
        match res {
            Ok(written) => converted(events.deep_view()) == Ok::<Seq<EventView>, ErrorView>(
                written.deep_view(),
            ),
            Err(error) => converted(events.deep_view()) == Err::<Seq<EventView>, ErrorView>(
                error@,
            ),
        },
{
    match collect(events) {
        Ok(tables) => transform(events, &tables),
        Err(error) => Err(error),
    }
}

} // verus!
