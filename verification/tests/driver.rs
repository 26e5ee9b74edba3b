use plc_diff::error::Error;
use plc_diff::event::{Event, StartTag, VisitProcessing, VisitResult, XmlNodeVisitor};
use plc_diff::pipeline::{relay, Action, Driver, Handled};
use plc_diff::process_file;
use plc_diff::skip::SkipTag;
use plc_diff::tag::CurrentTag;

fn open(name: &str) -> Event {
    Event::Start(StartTag::named(name.as_bytes()))
}

fn close(name: &str) -> Event {
    Event::End(name.as_bytes().to_vec())
}

fn text(content: &str) -> Event {
    Event::Text(content.as_bytes().to_vec())
}

struct NodeCounter(usize);

impl XmlNodeVisitor for NodeCounter {
    fn visit(&mut self, event: Event, _curr: CurrentTag) -> VisitResult {
        self.0 += 1;
        Ok(VisitProcessing::Continue(event))
    }
}

struct Recorder(Vec<(Event, CurrentTag)>);

impl XmlNodeVisitor for Recorder {
    fn visit(&mut self, event: Event, current: CurrentTag) -> VisitResult {
        self.0.push((event.clone(), current));
        Ok(VisitProcessing::Continue(event))
    }
}

struct DropTexts;

impl XmlNodeVisitor for DropTexts {
    fn visit(&mut self, event: Event, _current: CurrentTag) -> VisitResult {
        match event {
            Event::Text(_) => Ok(VisitProcessing::NextNode),
            other => Ok(VisitProcessing::Continue(other)),
        }
    }
}

struct Rename;

impl XmlNodeVisitor for Rename {
    fn visit(&mut self, event: Event, _current: CurrentTag) -> VisitResult {
        match event {
            Event::Start(_) => Ok(VisitProcessing::Continue(open("Symbol"))),
            other => Ok(VisitProcessing::Continue(other)),
        }
    }
}

struct FailOnComment;

impl XmlNodeVisitor for FailOnComment {
    fn visit(&mut self, event: Event, _current: CurrentTag) -> VisitResult {
        match event {
            Event::Comment(_) => Err(Error::Visitor { reason: "no comments".to_string() }),
            other => Ok(VisitProcessing::Continue(other)),
        }
    }
}

fn small_document() -> Vec<Event> {
    vec![
        Event::Decl(b"xml version=\"1.0\"".to_vec()),
        open("Project"),
        text("\n  "),
        open("p:Name"),
        text("Proj"),
        close("p:Name"),
        text("\n"),
        Event::Empty(StartTag::named(b"Address")),
        close("Project"),
        Event::Eof,
    ]
}

#[test]
fn test_xml_visitor() {
    let mut counter = NodeCounter(0);

    process_file(
        &small_document(),
        &mut [
            // Node visitors
            &mut counter,
        ],
    )
    .unwrap();

    println!("Total xml nodes processed: {}", counter.0);
    assert_eq!(counter.0, 10);
}

#[test]
fn a_whole_document_is_threaded_up_to_its_end() {
    let mut document = small_document();
    document.push(open("after the end"));
    let mut recorder = Recorder(Vec::new());
    assert_eq!(process_file(&document, &mut [&mut recorder]), Ok(()));
    let events: Vec<Event> = recorder.0.into_iter().map(|(event, _)| event).collect();
    assert_eq!(events, small_document());
    assert_eq!(process_file(&document, &mut []), Ok(()));
    assert_eq!(process_file(&[], &mut []), Ok(()));
}

#[test]
fn a_whole_document_stops_at_the_first_error() {
    let mut counter = NodeCounter(0);
    let mut failing = FailOnComment;
    let document = vec![open("a"), Event::Comment(Vec::new()), close("a"), Event::Eof];
    assert_eq!(
        process_file(&document, &mut [&mut counter, &mut failing]),
        Err(Error::Visitor { reason: "no comments".to_string() })
    );
    assert_eq!(counter.0, 2);
}

#[test]
fn the_driver_says_when_to_stop() {
    let mut driver = Driver::new();
    let mut counter = NodeCounter(0);
    let events = small_document();
    let last = events.len() - 1;
    for (i, event) in events.into_iter().enumerate() {
        let action = driver.process(&mut [&mut counter], event).unwrap();
        assert_eq!(action, if i == last { Action::Stop } else { Action::ReadNext });
    }
}

#[test]
fn visitors_see_the_tag_of_the_innermost_open_element() {
    let mut recorder = Recorder(Vec::new());
    let mut driver = Driver::new();
    assert_eq!(driver.current_tag(), CurrentTag::NoTag);
    for event in small_document() {
        driver.process(&mut [&mut recorder], event).unwrap();
    }
    let tags: Vec<CurrentTag> = recorder.0.iter().map(|(_, tag)| *tag).collect();
    assert_eq!(
        tags,
        vec![
            CurrentTag::NoTag,
            CurrentTag::Other,
            CurrentTag::Other,
            CurrentTag::Name,
            CurrentTag::Name,
            CurrentTag::Name,
            CurrentTag::NoTag,
            CurrentTag::NoTag,
            CurrentTag::Other,
            CurrentTag::NoTag,
        ]
    );
    let events: Vec<Event> = recorder.0.into_iter().map(|(event, _)| event).collect();
    assert_eq!(events, small_document());
}

#[test]
fn every_visitor_of_one_event_sees_the_same_tag() {
    let mut first = Recorder(Vec::new());
    let mut rename = Rename;
    let mut second = Recorder(Vec::new());
    let mut driver = Driver::new();
    for event in small_document() {
        driver.process(&mut [&mut first, &mut rename, &mut second], event).unwrap();
    }
    assert_eq!(first.0.len(), second.0.len());
    for ((_, before), (_, after)) in first.0.iter().zip(second.0.iter()) {
        assert_eq!(before, after);
    }
    assert_eq!(second.0[1], (open("Symbol"), CurrentTag::Other));
    assert_eq!(second.0[3], (open("Symbol"), CurrentTag::Name));
    assert_eq!(driver.current_tag(), CurrentTag::NoTag);
}

#[test]
fn a_changed_event_reaches_the_visitors_behind() {
    let mut rename = Rename;
    let mut recorder = Recorder(Vec::new());
    let mut driver = Driver::new();
    driver.process(&mut [&mut rename, &mut recorder], open("Address")).unwrap();
    assert_eq!(recorder.0, vec![(open("Symbol"), CurrentTag::Address)]);
    assert_eq!(driver.current_tag(), CurrentTag::Address);
}

#[test]
fn a_dropped_event_reaches_no_visitor_behind() {
    let mut before = NodeCounter(0);
    let mut dropper = DropTexts;
    let mut after = NodeCounter(0);
    let mut driver = Driver::new();
    for event in small_document() {
        driver.process(&mut [&mut before, &mut dropper, &mut after], event).unwrap();
    }
    assert_eq!(before.0, 10);
    assert_eq!(after.0, 7);
}

#[test]
fn an_error_ends_the_pass() {
    let mut before = NodeCounter(0);
    let mut failing = FailOnComment;
    let mut after = NodeCounter(0);
    let mut driver = Driver::new();
    driver.process(&mut [&mut before, &mut failing, &mut after], open("Name")).unwrap();
    let res = driver.process(
        &mut [&mut before, &mut failing, &mut after],
        Event::Comment(b"c".to_vec()),
    );
    assert_eq!(res, Err(Error::Visitor { reason: "no comments".to_string() }));
    assert_eq!(before.0, 2);
    assert_eq!(after.0, 1);
    assert_eq!(driver.current_tag(), CurrentTag::Name);
}

#[test]
fn without_visitors_the_driver_still_follows_the_tags() {
    let mut driver = Driver::new();
    assert_eq!(driver.process(&mut [], open("Id")), Ok(Action::ReadNext));
    assert_eq!(driver.current_tag(), CurrentTag::Id);
    assert_eq!(driver.process(&mut [], text("x")), Ok(Action::ReadNext));
    assert_eq!(driver.current_tag(), CurrentTag::Id);
    assert_eq!(driver.process(&mut [], close("Id")), Ok(Action::ReadNext));
    assert_eq!(driver.current_tag(), CurrentTag::NoTag);
    assert_eq!(driver.process(&mut [], Event::Eof), Ok(Action::Stop));
}

#[test]
fn the_elider_keeps_the_block_and_drops_what_is_under_it() {
    let mut skip = SkipTag::new(CurrentTag::LadderElements);
    let mut recorder = Recorder(Vec::new());
    let mut driver = Driver::new();
    let events = vec![
        open("RungEntity"),
        open("LadderElements"),
        open("LadderEntity"),
        open("Name"),
        text("coil"),
        close("Name"),
        Event::Comment(b"inside".to_vec()),
        close("LadderEntity"),
        text("  "),
        close("LadderElements"),
        open("Name"),
        text("sibling"),
        close("Name"),
        close("RungEntity"),
    ];
    for event in events {
        driver.process(&mut [&mut skip, &mut recorder], event).unwrap();
    }
    let seen: Vec<Event> = recorder.0.into_iter().map(|(event, _)| event).collect();
    assert_eq!(
        seen,
        vec![
            open("RungEntity"),
            open("LadderElements"),
            close("LadderElements"),
            open("Name"),
            text("sibling"),
            close("Name"),
            close("RungEntity"),
        ]
    );
    assert!(!skip.is_skipping());
}

#[test]
fn the_elider_skips_between_the_tags_of_its_block() {
    let mut skip = SkipTag::new(CurrentTag::LadderElements);
    assert!(!skip.is_skipping());
    assert_eq!(
        skip.visit(open("LadderElements"), CurrentTag::LadderElements),
        Ok(VisitProcessing::Continue(open("LadderElements")))
    );
    assert!(skip.is_skipping());
    assert_eq!(
        skip.visit(text("lead"), CurrentTag::LadderElements),
        Ok(VisitProcessing::Continue(text("lead")))
    );
    assert_eq!(skip.visit(open("x"), CurrentTag::Other), Ok(VisitProcessing::NextNode));
    assert_eq!(skip.visit(Event::Eof, CurrentTag::NoTag), Ok(VisitProcessing::NextNode));
    assert!(skip.is_skipping());
    assert_eq!(
        skip.visit(close("LadderElements"), CurrentTag::LadderElements),
        Ok(VisitProcessing::Continue(close("LadderElements")))
    );
    assert!(!skip.is_skipping());
    assert_eq!(skip.visit(open("x"), CurrentTag::Other), Ok(VisitProcessing::Continue(open("x"))));
}

#[test]
fn an_elider_can_be_set_on_any_tag() {
    let mut skip = SkipTag::new(CurrentTag::RungEntity);
    assert_eq!(
        skip.visit(open("LadderElements"), CurrentTag::LadderElements),
        Ok(VisitProcessing::Continue(open("LadderElements")))
    );
    assert!(!skip.is_skipping());
    skip.visit(open("RungEntity"), CurrentTag::RungEntity).unwrap();
    assert!(skip.is_skipping());
}

#[test]
fn a_row_without_visitors_hands_the_event_on() {
    assert_eq!(
        relay(&mut [], text("as it came"), CurrentTag::Name),
        Ok(VisitProcessing::Continue(text("as it came")))
    );
}

#[test]
fn a_row_of_visitors_answers_as_its_last_visitor_called() {
    let mut rename = Rename;
    let mut counter = NodeCounter(0);
    assert_eq!(
        relay(&mut [&mut rename, &mut counter], open("Address"), CurrentTag::Address),
        Ok(VisitProcessing::Continue(open("Symbol")))
    );
    let mut dropper = DropTexts;
    assert_eq!(
        relay(&mut [&mut dropper, &mut counter], text("t"), CurrentTag::Name),
        Ok(VisitProcessing::NextNode)
    );
    let mut failing = FailOnComment;
    assert_eq!(
        relay(&mut [&mut counter, &mut failing, &mut rename], Event::Comment(Vec::new()), CurrentTag::NoTag),
        Err(Error::Visitor { reason: "no comments".to_string() })
    );
    assert_eq!(counter.0, 2);
}

#[test]
fn the_driver_names_the_tag_for_the_next_event() {
    let mut driver = Driver::new();
    assert_eq!(driver.tag_for(&open("Symbol")), CurrentTag::Symbol);
    assert_eq!(driver.tag_for(&text("x")), CurrentTag::NoTag);
    assert_eq!(driver.current_tag(), CurrentTag::NoTag);
    let handled = driver.finish(&open("Symbol"), Ok(VisitProcessing::NextNode));
    assert_eq!(handled, Ok(Handled { action: Action::ReadNext, passed: None }));
    assert_eq!(driver.tag_for(&text("x")), CurrentTag::Symbol);
    assert_eq!(driver.tag_for(&close("Name")), CurrentTag::Name);
}

#[test]
fn finishing_an_event_hands_up_what_the_visitors_answered() {
    let mut driver = Driver::new();
    let passed = driver.finish(&open("Id"), Ok(VisitProcessing::Continue(text("changed"))));
    assert_eq!(passed, Ok(Handled { action: Action::ReadNext, passed: Some(text("changed")) }));
    assert_eq!(driver.current_tag(), CurrentTag::Id);
    let failed = driver.finish(&close("Id"), Err(Error::CounterOverflow));
    assert_eq!(failed, Err(Error::CounterOverflow));
    assert_eq!(driver.current_tag(), CurrentTag::Id);
    let closed = driver.finish(&close("Id"), Ok(VisitProcessing::Continue(close("Id"))));
    assert_eq!(closed, Ok(Handled { action: Action::ReadNext, passed: Some(close("Id")) }));
    assert_eq!(driver.current_tag(), CurrentTag::NoTag);
    let ended = driver.finish(&Event::Eof, Ok(VisitProcessing::NextNode));
    assert_eq!(ended, Ok(Handled { action: Action::Stop, passed: None }));
}

#[test]
fn a_document_without_events_calls_no_visitor() {
    let mut counter = NodeCounter(0);
    let mut failing = FailOnComment;
    assert_eq!(process_file(&[], &mut [&mut counter, &mut failing]), Ok(()));
    assert_eq!(counter.0, 0);
}
