use plc_diff::annotate::DiffHeader;
use plc_diff::document::{collect, convert, transform};
use plc_diff::error::Error;
use plc_diff::event::{Event, StartTag, VisitProcessing, VisitResult, XmlNodeVisitor};
use plc_diff::grafcet::{GrafcetNode, GrafcetTracer};
use plc_diff::guid::Guid;
use plc_diff::name_tracker::NameTracker;
use plc_diff::pipeline::{Action, CollectionPass, Driver, TransformPass};
use plc_diff::process_file;
use plc_diff::tag::CurrentTag;

fn open(name: &str) -> Event {
    Event::Start(StartTag::named(name.as_bytes()))
}

fn close(name: &str) -> Event {
    Event::End(name.as_bytes().to_vec())
}

fn text(content: &str) -> Event {
    Event::Text(content.as_bytes().to_vec())
}

fn leaf(name: &str, content: &str) -> Vec<Event> {
    vec![open(name), text(content), close(name)]
}

fn node(kind: &str, id: &str, from: &[&str], to: &[&str], name: Option<&str>) -> Vec<Event> {
    let mut events = vec![open(kind)];
    events.extend(leaf("Id", id));
    for f in from {
        events.extend(leaf("From", f));
    }
    for t in to {
        events.extend(leaf("To", t));
    }
    if let Some(name) = name {
        events.extend(leaf("Name", name));
    }
    events.push(close(kind));
    events
}

fn guid(text: &str) -> Guid {
    Guid::try_from(text.as_bytes()).unwrap()
}

fn render(events: &[Event]) -> String {
    let mut out = Vec::new();
    for event in events {
        match event {
            Event::Start(tag) => {
                out.push(b'<');
                out.extend_from_slice(&tag.content);
                out.push(b'>');
            }
            Event::End(name) => {
                out.extend_from_slice(b"</");
                out.extend_from_slice(name);
                out.push(b'>');
            }
            Event::Empty(tag) => {
                out.push(b'<');
                out.extend_from_slice(&tag.content);
                out.extend_from_slice(b"/>");
            }
            Event::Text(content) => out.extend_from_slice(content),
            Event::Comment(content) => {
                out.extend_from_slice(b"<!--");
                out.extend_from_slice(content);
                out.extend_from_slice(b"-->");
            }
            Event::Eof => out.extend_from_slice(b"#"),
            other => panic!("not rendered: {:?}", other),
        }
    }
    String::from_utf8(out).unwrap()
}

fn project(body: Vec<Event>) -> Vec<Event> {
    let mut events = vec![open("Project")];
    events.extend(leaf("Name", "Proj"));
    events.push(open("Pou"));
    events.extend(leaf("Name", "Main"));
    events.extend(body);
    events.push(close("Pou"));
    events.push(close("Project"));
    events.push(Event::Eof);
    events
}

fn rung() -> Vec<Event> {
    let mut events = vec![open("RungEntity")];
    events.extend(leaf("Name", "Step1"));
    events.extend(leaf("MainComment", "first rung"));
    events.push(open("LadderElements"));
    events.push(open("LadderEntity"));
    events.extend(leaf("ElementType", "Coil"));
    events.extend(leaf("Id", "ladder-id"));
    events.push(close("LadderEntity"));
    events.push(close("LadderElements"));
    events.push(open("InstructionLines"));
    events.push(open("InstructionLineEntity"));
    events.extend(leaf("InstructionLine", "  LD   %I0.0\n\t ST %Q0.0 "));
    events.extend(leaf("Comment", "note"));
    events.push(close("InstructionLineEntity"));
    events.push(close("InstructionLines"));
    events.push(close("RungEntity"));
    events
}

fn inputs() -> Vec<Event> {
    let mut events = vec![open("DigitalInputs"), open("DiscretInput")];
    events.extend(leaf("Address", "%I0.0"));
    events.extend(leaf("Symbol", "START_BTN"));
    events.push(close("DiscretInput"));
    events.push(close("DigitalInputs"));
    events
}

fn chart() -> Vec<Event> {
    let mut events = node("GrafcetNodeStep", "guid-a", &[], &["guid-t"], Some("Start"));
    events.extend(node("GrafcetTransition", "guid-t", &["guid-a"], &["guid-b"], Some("T1")));
    events.extend(node("GrafcetNodeStep", "guid-b", &["guid-t"], &[], Some("Stop")));
    events
}

fn whole_document() -> Vec<Event> {
    let mut body = inputs();
    body.extend(rung());
    body.extend(chart());
    project(body)
}

#[test]
fn a_document_is_converted_as_a_whole() {
    let written = convert(&whole_document()).unwrap();
    let expected = [
        "<Project><Name>Proj</Name><Pou><Name>Main</Name>",
        "<DigitalInputs><DiscretInput><Address>%I0.0</Address><Symbol>START_BTN</Symbol>",
        "</DiscretInput></DigitalInputs>",
        "<RungEntity ctx=\"Main > Step1\"><Name>Step1</Name>",
        "<MainComment>first rung</MainComment>",
        "<LadderElements></LadderElements>",
        "<InstructionLines>LD %I0.0 [START_BTN] ST %Q0.0\tnote</InstructionLines></RungEntity>",
        "<GrafcetNodeStep><Id>==1==</Id><To>==2==</To><Name>Start</Name></GrafcetNodeStep>",
        "<GrafcetTransition ctx=\"Start->[T1]->Stop\"><Id>==2==</Id><From>==1==</From>",
        "<To>==3==</To><Name>T1</Name></GrafcetTransition>",
        "<GrafcetNodeStep><Id>==3==</Id><From>==2==</From><Name>Stop</Name></GrafcetNodeStep>",
        "</Pou></Project>#",
    ]
    .join("");
    assert_eq!(render(&written), expected);
}

#[test]
fn the_rung_carries_its_path_and_the_transition_its_neighbours() {
    let mut body = rung();
    body.extend(chart());
    let written = convert(&project(body)).unwrap();
    let mut rung_tag = StartTag::named(b"RungEntity");
    rung_tag.push_attribute(b"ctx", b"Main > Step1");
    assert!(written.contains(&Event::Start(rung_tag)));
    let mut transition = StartTag::named(b"GrafcetTransition");
    transition.push_attribute(b"ctx", b"Start->[T1]->Stop");
    assert!(written.contains(&Event::Start(transition)));
    assert!(written.contains(&open("GrafcetNodeStep")));
}

#[test]
fn the_ladder_diagram_goes_and_its_siblings_stay() {
    let written = convert(&project(rung())).unwrap();
    assert!(!written.contains(&open("LadderEntity")));
    assert!(!written.contains(&open("ElementType")));
    assert!(!written.contains(&text("Coil")));
    assert!(!written.contains(&close("LadderEntity")));
    assert!(!written.contains(&text("ladder-id")));
    assert!(!written.contains(&text("==1==")));
    let position = written.iter().position(|e| *e == open("LadderElements")).unwrap();
    assert_eq!(written[position + 1], close("LadderElements"));
    assert_eq!(written[position - 3..position].to_vec(), leaf("MainComment", "first rung"));
    assert_eq!(written[position + 2], open("InstructionLines"));
}

#[test]
fn two_runs_over_one_document_give_one_output() {
    let document = whole_document();
    let first = convert(&document);
    let second = convert(&document.clone());
    assert!(first.is_ok());
    assert_eq!(first, second);
    let tables = collect(&document).unwrap();
    assert_eq!(transform(&document, &tables), transform(&document, &tables));
    assert_eq!(transform(&document, &tables), first);
}

#[test]
fn two_runs_over_one_faulty_document_fail_alike() {
    let mut body = chart();
    body.extend(node("GrafcetOrFork", "bad", &["a", "b"], &["c", "d"], None));
    let document = project(body);
    let first = convert(&document);
    let node = GrafcetNode {
        id: guid("bad"),
        from: vec![guid("a"), guid("b")],
        to: vec![guid("c"), guid("d")],
    };
    assert_eq!(first, Err(Error::NodeFanMismatch { node }));
    assert_eq!(convert(&document), first);
}

#[test]
fn what_follows_the_end_of_the_document_is_not_read() {
    let mut document = whole_document();
    let expected = convert(&document).unwrap();
    document.push(close("Stray"));
    document.push(text("more"));
    assert_eq!(convert(&document), Ok(expected));
}

#[test]
fn a_document_without_an_end_is_read_to_its_last_event() {
    let mut document = whole_document();
    let mut expected = convert(&document).unwrap();
    assert_eq!(document.pop(), Some(Event::Eof));
    assert_eq!(expected.pop(), Some(Event::Eof));
    assert_eq!(convert(&document), Ok(expected));
    assert_eq!(convert(&[]), Ok(Vec::new()));
}

#[test]
fn a_transition_behind_a_fork_is_named_after_the_step_before_the_fork() {
    let mut body = node("GrafcetNodeStep", "s1", &[], &["fork"], Some("Init"));
    body.extend(node("GrafcetOrFork", "fork", &["s1"], &["t1", "t2"], None));
    body.extend(node("GrafcetTransition", "t1", &["fork"], &["s2"], Some("go left")));
    body.extend(node("GrafcetTransition", "t2", &["fork"], &["s3"], Some("go right")));
    body.extend(node("GrafcetNodeStep", "s2", &["t1"], &["t3"], Some("Left")));
    body.extend(node("GrafcetNodeStep", "s3", &["t2"], &["t4"], Some("Right")));
    body.extend(node("GrafcetTransition", "t3", &["s2"], &["join"], Some("left done")));
    body.extend(node("GrafcetTransition", "t4", &["s3"], &["join"], Some("right done")));
    body.extend(node("GrafcetOrJunction", "join", &["t3", "t4"], &["s4"], None));
    body.extend(node("GrafcetNodeStep", "s4", &["join"], &[], Some("End")));
    let written = convert(&project(body)).unwrap();
    let contexts: Vec<String> = written
        .iter()
        .filter_map(|event| match event {
            Event::Start(tag) if tag.content.starts_with(b"GrafcetTransition") => {
                Some(String::from_utf8(tag.content[tag.name_len..].to_vec()).unwrap())
            }
            _ => None,
        })
        .collect();
    assert_eq!(
        contexts,
        vec![
            " ctx=\"Init->[go left]->Left\"",
            " ctx=\"Init->[go right]->Right\"",
            " ctx=\"Left->[left done]->End\"",
            " ctx=\"Right->[right done]->End\"",
        ]
    );
}

#[test]
fn a_chain_of_forks_is_walked_to_its_end() {
    let mut body = node("GrafcetNodeStep", "s1", &[], &["f1"], Some("Init"));
    body.extend(node("GrafcetOrFork", "f1", &["s1"], &["f2", "x"], None));
    body.extend(node("GrafcetOrFork", "f2", &["f1"], &["t1", "y"], None));
    body.extend(node("GrafcetTransition", "t1", &["f2"], &["s2"], Some("T")));
    body.extend(node("GrafcetNodeStep", "s2", &["t1"], &[], Some("Done")));
    let written = convert(&project(body)).unwrap();
    let mut tag = StartTag::named(b"GrafcetTransition");
    tag.push_attribute(b"ctx", b"Init->[T]->Done");
    assert!(written.contains(&Event::Start(tag)));
}

#[test]
fn a_ring_of_forks_has_no_name() {
    let mut body = node("GrafcetOrFork", "f1", &["f2"], &["a", "b"], None);
    body.extend(node("GrafcetOrFork", "f2", &["f1"], &["c", "d"], None));
    body.extend(node("GrafcetTransition", "t", &["f1"], &["s"], Some("T")));
    body.extend(node("GrafcetNodeStep", "s", &["t"], &[], Some("S")));
    assert_eq!(
        convert(&project(body)),
        Err(Error::UnresolvedName { id: b"f1".to_vec() })
    );
}

#[test]
fn a_neighbour_that_was_never_recorded_has_no_name() {
    let mut body = node("GrafcetNodeStep", "a", &[], &["t"], Some("A"));
    body.extend(node("GrafcetTransition", "t", &["a"], &["nowhere"], Some("T")));
    assert_eq!(
        convert(&project(body)),
        Err(Error::UnresolvedName { id: b"nowhere".to_vec() })
    );
}

#[test]
fn a_transition_with_two_ways_out_cannot_be_annotated() {
    let mut body = node("GrafcetNodeStep", "a", &[], &["t"], Some("A"));
    body.extend(node("GrafcetTransition", "t", &["a"], &["b", "c"], Some("T")));
    let document = project(body);
    assert!(collect(&document).is_ok());
    let node = GrafcetNode { id: guid("t"), from: vec![guid("a")], to: vec![guid("b"), guid("c")] };
    assert_eq!(convert(&document), Err(Error::AmbiguousTransition { node }));
}

#[test]
fn tables_of_another_document_miss_blocks_and_nodes() {
    let nothing = collect(&[]).unwrap();
    assert_eq!(
        transform(&[open("RungEntity")], &nothing),
        Err(Error::MissingRung { index: 0 })
    );
    assert_eq!(
        transform(&[open("GrafcetTransition")], &nothing),
        Err(Error::MissingNode { position: 1 })
    );
    assert_eq!(transform(&[open("GrafcetNodeStep")], &nothing), Ok(vec![open("GrafcetNodeStep")]));
    let one = collect(&project(rung())).unwrap();
    let two_rungs = vec![open("RungEntity"), close("RungEntity"), open("RungEntity")];
    assert_eq!(transform(&two_rungs, &one), Err(Error::MissingRung { index: 1 }));
}

#[test]
fn blocks_take_their_records_in_document_order() {
    let mut body = Vec::new();
    for name in ["one", "two", "three"] {
        body.push(open("RungEntity"));
        body.extend(leaf("Name", name));
        body.push(close("RungEntity"));
    }
    let written = convert(&project(body)).unwrap();
    let tags: Vec<String> = written
        .iter()
        .filter_map(|event| match event {
            Event::Start(tag) if tag.content.starts_with(b"RungEntity") => {
                Some(String::from_utf8(tag.content.clone()).unwrap())
            }
            _ => None,
        })
        .collect();
    assert_eq!(
        tags,
        vec![
            "RungEntity ctx=\"Main > one\"",
            "RungEntity ctx=\"Main > two\"",
            "RungEntity ctx=\"Main > three\"",
        ]
    );
}

struct Sink(Vec<Event>);

impl XmlNodeVisitor for Sink {
    fn visit(&mut self, event: Event, _current: CurrentTag) -> VisitResult {
        self.0.push(event.clone());
        Ok(VisitProcessing::Continue(event))
    }
}

#[test]
fn the_collection_pass_changes_no_event() {
    let mut pass = CollectionPass::new();
    let mut sink = Sink(Vec::new());
    process_file(&whole_document(), &mut [&mut pass, &mut sink]).unwrap();
    assert_eq!(sink.0, whole_document());
    assert_eq!(pass.ionames().get_symbol(b"%I0.0"), Some(&b"START_BTN"[..]));
    assert_eq!(pass.name_tracker().rung(0).unwrap().name, b"Main > Step1".to_vec());
    assert_eq!(pass.name_tracker().rung(0).unwrap().main_comment, b"first rung".to_vec());
    assert_eq!(pass.name_tracker().display_name(b"guid-t"), Some("T1"));
    assert_eq!(pass.grafcet_tracer().node_count(), 3);
}

#[test]
fn the_passes_work_event_by_event_as_on_the_whole() {
    let document = whole_document();
    let mut collection = CollectionPass::new();
    let mut driver = Driver::new();
    for event in document.clone() {
        if driver.process(&mut [&mut collection], event).unwrap() == Action::Stop {
            break;
        }
    }
    let mut transformer = TransformPass::new(&collection);
    let mut sink = Sink(Vec::new());
    let mut driver = Driver::new();
    for event in document.clone() {
        if driver.process(&mut [&mut transformer, &mut sink], event).unwrap() == Action::Stop {
            break;
        }
    }
    assert_eq!(Ok(sink.0), convert(&document));
}

#[test]
fn the_annotator_resolves_names_and_contexts() {
    let mut tracker = NameTracker::default();
    let mut tracer = GrafcetTracer::default();
    let mut driver = Driver::new();
    for event in project(chart()) {
        driver.process(&mut [&mut tracker, &mut tracer], event).unwrap();
    }
    let mut header = DiffHeader::new(&tracker, &tracer);
    assert_eq!(header.id(&guid("guid-a")), Ok("Start"));
    assert_eq!(header.id(&guid("guid-b")), Ok("Stop"));
    assert_eq!(header.id(&guid("guid-c")), Err(Error::UnresolvedName { id: b"guid-c".to_vec() }));
    assert_eq!(header.trans_ctx(), Err(Error::MissingNode { position: 0 }));
    header.visit(open("GrafcetNodeStep"), CurrentTag::GrafcetNodeStep).unwrap();
    let first = GrafcetNode { id: guid("guid-a"), from: vec![], to: vec![guid("guid-t")] };
    assert_eq!(header.trans_ctx(), Err(Error::AmbiguousTransition { node: first }));
    let annotated = header.visit(open("GrafcetTransition"), CurrentTag::GrafcetTransition).unwrap();
    let mut expected = StartTag::named(b"GrafcetTransition");
    DiffHeader::add_ctx_attr(&mut expected, b"Start->[T1]->Stop");
    assert_eq!(annotated, VisitProcessing::Continue(Event::Start(expected)));
    assert_eq!(header.trans_ctx(), Ok(b"Start->[T1]->Stop".to_vec()));
    let close_tag = header.visit(close("GrafcetTransition"), CurrentTag::GrafcetTransition);
    assert_eq!(close_tag, Ok(VisitProcessing::Continue(close("GrafcetTransition"))));
}
