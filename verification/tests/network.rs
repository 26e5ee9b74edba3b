use plc_diff::error::Error;
use plc_diff::event::{Event, StartTag, XmlNodeVisitor};
use plc_diff::grafcet::{is_node_tag, GrafcetCounter, GrafcetNode, GrafcetTracer, NodeTable};
use plc_diff::guid::Guid;
use plc_diff::pipeline::{Action, Driver};
use plc_diff::tag::CurrentTag;

fn open(name: &str) -> Event {
    Event::Start(StartTag::named(name.as_bytes()))
}

fn close(name: &str) -> Event {
    Event::End(name.as_bytes().to_vec())
}

fn leaf(name: &str, text: &str) -> Vec<Event> {
    vec![open(name), Event::Text(text.as_bytes().to_vec()), close(name)]
}

fn node(kind: &str, id: &str, from: &[&str], to: &[&str]) -> Vec<Event> {
    let mut events = vec![open(kind)];
    events.extend(leaf("Id", id));
    for f in from {
        events.extend(leaf("From", f));
    }
    for t in to {
        events.extend(leaf("To", t));
    }
    events.push(close(kind));
    events
}

fn trace(tracer: &mut GrafcetTracer, events: Vec<Event>) -> Result<(), Error> {
    let mut driver = Driver::new();
    for event in events {
        driver.process(&mut [&mut *tracer as &mut dyn XmlNodeVisitor], event)?;
    }
    Ok(())
}

fn guid(text: &str) -> Guid {
    Guid::try_from(text.as_bytes()).unwrap()
}

fn counter_at(count: usize) -> GrafcetCounter {
    let mut counter = GrafcetCounter::default();
    for _ in 0..count {
        assert!(counter.process_current_tag(CurrentTag::GrafcetNodeStep));
    }
    counter
}

#[test]
fn the_counter_counts_control_nodes_only() {
    let mut counter = GrafcetCounter::default();
    assert_eq!(counter.count(), 0);
    assert!(counter.process_current_tag(CurrentTag::GrafcetNodeStep));
    assert!(counter.process_current_tag(CurrentTag::GrafcetTransition));
    assert!(counter.process_current_tag(CurrentTag::GrafcetOrFork));
    assert!(counter.process_current_tag(CurrentTag::GrafcetOrJunction));
    assert_eq!(counter.count(), 4);
    for tag in [
        CurrentTag::Address,
        CurrentTag::Id,
        CurrentTag::To,
        CurrentTag::From,
        CurrentTag::InstructionLine,
        CurrentTag::InstructionLineEntity,
        CurrentTag::MainComment,
        CurrentTag::Name,
        CurrentTag::LadderElements,
        CurrentTag::RungEntity,
        CurrentTag::Symbol,
        CurrentTag::Other,
        CurrentTag::NoTag,
    ] {
        assert!(!counter.process_current_tag(tag));
        assert!(!is_node_tag(tag));
    }
    assert_eq!(counter.count(), 4);
    assert!(counter.has_room());
    assert!(is_node_tag(CurrentTag::GrafcetOrFork));
}

#[test]
fn a_node_with_one_reference_on_each_side_has_a_triple() {
    let node = GrafcetNode { id: guid("t"), from: vec![guid("a")], to: vec![guid("b")] };
    let (from, id, to) = node.uniq_triple().unwrap();
    assert_eq!(from.as_ref(), b"a");
    assert_eq!(id.as_ref(), b"t");
    assert_eq!(to.as_ref(), b"b");
}

#[test]
fn any_other_node_has_no_triple() {
    let fork = GrafcetNode { id: guid("f"), from: vec![guid("a")], to: vec![guid("b"), guid("c")] };
    assert!(fork.uniq_triple().is_none());
    let junction = GrafcetNode { id: guid("j"), from: vec![guid("a"), guid("b")], to: vec![guid("c")] };
    assert!(junction.uniq_triple().is_none());
    let first = GrafcetNode { id: guid("s"), from: vec![], to: vec![guid("c")] };
    assert!(first.uniq_triple().is_none());
    assert!(GrafcetNode::default().uniq_triple().is_none());
}

#[test]
fn a_fork_with_one_incoming_and_three_outgoing_is_accepted() {
    let mut tracer = GrafcetTracer::default();
    trace(&mut tracer, node("GrafcetOrFork", "fork", &["in"], &["a", "b", "c"])).unwrap();
    assert_eq!(tracer.node_count(), 1);
    let found = tracer.find_node(b"fork").unwrap();
    assert_eq!(found.from.len(), 1);
    assert_eq!(found.to.len(), 3);
    assert_eq!(found.to[2].as_ref(), b"c");
    assert_eq!(tracer.get_unique_link(&guid("fork")).as_ref(), b"in");
}

#[test]
fn a_node_with_two_incoming_and_two_outgoing_is_refused() {
    let mut tracer = GrafcetTracer::default();
    let res = trace(&mut tracer, node("GrafcetOrJunction", "bad", &["a", "b"], &["c", "d"]));
    let node = GrafcetNode {
        id: guid("bad"),
        from: vec![guid("a"), guid("b")],
        to: vec![guid("c"), guid("d")],
    };
    assert_eq!(res, Err(Error::NodeFanMismatch { node }));
    assert_eq!(tracer.node_count(), 0);
}

#[test]
fn a_node_without_references_is_refused() {
    let mut tracer = GrafcetTracer::default();
    let res = trace(&mut tracer, node("GrafcetNodeStep", "lonely", &[], &[]));
    let node = GrafcetNode { id: guid("lonely"), from: vec![], to: vec![] };
    assert_eq!(res, Err(Error::NodeFanMismatch { node }));
}

#[test]
fn a_transition_with_one_reference_on_each_side_is_accepted() {
    let mut tracer = GrafcetTracer::default();
    trace(&mut tracer, node("GrafcetTransition", "t", &["a"], &["b"])).unwrap();
    assert_eq!(tracer.node_count(), 1);
    assert_eq!(tracer.get_unique_link(&guid("t")).as_ref(), b"b");
}

#[test]
fn a_junction_links_to_its_one_outgoing_side() {
    let mut tracer = GrafcetTracer::default();
    trace(&mut tracer, node("GrafcetOrJunction", "j", &["a", "b", "c"], &["out"])).unwrap();
    assert_eq!(tracer.get_unique_link(&guid("j")).as_ref(), b"out");
}

#[test]
fn nodes_are_kept_in_the_order_in_which_they_close() {
    let mut tracer = GrafcetTracer::default();
    let mut events = vec![open("Grafcet")];
    events.extend(node("GrafcetNodeStep", "a", &[], &["t"]));
    events.extend(node("GrafcetTransition", "t", &["a"], &["b"]));
    events.extend(node("GrafcetNodeStep", "b", &["t"], &[]));
    events.push(close("Grafcet"));
    trace(&mut tracer, events).unwrap();
    assert_eq!(tracer.node_count(), 3);
    assert_eq!(tracer.get_current_node(&counter_at(1)).id.as_ref(), b"a");
    assert_eq!(tracer.get_current_node(&counter_at(2)).id.as_ref(), b"t");
    assert_eq!(tracer.get_current_node(&counter_at(3)).id.as_ref(), b"b");
    assert!(tracer.find_node(b"c").is_none());
}

#[test]
fn the_node_recorded_last_stands_for_its_identifier() {
    let mut tracer = GrafcetTracer::default();
    let mut events = node("GrafcetNodeStep", "x", &["p"], &["q"]);
    events.extend(node("GrafcetOrFork", "x", &["r"], &["s", "t"]));
    trace(&mut tracer, events).unwrap();
    assert_eq!(tracer.node_count(), 2);
    let found = tracer.find_node(b"x").unwrap();
    assert_eq!(found.from[0].as_ref(), b"r");
    assert_eq!(found.to.len(), 2);
    let first = tracer.get_current_node(&counter_at(1));
    assert_eq!(first.from[0].as_ref(), b"r");
    assert_eq!(tracer.get_unique_link(&guid("x")).as_ref(), b"r");
}

#[test]
fn an_identifier_noted_too_deep_is_refused_when_the_node_closes() {
    let mut tracer = GrafcetTracer::default();
    let mut events = vec![open("GrafcetNodeStep"), open("Sub")];
    events.extend(leaf("Id", "deep"));
    events.push(close("Sub"));
    events.extend(leaf("To", "t"));
    events.push(close("GrafcetNodeStep"));
    let res = trace(&mut tracer, events);
    let node = GrafcetNode { id: guid("deep"), from: vec![], to: vec![guid("t")] };
    assert_eq!(res, Err(Error::NodeDepthMismatch { node, open_depth: 3, close_depth: 1 }));
}

#[test]
fn an_element_that_is_no_node_does_not_check_the_depth() {
    let mut tracer = GrafcetTracer::default();
    let mut events = vec![open("A"), open("B"), open("C")];
    events.extend(leaf("Id", "stray"));
    events.push(close("C"));
    events.push(close("B"));
    events.push(close("A"));
    assert_eq!(trace(&mut tracer, events), Ok(()));
    assert_eq!(tracer.node_count(), 0);
}

#[test]
fn a_node_without_identifier_is_recorded_under_the_empty_one() {
    let mut tracer = GrafcetTracer::default();
    let mut events = vec![open("GrafcetNodeStep")];
    events.extend(leaf("To", "t"));
    events.push(close("GrafcetNodeStep"));
    trace(&mut tracer, events).unwrap();
    assert_eq!(tracer.find_node(b"").unwrap().to[0].as_ref(), b"t");
}

#[test]
fn the_working_node_starts_afresh_after_each_node() {
    let mut tracer = GrafcetTracer::default();
    let mut events = node("GrafcetNodeStep", "a", &["x"], &["y", "z"]);
    events.extend(node("GrafcetNodeStep", "b", &[], &["w"]));
    trace(&mut tracer, events).unwrap();
    let b = tracer.find_node(b"b").unwrap();
    assert!(b.from.is_empty());
    assert_eq!(b.to.len(), 1);
}

#[test]
fn closing_what_was_never_opened_is_refused() {
    let mut tracer = GrafcetTracer::default();
    assert_eq!(
        trace(&mut tracer, vec![close("Project")]),
        Err(Error::UnbalancedClose { name: b"Project".to_vec() })
    );
    let mut again = GrafcetTracer::default();
    let events = vec![open("a"), close("a"), close("ns:a")];
    assert_eq!(trace(&mut again, events), Err(Error::UnbalancedClose { name: b"ns:a".to_vec() }));
}

#[test]
fn a_reference_too_long_is_refused() {
    let long = "x".repeat(37);
    let mut tracer = GrafcetTracer::default();
    let mut events = vec![open("GrafcetNodeStep")];
    events.extend(leaf("From", &long));
    assert_eq!(
        trace(&mut tracer, events),
        Err(Error::IdentifierTooLong { text: long.into_bytes() })
    );
}

#[test]
fn the_tracer_hands_every_event_on() {
    let mut tracer = GrafcetTracer::default();
    let mut driver = Driver::new();
    let events = node("GrafcetTransition", "t", &["a"], &["b"]);
    for event in events {
        assert_eq!(
            driver.process(&mut [&mut tracer as &mut dyn XmlNodeVisitor], event),
            Ok(Action::ReadNext)
        );
    }
    assert_eq!(driver.process(&mut [&mut tracer as &mut dyn XmlNodeVisitor], Event::Eof), Ok(Action::Stop));
}

#[test]
fn a_table_finds_what_was_recorded() {
    let mut table = NodeTable::new();
    assert_eq!(table.len(), 0);
    assert!(table.find(b"a").is_none());
    table.record(GrafcetNode { id: guid("a"), from: vec![guid("p")], to: vec![] });
    table.record(GrafcetNode { id: guid("b"), from: vec![], to: vec![guid("q")] });
    assert_eq!(table.len(), 2);
    assert_eq!(table.at(0).id.as_ref(), b"a");
    assert_eq!(table.at(1).id.as_ref(), b"b");
    assert_eq!(table.find(b"b").unwrap().to[0].as_ref(), b"q");
    table.all_ok();
}

#[test]
fn a_copy_of_a_node_is_equal_to_it() {
    let node = GrafcetNode { id: guid("n"), from: vec![guid("a"), guid("b")], to: vec![guid("c")] };
    assert_eq!(node.clone(), node);
    assert_eq!(GrafcetNode::default().clone(), GrafcetNode::default());
    assert!(node != GrafcetNode { id: guid("n"), from: vec![guid("a")], to: vec![guid("c")] });
}
