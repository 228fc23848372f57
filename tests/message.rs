use busd::bus::Bus;
use busd::message::{routing_header, structural_match, structural_matches};
use busd::names::{unique_name_for, BusName};
use busd::owners::NameOwners;
use busd::peer::Peer;
use busd::rule::MatchRule;

fn signal(sender: &str, destination: Option<&str>) -> zbus::Message {
    let mut builder = zbus::MessageBuilder::signal("/org/example/Obj", "org.example.Iface", "Changed")
        .unwrap()
        .sender(sender)
        .unwrap();
    if let Some(d) = destination {
        builder = builder.destination(d).unwrap();
    }
    builder.build(&()).unwrap()
}

fn rule(filter: &str) -> MatchRule {
    MatchRule { sender: None, destination: None, filter: filter.to_string() }
}

#[test]
fn header_fields_are_read() {
    let msg = signal(":busd.7", Some("org.example.Dest"));
    let hdr = routing_header(&msg);
    assert_eq!(hdr.sender.as_deref(), Some(":busd.7"));
    match hdr.destination {
        Some(BusName::WellKnown(w)) => assert_eq!(w, "org.example.Dest"),
        other => panic!("unexpected destination {:?}", other),
    }
    let to_unique = signal(":busd.7", Some(":busd.4"));
    match routing_header(&to_unique).destination {
        Some(BusName::Unique(u)) => assert_eq!(u, ":busd.4"),
        other => panic!("unexpected destination {:?}", other),
    }
    assert!(routing_header(&signal(":busd.7", None)).destination.is_none());
}

#[test]
fn structural_criteria_are_matched() {
    let msg = signal(":busd.7", None);
    assert!(structural_match(&rule("type='signal',interface='org.example.Iface'"), &msg));
    assert!(!structural_match(&rule("type='signal',interface='org.example.Other'"), &msg));
    assert!(!structural_match(&rule("type='method_call'"), &msg));
    assert!(!structural_match(&rule("not a rule"), &msg));
}

#[test]
fn message_routing_end_to_end() {
    let peer = Peer::new(3);
    let mut bus = Bus::new(unique_name_for(3));
    bus.add_match(MatchRule {
        sender: Some(BusName::WellKnown("org.example.Foo".to_string())),
        destination: None,
        filter: "type='signal',sender='org.example.Foo',member='Changed'".to_string(),
    });
    bus.add_match(rule("type='method_call'"));
    let msg = signal(":busd.7", None);
    let hdr = routing_header(&msg);
    let structural = structural_matches(&bus, &msg);
    assert_eq!(structural, vec![true, false]);
    let names = peer.names_to_resolve(&bus, &hdr, &structural);
    assert_eq!(names, vec!["org.example.Foo".to_string()]);
    let mut owners = NameOwners::new();
    owners.insert("org.example.Foo".to_string(), ":busd.7".to_string());
    assert!(peer.interested(&bus, &hdr, &structural, &owners));
    assert!(!peer.interested(&bus, &hdr, &structural, &NameOwners::new()));
}
