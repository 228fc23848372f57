use busd::bus::{Bus, BusError};
use busd::flags::RequestNameFlags;
use busd::names::{unique_name_for, BusName};
use busd::owners::NameOwners;
use busd::peer::Peer;
use busd::rule::{HeaderError, MatchRule, RoutingHeader};

fn sender_rule(name: &str) -> MatchRule {
    MatchRule {
        sender: Some(BusName::WellKnown(name.to_string())),
        destination: None,
        filter: format!("type='signal',sender='{}'", name),
    }
}

fn plain_rule(filter: &str) -> MatchRule {
    MatchRule { sender: None, destination: None, filter: filter.to_string() }
}

fn header(sender: Option<&str>, destination: Option<BusName>) -> RoutingHeader {
    RoutingHeader { sender: sender.map(|s| s.to_string()), destination }
}

fn owners_of(pairs: &[(&str, &str)]) -> NameOwners {
    let mut o = NameOwners::new();
    for (n, u) in pairs {
        o.insert(n.to_string(), u.to_string());
    }
    o
}

#[test]
fn unique_name_from_id() {
    assert_eq!(Peer::new(3).unique_name().as_str(), ":busd.3");
    assert_eq!(unique_name_for(0), ":busd.0");
    assert_eq!(unique_name_for(1234567890), ":busd.1234567890");
    assert_eq!(unique_name_for(4294967295), ":busd.4294967295");
}

#[test]
fn unique_names_do_not_collide() {
    let mut seen = std::collections::HashSet::new();
    for id in 0..1000usize {
        assert!(seen.insert(unique_name_for(id)));
    }
    assert_ne!(unique_name_for(1), unique_name_for(11));
}

#[test]
fn hello_succeeds_once() {
    let mut bus = Bus::new(unique_name_for(3));
    assert!(!bus.greeted());
    assert_eq!(bus.hello(), Ok(":busd.3".to_string()));
    assert!(bus.greeted());
    assert_eq!(bus.hello(), Err(BusError::CalledMoreThanOnce));
    assert_eq!(bus.hello(), Err(BusError::CalledMoreThanOnce));
    assert!(bus.greeted());
}

#[test]
fn add_then_remove_restores_rules() {
    let mut bus = Bus::new(unique_name_for(1));
    bus.add_match(plain_rule("type='signal'"));
    bus.add_match(sender_rule("org.example.Foo"));
    assert_eq!(bus.match_rules().len(), 2);
    assert_eq!(bus.remove_match(sender_rule("org.example.Foo")), Ok(()));
    assert_eq!(bus.match_rules().len(), 1);
    assert_eq!(bus.match_rules()[0].filter, "type='signal'");
}

#[test]
fn remove_missing_rule_fails() {
    let mut bus = Bus::new(unique_name_for(1));
    assert_eq!(bus.remove_match(plain_rule("type='signal'")), Err(BusError::MatchRuleNotFound));
    bus.add_match(plain_rule("type='signal'"));
    assert_eq!(
        bus.remove_match(plain_rule("type='method_call'")),
        Err(BusError::MatchRuleNotFound)
    );
    assert_eq!(bus.match_rules().len(), 1);
    assert_eq!(bus.remove_match(plain_rule("type='signal'")), Ok(()));
    assert_eq!(bus.remove_match(plain_rule("type='signal'")), Err(BusError::MatchRuleNotFound));
}

#[test]
fn add_match_is_idempotent() {
    let mut bus = Bus::new(unique_name_for(1));
    bus.add_match(sender_rule("org.example.Foo"));
    bus.add_match(sender_rule("org.example.Foo"));
    assert_eq!(bus.match_rules().len(), 1);
    // Rules that differ only in the kind of their sender name are different.
    bus.add_match(MatchRule {
        sender: Some(BusName::Unique("org.example.Foo".to_string())),
        destination: None,
        filter: "type='signal',sender='org.example.Foo'".to_string(),
    });
    assert_eq!(bus.match_rules().len(), 2);
}

#[test]
fn get_name_owner_resolves_well_known() {
    let bus = Bus::new(unique_name_for(1));
    let owners = owners_of(&[("org.example.Foo", ":busd.7")]);
    let foo = BusName::WellKnown("org.example.Foo".to_string());
    assert_eq!(bus.get_name_owner(&foo, &owners), Ok(":busd.7".to_string()));
    let bar = BusName::WellKnown("org.example.Bar".to_string());
    assert_eq!(bus.get_name_owner(&bar, &owners), Err(BusError::NameHasNoOwner));
    assert_eq!(bus.get_name_owner(&foo, &NameOwners::new()), Err(BusError::NameHasNoOwner));
}

#[test]
fn get_name_owner_returns_unique_unchanged() {
    let bus = Bus::new(unique_name_for(1));
    let ghost_name = BusName::Unique(":busd.99".to_string());
    assert_eq!(bus.get_name_owner(&ghost_name, &NameOwners::new()), Ok(":busd.99".to_string()));
}

#[test]
fn owners_last_insert_wins() {
    let mut owners = owners_of(&[("a.B", ":busd.1")]);
    owners.insert("a.B".to_string(), ":busd.2".to_string());
    assert_eq!(owners.lookup(&"a.B".to_string()), Some(":busd.2".to_string()));
    assert_eq!(owners.lookup(&"a.C".to_string()), None);
}

#[test]
fn request_and_release_name_carry_caller() {
    let bus = Bus::new(unique_name_for(5));
    let flags = RequestNameFlags::from_bits(5).unwrap();
    let req = bus.request_name("org.example.Foo".to_string(), flags);
    assert_eq!(req.name, "org.example.Foo");
    assert_eq!(req.owner, ":busd.5");
    assert_eq!(req.flags, flags);
    let rel = bus.release_name("org.example.Foo".to_string());
    assert_eq!(rel.name, "org.example.Foo");
    assert_eq!(rel.owner, ":busd.5");
}

#[test]
fn flags_bits() {
    let f = RequestNameFlags::from_bits(5).unwrap();
    assert!(f.allow_replacement);
    assert!(!f.replace_existing);
    assert!(f.do_not_queue);
    assert_eq!(f.bits(), 5);
    assert_eq!(RequestNameFlags::from_bits(8), None);
    assert_eq!(RequestNameFlags::empty().bits(), 0);
    for b in 0..8u32 {
        assert_eq!(RequestNameFlags::from_bits(b).unwrap().bits(), b);
    }
}

#[test]
fn no_rules_not_interested() {
    let peer = Peer::new(1);
    let bus = Bus::new(unique_name_for(1));
    let hdr = header(Some(":busd.7"), None);
    assert!(!peer.interested(&bus, &hdr, &vec![], &NameOwners::new()));
}

#[test]
fn structural_mismatch_not_interested() {
    let peer = Peer::new(1);
    let mut bus = Bus::new(unique_name_for(1));
    bus.add_match(plain_rule("type='signal'"));
    let hdr = header(Some(":busd.7"), None);
    assert!(!peer.interested(&bus, &hdr, &vec![false], &NameOwners::new()));
    assert!(!peer.interested(&bus, &hdr, &vec![], &NameOwners::new()));
    assert!(peer.interested(&bus, &hdr, &vec![true], &NameOwners::new()));
}

#[test]
fn scenario_well_known_sender() {
    let peer = Peer::new(3);
    let mut bus = Bus::new(peer.unique_name().clone());
    assert_eq!(bus.hello(), Ok(":busd.3".to_string()));
    bus.add_match(sender_rule("org.example.Foo"));
    let hdr = header(Some(":busd.7"), None);
    let owned = owners_of(&[("org.example.Foo", ":busd.7")]);
    assert!(peer.interested(&bus, &hdr, &vec![true], &owned));
    // The owner released the name.
    assert!(!peer.interested(&bus, &hdr, &vec![true], &NameOwners::new()));
    // Owned by someone else.
    let other = owners_of(&[("org.example.Foo", ":busd.8")]);
    assert!(!peer.interested(&bus, &hdr, &vec![true], &other));
}

#[test]
fn unowned_destination_not_interested() {
    let peer = Peer::new(1);
    let mut bus = Bus::new(unique_name_for(1));
    bus.add_match(MatchRule {
        sender: None,
        destination: Some(":busd.4".to_string()),
        filter: "destination=':busd.4'".to_string(),
    });
    let to_well_known = header(Some(":busd.7"), Some(BusName::WellKnown("org.example.Dest".to_string())));
    assert!(!peer.interested(&bus, &to_well_known, &vec![true], &NameOwners::new()));
    let owned = owners_of(&[("org.example.Dest", ":busd.4")]);
    assert!(peer.interested(&bus, &to_well_known, &vec![true], &owned));
    let owned_elsewhere = owners_of(&[("org.example.Dest", ":busd.5")]);
    assert!(!peer.interested(&bus, &to_well_known, &vec![true], &owned_elsewhere));
    let to_unique = header(Some(":busd.7"), Some(BusName::Unique(":busd.4".to_string())));
    assert!(peer.interested(&bus, &to_unique, &vec![true], &NameOwners::new()));
}

#[test]
fn missing_header_fields_fail_the_rule() {
    let owners = owners_of(&[("org.example.Foo", ":busd.7")]);
    let rule = sender_rule("org.example.Foo");
    assert_eq!(rule.resolve(&header(None, None), &owners), Err(HeaderError::MissingSender));
    // An unowned sender name fails before the header is read.
    assert_eq!(rule.resolve(&header(None, None), &NameOwners::new()), Ok(false));
    let dest_rule = MatchRule {
        sender: None,
        destination: Some(":busd.4".to_string()),
        filter: String::new(),
    };
    assert_eq!(
        dest_rule.resolve(&header(Some(":busd.7"), None), &owners),
        Err(HeaderError::MissingDestination)
    );
    let peer = Peer::new(1);
    let mut bus = Bus::new(unique_name_for(1));
    bus.add_match(rule);
    assert!(!peer.interested(&bus, &header(None, None), &vec![true], &owners));
}

#[test]
fn any_rule_suffices() {
    let peer = Peer::new(1);
    let mut bus = Bus::new(unique_name_for(1));
    bus.add_match(sender_rule("org.example.Foo"));
    bus.add_match(plain_rule("type='signal'"));
    let hdr = header(Some(":busd.9"), None);
    assert!(peer.interested(&bus, &hdr, &vec![true, true], &NameOwners::new()));
    assert!(!peer.interested(&bus, &hdr, &vec![true, false], &NameOwners::new()));
}

#[test]
fn names_to_resolve_lists_needed_names() {
    let peer = Peer::new(1);
    let mut bus = Bus::new(unique_name_for(1));
    bus.add_match(sender_rule("org.example.Foo"));
    bus.add_match(plain_rule("type='signal'"));
    bus.add_match(MatchRule {
        sender: Some(BusName::Unique(":busd.2".to_string())),
        destination: Some(":busd.4".to_string()),
        filter: "sender=':busd.2',destination=':busd.4'".to_string(),
    });
    let hdr = header(Some(":busd.7"), Some(BusName::WellKnown("org.example.Dest".to_string())));
    let all = vec![true, true, true];
    assert_eq!(
        peer.names_to_resolve(&bus, &hdr, &all),
        vec!["org.example.Foo".to_string(), "org.example.Dest".to_string()]
    );
    // Only rules whose structural criteria matched are resolved.
    assert_eq!(peer.names_to_resolve(&bus, &hdr, &vec![false, true, true]), vec!["org.example.Dest".to_string()]);
    assert_eq!(peer.names_to_resolve(&bus, &hdr, &vec![true, true, false]), vec!["org.example.Foo".to_string()]);
    assert!(peer.names_to_resolve(&bus, &hdr, &vec![false, true, false]).is_empty());
    let to_unique = header(Some(":busd.7"), Some(BusName::Unique(":busd.4".to_string())));
    assert_eq!(peer.names_to_resolve(&bus, &to_unique, &all), vec!["org.example.Foo".to_string()]);
}

#[test]
fn no_rules_resolve_no_names() {
    let peer = Peer::new(1);
    let bus = Bus::new(unique_name_for(1));
    let hdr = header(Some(":busd.7"), Some(BusName::WellKnown("org.example.Dest".to_string())));
    assert!(peer.names_to_resolve(&bus, &hdr, &vec![]).is_empty());
    let mut plain = Bus::new(unique_name_for(1));
    plain.add_match(plain_rule("type='signal'"));
    assert!(peer.names_to_resolve(&plain, &hdr, &vec![true]).is_empty());
}
