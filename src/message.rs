//! Reading what routing needs out of a zbus message: its sender and
//! destination header fields, and the structural match of each rule.

use vstd::prelude::*;
use crate::bus::Bus;
use crate::names::{BusName, BusNameView, opt_name_view};
use crate::rule::{MatchRule, RoutingHeader, opt_string_view};

verus! {

#[verifier::external_type_specification]
#[verifier::external_body]
pub struct ExMessage(zbus::Message);

#[verifier::external_type_specification]
#[verifier::external_body]
pub struct ExOwnedMatchRule(zbus::OwnedMatchRule);

/// The SENDER field of the message's header, a unique name; `None` where
/// the header or the field is absent or cannot be decoded.
pub uninterp spec fn sender_field_of(msg: zbus::Message) -> Option<Seq<char>>;

/// The DESTINATION field of the message's header, a bus name of either kind;
/// `None` where the header or the field is absent or cannot be decoded.
pub uninterp spec fn destination_field_of(msg: zbus::Message) -> Option<BusNameView>;

/// The match rule that a rule text parses to, if it parses.
pub uninterp spec fn parsed_rule_of(text: Seq<char>) -> Option<zbus::OwnedMatchRule>;

/// The outcome of the structural match of a parsed rule on a message; `None`
/// where the match reports an error.
pub uninterp spec fn rule_match_of(rule: zbus::OwnedMatchRule, msg: zbus::Message) -> Option<bool>;

/// Whether the structural criteria of the rule text `filter` match the
/// message: the text parses and the match reports `true`.
pub open spec fn stage_a_of(filter: Seq<char>, msg: zbus::Message) -> bool {
    match parsed_rule_of(filter) {
        Some(rule) => rule_match_of(rule, msg) == Some(true),
        None => false,
    }
}

/// Relies on `zbus::Message::header` and `zbus::MessageHeader::sender`: the
/// SENDER field, converted to a string.
#[verifier::external_body]
fn sender_of(msg: &zbus::Message) -> (r: Option<String>)
    ensures
        opt_string_view(r) == sender_field_of(*msg),
{
    msg.header().ok().and_then(|h| h.sender().ok().flatten().map(|name| name.to_string()))
}

/// Relies on `zbus::Message::header` and `zbus::MessageHeader::destination`:
/// the DESTINATION field, converted to a bus name of the same kind.
#[verifier::external_body]
fn destination_of(msg: &zbus::Message) -> (r: Option<BusName>)
    ensures
        opt_name_view(r) == destination_field_of(*msg),
{
    msg.header().ok().and_then(
        |h|
            h.destination().ok().flatten().map(
                |name| match name {
                    zbus::names::BusName::Unique(u) => BusName::Unique(u.to_string()),
                    zbus::names::BusName::WellKnown(w) => BusName::WellKnown(w.to_string()),
                },
            ),
    )
}

/// Relies on `zbus::OwnedMatchRule::try_from(&str)`: parses the text of a
/// match rule.
#[verifier::external_body]
fn parse_rule(text: &str) -> (r: Option<zbus::OwnedMatchRule>)
    ensures
        r == parsed_rule_of(text@),
{
    zbus::OwnedMatchRule::try_from(text).ok()
}

/// Relies on `zbus::MatchRule::matches`: the structural match of the rule on
/// the message (type, interface, member, path, path namespace, arguments,
/// and the bus-name criteria that are unique names).
#[verifier::external_body]
fn rule_matches(rule: &zbus::OwnedMatchRule, msg: &zbus::Message) -> (r: Option<bool>)
    ensures
        r == rule_match_of(*rule, *msg),
{
    rule.matches(msg).ok()
}

/// The header fields that routing reads. A header that cannot be decoded,
/// or a field that cannot, counts as an absent field.
pub fn routing_header(msg: &zbus::Message) -> (r: RoutingHeader)
    ensures
        r@.sender == sender_field_of(*msg),
        r@.destination == destination_field_of(*msg),
{
    RoutingHeader { sender: sender_of(msg), destination: destination_of(msg) }
}

/// Whether the structural criteria of `rule` match the message. A rule text
/// that does not parse, or a match that reports an error, fails.
pub fn structural_match(rule: &MatchRule, msg: &zbus::Message) -> (r: bool)
    ensures
        r == stage_a_of(rule@.filter, *msg),
{
    match parse_rule(rule.filter.as_str()) {
        Some(parsed) => match rule_matches(&parsed, msg) {
            Some(matched) => matched,
            None => false,
        },
        None => false,
    }
}

/// The structural match of each rule of `bus` on the message, in the order
/// of `bus.match_rules()`.
pub fn structural_matches(bus: &Bus, msg: &zbus::Message) -> (r: Vec<bool>)
    ensures
        r@.len() == bus.rule_order().len(),
        forall|i: int|
            0 <= i < r@.len() ==> r@[i] == stage_a_of(#[trigger] bus.rule_order()[i].filter, *msg),
{
    let rules = bus.match_rules();
    let mut out: Vec<bool> = Vec::new();
    let mut i: usize = 0;
    while i < rules.len()
        invariant
            i <= rules.len(),
            rules@.map_values(|m: MatchRule| m@) == bus.rule_order(),
            out@.len() == i,
            forall|j: int|
                0 <= j < i ==> out@[j] == stage_a_of(#[trigger] bus.rule_order()[j].filter, *msg),
        decreases rules.len() - i,
    {
        assert(bus.rule_order()[i as int] == rules@[i as int]@);
        out.push(structural_match(&rules[i], msg));
        i = i + 1;
    }
    out
}

} // verus!
