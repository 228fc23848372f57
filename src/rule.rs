use vstd::prelude::*;
use crate::names::{BusName, BusNameView, opt_name_view, same_opt_name, duplicate_opt_name};
use crate::owners::NameOwners;

verus! {

/// A match rule: a filter describing which messages a connection wants
/// forwarded to it. `sender` is a bus-name criterion of either kind;
/// `destination` is always a unique name;
/// `filter` is the canonical text of the rule's remaining criteria (message
/// type, interface, member, path, path namespace, argument predicates).
/// Two rules are equal exactly when all three parts are equal.
#[derive(Debug)]
pub struct MatchRule {
    pub sender: Option<BusName>,
    pub destination: Option<String>,
    pub filter: String,
}

/// The mathematical value of a [`MatchRule`].
pub struct RuleView {
    pub sender: Option<BusNameView>,
    pub destination: Option<Seq<char>>,
    pub filter: Seq<char>,
}

impl View for MatchRule {
    type V = RuleView;

    open spec fn view(&self) -> RuleView {
        RuleView {
            sender: opt_name_view(self.sender),
            destination: opt_string_view(self.destination),
            filter: self.filter@,
        }
    }
}

/// The header fields of a message that routing reads: the sender's unique
/// name and the destination bus name, either of which may be absent.
#[derive(Debug)]
pub struct RoutingHeader {
    pub sender: Option<String>,
    pub destination: Option<BusName>,
}

/// The mathematical value of a [`RoutingHeader`].
pub struct HeaderView {
    pub sender: Option<Seq<char>>,
    pub destination: Option<BusNameView>,
}

impl View for RoutingHeader {
    type V = HeaderView;

    open spec fn view(&self) -> HeaderView {
        HeaderView {
            sender: opt_string_view(self.sender),
            destination: opt_name_view(self.destination),
        }
    }
}

/// The value of an optional string.
pub open spec fn opt_string_view(s: Option<String>) -> Option<Seq<char>> {
    match s {
        Some(x) => Some(x@),
        None => None,
    }
}

/// A copy of an optional string.
fn duplicate_opt_string(a: &Option<String>) -> (r: Option<String>)
    ensures
        opt_string_view(r) == opt_string_view(*a),
{
    match a {
        Some(x) => Some(x.clone()),
        None => None,
    }
}

/// Whether two optional strings are equal.
fn same_opt_string(a: &Option<String>, b: &Option<String>) -> (r: bool)
    ensures
        r == (opt_string_view(*a) == opt_string_view(*b)),
{
    match a {
        Some(x) => match b {
            Some(y) => x.eq(y),
            None => false,
        },
        None => b.is_none(),
    }
}

/// A header field that a rule needed was absent from the message.
#[derive(Debug, Clone, Copy, PartialEq, Eq, Structural)]
pub enum HeaderError {
    MissingSender,
    MissingDestination,
}

/// The destination stage of a rule's well-known-name resolution.
pub open spec fn destination_outcome(
    rule: RuleView,
    hdr: HeaderView,
    owners: Map<Seq<char>, Seq<char>>,
) -> Result<bool, HeaderError> {
    match rule.destination {
        None => Ok(true),
        Some(d) => match hdr.destination {
            None => Err(HeaderError::MissingDestination),
            Some(BusNameView::Unique(_)) => Ok(true),
            Some(BusNameView::WellKnown(w)) => Ok(
                owners.contains_key(w) && owners[w] == d,
            ),
        },
    }
}

/// What resolving a rule's bus-name criteria against the current name
/// ownership gives, once the rule's structural criteria have matched:
/// - a well-known sender criterion `W` passes only if `W` is owned and the
///   message's sender is its owner;
/// - with a destination criterion, a message sent to a well-known name passes
///   only if that name is owned by the unique name the criterion gives; one
///   sent to a unique name passes (the structural match decided it);
/// - an absent header field that a criterion needs is an error.
pub open spec fn rule_outcome(
    rule: RuleView,
    hdr: HeaderView,
    owners: Map<Seq<char>, Seq<char>>,
) -> Result<bool, HeaderError> {
    match rule.sender {
        Some(BusNameView::WellKnown(w)) => {
            if !owners.contains_key(w) {
                Ok(false)
            } else {
                match hdr.sender {
                    None => Err(HeaderError::MissingSender),
                    Some(s) => if s != owners[w] {
                        Ok(false)
                    } else {
                        destination_outcome(rule, hdr, owners)
                    },
                }
            }
        },
        _ => destination_outcome(rule, hdr, owners),
    }
}

/// Whether the rule's bus-name criteria pass; a missing header field fails
/// the rule.
pub open spec fn rule_admits(
    rule: RuleView,
    hdr: HeaderView,
    owners: Map<Seq<char>, Seq<char>>,
) -> bool {
    rule_outcome(rule, hdr, owners) == Ok::<bool, HeaderError>(true)
}

impl MatchRule {
    /// A copy of this rule.
    pub fn duplicate(&self) -> (r: MatchRule)
        ensures
            r@ == self@,
    {
        MatchRule {
            sender: duplicate_opt_name(&self.sender),
            destination: duplicate_opt_string(&self.destination),
            filter: self.filter.clone(),
        }
    }

    /// Whether two rules are equal, part for part.
    pub fn same_as(&self, other: &MatchRule) -> (r: bool)
        ensures
            r == (self@ == other@),
    {
        same_opt_name(&self.sender, &other.sender)
            && same_opt_string(&self.destination, &other.destination)
            && self.filter.eq(&other.filter)
    }

    fn destination_outcome(&self, hdr: &RoutingHeader, owners: &NameOwners) -> (r: Result<
        bool,
        HeaderError,
    >)
        ensures
            r == destination_outcome(self@, hdr@, owners@),
    {
        match &self.destination {
            None => Ok(true),
            Some(d) => match &hdr.destination {
                None => Err(HeaderError::MissingDestination),
                Some(BusName::Unique(_)) => Ok(true),
                Some(BusName::WellKnown(w)) => match owners.lookup(w) {
                    Some(o) => Ok(o.eq(d)),
                    None => Ok(false),
                },
            },
        }
    }

    /// Resolves the rule's well-known-name criteria against `owners`.
    pub fn resolve(&self, hdr: &RoutingHeader, owners: &NameOwners) -> (r: Result<bool, HeaderError>)
        ensures
            r == rule_outcome(self@, hdr@, owners@),
    {
        match &self.sender {
            Some(BusName::WellKnown(w)) => match owners.lookup(w) {
                None => Ok(false),
                Some(o) => match &hdr.sender {
                    None => Err(HeaderError::MissingSender),
                    Some(s) => if !s.eq(&o) {
                        Ok(false)
                    } else {
                        self.destination_outcome(hdr, owners)
                    },
                },
            },
            _ => self.destination_outcome(hdr, owners),
        }
    }
}

} // verus!
