use vstd::prelude::*;
use crate::bus::Bus;
use crate::names::{BusName, BusNameView, unique_name_for, unique_name_of};
use crate::owners::NameOwners;
use crate::rule::{HeaderView, MatchRule, RoutingHeader, RuleView, rule_admits};

verus! {

/// Whether a connection holding `rules` wants a message: some rule whose
/// structural criteria matched the message (`structural[i]` for the rule at
/// position `i`) also passes its bus-name criteria against `owners`.
pub open spec fn interested_spec(
    rules: Seq<RuleView>,
    structural: Seq<bool>,
    hdr: HeaderView,
    owners: Map<Seq<char>, Seq<char>>,
) -> bool {
    exists|i: int|
        0 <= i < rules.len() && i < structural.len() && #[trigger] structural[i] && rule_admits(
            rules[i],
            hdr,
            owners,
        )
}

/// Whether rule `i` reads the owner of the well-known name `w`: its
/// structural criteria matched the message, and either its sender criterion
/// is `w`, or it has a destination criterion and the message is sent to `w`.
pub open spec fn rule_reads_owner_of(
    rules: Seq<RuleView>,
    structural: Seq<bool>,
    hdr: HeaderView,
    i: int,
    w: Seq<char>,
) -> bool {
    0 <= i < rules.len() && i < structural.len() && structural[i] && (rules[i].sender == Some(
        BusNameView::WellKnown(w),
    ) || (rules[i].destination is Some && hdr.destination == Some(BusNameView::WellKnown(w))))
}

/// Whether evaluating `rules` on a message with header `hdr`, whose
/// structural match gave `structural`, reads the owner of the well-known
/// name `w`.
pub open spec fn needs_owner_of(
    rules: Seq<RuleView>,
    structural: Seq<bool>,
    hdr: HeaderView,
    w: Seq<char>,
) -> bool {
    exists|i: int| #[trigger] rule_reads_owner_of(rules, structural, hdr, i, w)
}

/// The texts of a sequence of strings.
pub open spec fn string_views(v: Seq<String>) -> Seq<Seq<char>> {
    v.map_values(|s: String| s@)
}

/// Two ownership maps agree on the name `w`.
pub open spec fn agree_on(a: Map<Seq<char>, Seq<char>>, b: Map<Seq<char>, Seq<char>>, w: Seq<char>) -> bool {
    a.contains_key(w) == b.contains_key(w) && (a.contains_key(w) ==> a[w] == b[w])
}

/// The routing decision reads the ownership of the names that
/// `needs_owner_of` gives and of no other: two ownership maps that agree on
/// those names give the same decision.
pub proof fn lemma_interested_reads_needed_names(
    rules: Seq<RuleView>,
    structural: Seq<bool>,
    hdr: HeaderView,
    a: Map<Seq<char>, Seq<char>>,
    b: Map<Seq<char>, Seq<char>>,
)
    requires
        forall|w: Seq<char>| needs_owner_of(rules, structural, hdr, w) ==> #[trigger] agree_on(a, b, w),
    ensures
        interested_spec(rules, structural, hdr, a) == interested_spec(rules, structural, hdr, b),
{
    assert forall|i: int| 0 <= i < rules.len() && i < structural.len() && structural[i] implies rule_admits(
        #[trigger] rules[i],
        hdr,
        a,
    ) == rule_admits(rules[i], hdr, b) by {
        if let Some(BusNameView::WellKnown(w)) = rules[i].sender {
            assert(rule_reads_owner_of(rules, structural, hdr, i, w));
            assert(agree_on(a, b, w));
        }
        if let Some(BusNameView::WellKnown(w)) = hdr.destination {
            if rules[i].destination is Some {
                assert(rule_reads_owner_of(rules, structural, hdr, i, w));
                assert(agree_on(a, b, w));
            }
        }
    }
    if interested_spec(rules, structural, hdr, a) {
        let i = choose|i: int|
            0 <= i < rules.len() && i < structural.len() && #[trigger] structural[i] && rule_admits(
                rules[i],
                hdr,
                a,
            );
        assert(rule_admits(rules[i], hdr, b));
    }
    if interested_spec(rules, structural, hdr, b) {
        let i = choose|i: int|
            0 <= i < rules.len() && i < structural.len() && #[trigger] structural[i] && rule_admits(
                rules[i],
                hdr,
                b,
            );
        assert(rule_admits(rules[i], hdr, a));
    }
}

/// A peer connection, known to the routing logic by its unique name.
#[derive(Debug)]
pub struct Peer {
    unique_name: String,
}

impl View for Peer {
    type V = Seq<char>;

    closed spec fn view(&self) -> Seq<char> {
        self.unique_name@
    }
}

impl Peer {
    /// The peer of the connection with the given id; its unique name is
    /// derived from the id.
    pub fn new(id: usize) -> (r: Peer)
        ensures
            r@ == unique_name_of(id as nat),
    {
        Peer { unique_name: unique_name_for(id) }
    }

    /// The unique name of this peer.
    pub fn unique_name(&self) -> (r: &String)
        ensures
            r@ == self@,
    {
        &self.unique_name
    }

    /// The well-known names whose owners evaluating the rules of `bus` on a
    /// message with header `hdr` reads, given the structural match of each
    /// rule (`structural`, in the order of `bus.match_rules()`): exactly the
    /// names for which `needs_owner_of` holds. With no rules, or no rule that
    /// matched structurally, there are none.
    pub fn names_to_resolve(&self, bus: &Bus, hdr: &RoutingHeader, structural: &Vec<bool>) -> (r: Vec<
        String,
    >)
        ensures
            forall|w: Seq<char>|
                needs_owner_of(bus.rule_order(), structural@, hdr@, w) <==> #[trigger] string_views(
                    r@,
                ).contains(w),
    {
        let rules = bus.match_rules();
        let ghost order = bus.rule_order();
        let mut names: Vec<String> = Vec::new();
        let mut i: usize = 0;
        while i < rules.len()
            invariant
                i <= rules.len(),
                rules@.map_values(|m: MatchRule| m@) == order,
                order == bus.rule_order(),
                forall|w: Seq<char>|
                    (exists|j: int| 0 <= j < i && #[trigger] rule_reads_owner_of(order, structural@, hdr@, j, w))
                        <==> #[trigger] string_views(names@).contains(w),
            decreases rules.len() - i,
        {
            let ghost before = string_views(names@);
            assert(order[i as int] == rules@[i as int]@);
            if i < structural.len() && structural[i] {
                if let Some(BusName::WellKnown(w)) = &rules[i].sender {
                    names.push(w.clone());
                    assert(string_views(names@) =~= before.push(w@));
                }
                let ghost mid = string_views(names@);
                if rules[i].destination.is_some() {
                    if let Some(BusName::WellKnown(w)) = &hdr.destination {
                        names.push(w.clone());
                        assert(string_views(names@) =~= mid.push(w@));
                    }
                }
            }
            let ghost after = string_views(names@);
            assert forall|w: Seq<char>|
                (exists|j: int| 0 <= j < i + 1 && #[trigger] rule_reads_owner_of(order, structural@, hdr@, j, w))
                    <==> #[trigger] after.contains(w) by {
                if after.contains(w) && !before.contains(w) {
                    let k = choose|k: int| 0 <= k < after.len() && after[k] == w;
                    assert(k >= before.len());
                    assert(rule_reads_owner_of(order, structural@, hdr@, i as int, w));
                }
                if before.contains(w) {
                    let k = choose|k: int| 0 <= k < before.len() && before[k] == w;
                    assert(after[k] == w);
                }
                if rule_reads_owner_of(order, structural@, hdr@, i as int, w) {
                    if order[i as int].sender == Some(BusNameView::WellKnown(w)) {
                        assert(after[before.len() as int] == w);
                    } else {
                        assert(after[after.len() - 1] == w);
                    }
                }
            }
            i = i + 1;
        }
        names
    }

    /// Whether this peer wants the message with header `hdr`, given the rules
    /// of its bus core interface `bus`, the outcome of each rule's structural
    /// match on the message (`structural`, in the order of
    /// `bus.match_rules()`; a rule without an outcome fails), and the name
    /// ownership the registry reports now. A rule that needs a header field
    /// the message lacks fails.
    pub fn interested(
        &self,
        bus: &Bus,
        hdr: &RoutingHeader,
        structural: &Vec<bool>,
        owners: &NameOwners,
    ) -> (r: bool)
        ensures
            r == interested_spec(bus.rule_order(), structural@, hdr@, owners@),
    {
        let rules = bus.match_rules();
        let ghost order = bus.rule_order();
        let mut i: usize = 0;
        while i < rules.len()
            invariant
                i <= rules.len(),
                rules@.map_values(|m: MatchRule| m@) == order,
                order == bus.rule_order(),
                forall|j: int|
                    0 <= j < i ==> !(j < structural@.len() && #[trigger] structural@[j] && rule_admits(
                        order[j],
                        hdr@,
                        owners@,
                    )),
            decreases rules.len() - i,
        {
            if i < structural.len() && structural[i] {
                let outcome = rules[i].resolve(hdr, owners);
                let admitted = match outcome {
                    Ok(b) => b,
                    Err(_) => false,
                };
                if admitted {
                    assert(order[i as int] == rules@[i as int]@);
                    assert(rule_admits(order[i as int], hdr@, owners@));
                    assert(structural@[i as int]);
                    return true;
                }
            }
            assert(order[i as int] == rules@[i as int]@);
            i = i + 1;
        }
        assert forall|j: int|
            0 <= j < order.len() && j < structural@.len() && #[trigger] structural@[j] implies !rule_admits(
            order[j],
            hdr@,
            owners@,
        ) by {}
        false
    }
}

} // verus!
