//! Laws relating the operations of the bus core interface and the routing
//! predicate, stated over the specification functions that their contracts
//! use.

use vstd::prelude::*;
use crate::bus::{
    BusError, BusView, add_match_spec, hello_spec, name_owner_spec, remove_match_spec,
};
use crate::names::BusNameView;
use crate::peer::interested_spec;
use crate::rule::{HeaderView, RuleView, rule_admits};

verus! {

/// `Hello` succeeds exactly once per connection: on a connection not yet
/// greeted it returns the unique name and greets it; from then on every call
/// fails with "called more than once", leaves the state as it is (so the
/// connection stays greeted), and the same holds of the next call.
pub proof fn lemma_hello_once(s: BusView)
    ensures
        !s.greeted ==> hello_spec(s).1 == Ok::<Seq<char>, BusError>(s.unique_name),
        !s.greeted ==> hello_spec(s).0.greeted,
        !s.greeted ==> hello_spec(hello_spec(s).0).1 == Err::<Seq<char>, BusError>(
            BusError::CalledMoreThanOnce,
        ),
        s.greeted ==> hello_spec(s).0 == s,
        s.greeted ==> hello_spec(s).1 == Err::<Seq<char>, BusError>(BusError::CalledMoreThanOnce),
        hello_spec(s).0.greeted,
        hello_spec(s).0.unique_name == s.unique_name,
        hello_spec(s).0.rules == s.rules,
{
}

/// An operation of the bus core interface that may change its state.
/// `GetNameOwner`, `RequestName` and `ReleaseName` read the state only, and
/// leave it as it is.
pub enum BusOp {
    Hello,
    AddMatch(RuleView),
    RemoveMatch(RuleView),
}

/// The state after one operation, as the operations' contracts give it.
pub open spec fn apply_op(s: BusView, op: BusOp) -> BusView {
    match op {
        BusOp::Hello => hello_spec(s).0,
        BusOp::AddMatch(r) => BusView { rules: add_match_spec(s.rules, r), ..s },
        BusOp::RemoveMatch(r) => match remove_match_spec(s.rules, r) {
            Ok(rules) => BusView { rules, ..s },
            Err(_) => s,
        },
    }
}

/// The state after a sequence of operations.
pub open spec fn run_ops(s: BusView, ops: Seq<BusOp>) -> BusView
    decreases ops.len(),
{
    if ops.len() == 0 {
        s
    } else {
        apply_op(run_ops(s, ops.drop_last()), ops.last())
    }
}

/// How many calls of `Hello` in a sequence of operations succeed.
pub open spec fn hello_successes(s: BusView, ops: Seq<BusOp>) -> nat
    decreases ops.len(),
{
    if ops.len() == 0 {
        0
    } else {
        hello_successes(s, ops.drop_last()) + if ops.last() is Hello && hello_spec(
            run_ops(s, ops.drop_last()),
        ).1 is Ok {
            1nat
        } else {
            0nat
        }
    }
}

/// Over any sequence of operations on a connection, `greeted` never goes
/// back to false and the unique name never changes; starting from a
/// connection not yet greeted, exactly one `Hello` succeeds if the sequence
/// holds any, and the connection is greeted exactly then; starting from a
/// greeted one, none does.
pub proof fn lemma_hello_once_over_any_sequence(s: BusView, ops: Seq<BusOp>)
    ensures
        run_ops(s, ops).unique_name == s.unique_name,
        s.greeted ==> run_ops(s, ops).greeted && hello_successes(s, ops) == 0,
        !s.greeted ==> (run_ops(s, ops).greeted <==> exists|i: int|
            0 <= i < ops.len() && #[trigger] ops[i] is Hello),
        !s.greeted ==> hello_successes(s, ops) == if exists|i: int|
            0 <= i < ops.len() && #[trigger] ops[i] is Hello {
            1nat
        } else {
            0nat
        },
    decreases ops.len(),
{
    if ops.len() > 0 {
        let pre = ops.drop_last();
        lemma_hello_once_over_any_sequence(s, pre);
        assert forall|i: int| 0 <= i < pre.len() implies pre[i] == ops[i] by {}
        if exists|i: int| 0 <= i < pre.len() && #[trigger] pre[i] is Hello {
            let i = choose|i: int| 0 <= i < pre.len() && #[trigger] pre[i] is Hello;
            assert(ops[i] is Hello);
        }
        if ops.last() is Hello {
            assert(ops[ops.len() - 1] is Hello);
        }
        if exists|i: int| 0 <= i < ops.len() && #[trigger] ops[i] is Hello {
            let i = choose|i: int| 0 <= i < ops.len() && #[trigger] ops[i] is Hello;
            if i < ops.len() - 1 {
                assert(pre[i] is Hello);
            }
        }
    }
}

/// Adding a rule that was not held and then removing it gives back the rule
/// set from before; removing a rule that is not held fails with "rule not
/// found".
pub proof fn lemma_add_then_remove(rules: Set<RuleView>, r: RuleView)
    requires
        !rules.contains(r),
    ensures
        remove_match_spec(add_match_spec(rules, r), r) == Ok::<Set<RuleView>, BusError>(rules),
        remove_match_spec(rules, r) == Err::<Set<RuleView>, BusError>(BusError::MatchRuleNotFound),
{
    assert(add_match_spec(rules, r).remove(r) =~= rules);
}

/// Adding the same rule twice gives the same set as adding it once.
pub proof fn lemma_add_match_idempotent(rules: Set<RuleView>, r: RuleView)
    ensures
        add_match_spec(add_match_spec(rules, r), r) == add_match_spec(rules, r),
{
    assert(add_match_spec(add_match_spec(rules, r), r) =~= add_match_spec(rules, r));
}

/// `GetNameOwner` on a well-known name fails with "no owner" exactly when the
/// registry reports no owner for it; on a unique name it returns that name
/// unchanged, whatever the registry says.
pub proof fn lemma_name_owner(name: Seq<char>, owners: Map<Seq<char>, Seq<char>>)
    ensures
        (name_owner_spec(BusNameView::WellKnown(name), owners) == Err::<Seq<char>, BusError>(
            BusError::NameHasNoOwner,
        )) <==> !owners.contains_key(name),
        owners.contains_key(name) ==> name_owner_spec(BusNameView::WellKnown(name), owners) == Ok::<
            Seq<char>,
            BusError,
        >(owners[name]),
        name_owner_spec(BusNameView::Unique(name), owners) == Ok::<Seq<char>, BusError>(name),
{
}

/// A connection without rules wants no message.
pub proof fn lemma_no_rules_not_interested(
    structural: Seq<bool>,
    hdr: HeaderView,
    owners: Map<Seq<char>, Seq<char>>,
)
    ensures
        !interested_spec(Seq::<RuleView>::empty(), structural, hdr, owners),
{
}

/// A rule with a destination criterion fails on a message sent to a
/// well-known name that has no owner; a connection all of whose rules are
/// such wants no such message.
pub proof fn lemma_unowned_destination_not_interested(
    rules: Seq<RuleView>,
    structural: Seq<bool>,
    hdr: HeaderView,
    owners: Map<Seq<char>, Seq<char>>,
    w: Seq<char>,
)
    requires
        hdr.destination == Some(BusNameView::WellKnown(w)),
        !owners.contains_key(w),
        forall|i: int| 0 <= i < rules.len() ==> (#[trigger] rules[i]).destination is Some,
    ensures
        forall|i: int| 0 <= i < rules.len() ==> !rule_admits(#[trigger] rules[i], hdr, owners),
        !interested_spec(rules, structural, hdr, owners),
{
}

/// A rule whose only bus-name criterion is the well-known sender `w` passes
/// exactly when the registry reports `w` owned by some unique name and the
/// message's sender is that name; a connection holding only that rule, whose
/// structural criteria matched, wants the message exactly then.
pub proof fn lemma_well_known_sender(
    rule: RuleView,
    hdr: HeaderView,
    owners: Map<Seq<char>, Seq<char>>,
    w: Seq<char>,
)
    requires
        rule.sender == Some(BusNameView::WellKnown(w)),
        rule.destination is None,
    ensures
        rule_admits(rule, hdr, owners) <==> (exists|u: Seq<char>|
            owners.contains_key(w) && owners[w] == u && hdr.sender == Some(u)),
        interested_spec(seq![rule], seq![true], hdr, owners) <==> (exists|u: Seq<char>|
            owners.contains_key(w) && owners[w] == u && hdr.sender == Some(u)),
{
    if owners.contains_key(w) && hdr.sender == Some(owners[w]) {
        assert(seq![true][0]);
        assert(seq![rule][0] == rule);
    }
    if interested_spec(seq![rule], seq![true], hdr, owners) {
        let i = choose|i: int|
            0 <= i < seq![rule].len() && i < seq![true].len() && #[trigger] seq![true][i]
                && rule_admits(seq![rule][i], hdr, owners);
        assert(i == 0);
    }
}

} // verus!
