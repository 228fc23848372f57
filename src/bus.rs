use vstd::prelude::*;
use crate::flags::RequestNameFlags;
use crate::names::{BusName, BusNameView};
use crate::owners::NameOwners;
use crate::rule::{MatchRule, RuleView};

verus! {

broadcast use vstd::seq_lib::seq_to_set_is_finite;

/// The errors that the bus core interface reports to the calling peer.
#[derive(Debug, Clone, Copy, PartialEq, Eq, Structural)]
pub enum BusError {
    /// `Hello` was called on a connection that had already been greeted.
    CalledMoreThanOnce,
    /// The well-known name given to `GetNameOwner` has no owner.
    NameHasNoOwner,
    /// `RemoveMatch` was given a rule that the connection does not hold.
    MatchRuleNotFound,
}

/// The mathematical value of a [`Bus`].
pub struct BusView {
    pub greeted: bool,
    pub unique_name: Seq<char>,
    pub rules: Set<RuleView>,
}

/// The value of a result carrying a name.
pub open spec fn name_result(r: Result<String, BusError>) -> Result<Seq<char>, BusError> {
    match r {
        Ok(s) => Ok(s@),
        Err(e) => Err(e),
    }
}

/// What `Hello` does: the first call greets the connection and returns its
/// unique name; every later call fails and changes nothing.
pub open spec fn hello_spec(s: BusView) -> (BusView, Result<Seq<char>, BusError>) {
    if s.greeted {
        (s, Err(BusError::CalledMoreThanOnce))
    } else {
        (BusView { greeted: true, ..s }, Ok(s.unique_name))
    }
}

/// The rule set after `AddMatch(r)`: inserting a rule already held changes
/// nothing.
pub open spec fn add_match_spec(rules: Set<RuleView>, r: RuleView) -> Set<RuleView> {
    rules.insert(r)
}

/// The rule set after `RemoveMatch(r)`, or the error it reports.
pub open spec fn remove_match_spec(rules: Set<RuleView>, r: RuleView) -> Result<Set<RuleView>, BusError> {
    if rules.contains(r) {
        Ok(rules.remove(r))
    } else {
        Err(BusError::MatchRuleNotFound)
    }
}

/// What `GetNameOwner` returns: a well-known name resolves to its current
/// owner or fails; a unique name is returned unchanged, whether or not a
/// live connection holds it.
pub open spec fn name_owner_spec(name: BusNameView, owners: Map<Seq<char>, Seq<char>>) -> Result<
    Seq<char>,
    BusError,
> {
    match name {
        BusNameView::WellKnown(w) => if owners.contains_key(w) {
            Ok(owners[w])
        } else {
            Err(BusError::NameHasNoOwner)
        },
        BusNameView::Unique(u) => Ok(u),
    }
}

/// A request to the name registry to make `owner` an owner of `name`.
#[derive(Debug)]
pub struct NameRequest {
    pub name: String,
    pub owner: String,
    pub flags: RequestNameFlags,
}

/// A request to the name registry to drop `owner`'s claim on `name`.
#[derive(Debug)]
pub struct NameRelease {
    pub name: String,
    pub owner: String,
}

/// The state of the bus core interface of one connection: whether it has
/// been greeted, its unique name, and its match rules (a set: no rule is held
/// twice).
#[derive(Debug)]
pub struct Bus {
    greeted: bool,
    unique_name: String,
    rules: Vec<MatchRule>,
}

impl Bus {
    /// The rules in the order in which they are held.
    pub closed spec fn rule_order(&self) -> Seq<RuleView> {
        self.rules@.map_values(|r: MatchRule| r@)
    }

    /// No rule is held twice.
    pub closed spec fn wf(&self) -> bool {
        forall|i: int, j: int|
            0 <= i < j < self.rule_order().len() ==> self.rule_order()[i] != self.rule_order()[j]
    }
}

impl View for Bus {
    type V = BusView;

    closed spec fn view(&self) -> BusView {
        BusView {
            greeted: self.greeted,
            unique_name: self.unique_name@,
            rules: self.rule_order().to_set(),
        }
    }
}

proof fn lemma_push_to_set(s: Seq<RuleView>, x: RuleView)
    ensures
        s.push(x).to_set() == s.to_set().insert(x),
{
    let t = s.push(x);
    assert forall|y: RuleView| #[trigger] t.to_set().contains(y) implies s.to_set().insert(x).contains(y) by {
        let j = choose|j: int| 0 <= j < t.len() && t[j] == y;
        if j < s.len() {
            assert(s[j] == y);
        }
    }
    assert forall|y: RuleView| #[trigger] s.to_set().insert(x).contains(y) implies t.to_set().contains(y) by {
        if y == x {
            assert(t[s.len() as int] == y);
        } else {
            let j = choose|j: int| 0 <= j < s.len() && s[j] == y;
            assert(t[j] == y);
        }
    }
    assert(t.to_set() =~= s.to_set().insert(x));
}

proof fn lemma_remove_to_set(s: Seq<RuleView>, i: int)
    requires
        0 <= i < s.len(),
        forall|a: int, b: int| 0 <= a < b < s.len() ==> s[a] != s[b],
    ensures
        s.remove(i).to_set() == s.to_set().remove(s[i]),
        forall|a: int, b: int| 0 <= a < b < s.remove(i).len() ==> s.remove(i)[a] != s.remove(i)[b],
{
    let t = s.remove(i);
    assert forall|y: RuleView| #[trigger] t.to_set().contains(y) implies s.to_set().remove(s[i]).contains(y) by {
        let j = choose|j: int| 0 <= j < t.len() && t[j] == y;
        if j < i {
            assert(s[j] == y);
        } else {
            assert(s[j + 1] == y);
        }
    }
    assert forall|y: RuleView| #[trigger] s.to_set().remove(s[i]).contains(y) implies t.to_set().contains(y) by {
        let j = choose|j: int| 0 <= j < s.len() && s[j] == y;
        if j < i {
            assert(t[j] == y);
        } else {
            assert(j != i);
            assert(t[j - 1] == y);
        }
    }
    assert(t.to_set() =~= s.to_set().remove(s[i]));
    assert forall|a: int, b: int| 0 <= a < b < t.len() implies t[a] != t[b] by {
        let sa = if a < i { a } else { a + 1 };
        let sb = if b < i { b } else { b + 1 };
        assert(t[a] == s[sa]);
        assert(t[b] == s[sb]);
    }
}

impl Bus {
    /// A fresh, not yet greeted connection with no rules.
    pub fn new(unique_name: String) -> (r: Bus)
        ensures
            r@.greeted == false,
            r@.unique_name == unique_name@,
            r@.rules == Set::<RuleView>::empty(),
            r@.rules.finite(),
            r.wf(),
    {
        let r = Bus { greeted: false, unique_name, rules: Vec::new() };
        assert(r.rule_order().to_set() =~= Set::<RuleView>::empty());
        r
    }

    /// The rules, in the order in which they are held; each once.
    pub fn match_rules(&self) -> (r: &Vec<MatchRule>)
        ensures
            r@.map_values(|m: MatchRule| m@) == self.rule_order(),
            self.rule_order().to_set() == self@.rules,
            self@.rules.finite(),
    {
        &self.rules
    }

    /// The unique name of the connection.
    pub fn unique_name(&self) -> (r: &String)
        ensures
            r@ == self@.unique_name,
    {
        &self.unique_name
    }

    /// Whether `Hello` has been called.
    pub fn greeted(&self) -> (r: bool)
        ensures
            r == self@.greeted,
    {
        self.greeted
    }

    /// `Hello`: returns the connection's unique name the first time, and
    /// fails on every later call.
    pub fn hello(&mut self) -> (r: Result<String, BusError>)
        requires
            old(self).wf(),
        ensures
            final(self).wf(),
            final(self)@.rules.finite(),
            final(self)@ == hello_spec(old(self)@).0,
            name_result(r) == hello_spec(old(self)@).1,
    {
        if self.greeted {
            return Err(BusError::CalledMoreThanOnce);
        }
        self.greeted = true;
        Ok(self.unique_name.clone())
    }

    /// `RequestName`: what to ask of the name registry, with this connection
    /// as the candidate owner. The registry alone decides the reply code.
    pub fn request_name(&self, name: String, flags: RequestNameFlags) -> (r: NameRequest)
        ensures
            r.name@ == name@,
            r.owner@ == self@.unique_name,
            r.flags == flags,
    {
        NameRequest { name, owner: self.unique_name.clone(), flags }
    }

    /// `ReleaseName`: what to ask of the name registry, with this connection
    /// as the claiming owner. The registry alone decides the reply code.
    pub fn release_name(&self, name: String) -> (r: NameRelease)
        ensures
            r.name@ == name@,
            r.owner@ == self@.unique_name,
    {
        NameRelease { name, owner: self.unique_name.clone() }
    }

    /// `GetNameOwner`, against the ownership the registry reports.
    pub fn get_name_owner(&self, name: &BusName, owners: &NameOwners) -> (r: Result<String, BusError>)
        ensures
            name_result(r) == name_owner_spec(name@, owners@),
    {
        match name {
            BusName::WellKnown(w) => match owners.lookup(w) {
                Some(o) => Ok(o),
                None => Err(BusError::NameHasNoOwner),
            },
            BusName::Unique(u) => Ok(u.clone()),
        }
    }

    /// `AddMatch`: inserts the rule; a rule already held is not added twice.
    pub fn add_match(&mut self, rule: MatchRule)
        requires
            old(self).wf(),
        ensures
            final(self).wf(),
            final(self)@.rules.finite(),
            final(self)@ == (BusView { rules: add_match_spec(old(self)@.rules, rule@), ..old(self)@ }),
    {
        let ghost before = self.rule_order();
        let mut i: usize = 0;
        while i < self.rules.len()
            invariant
                i <= self.rules.len(),
                before == self.rule_order(),
                self.wf(),
                *self == *old(self),
                forall|j: int| 0 <= j < i ==> before[j] != rule@,
            decreases self.rules.len() - i,
        {
            if self.rules[i].same_as(&rule) {
                proof {
                    assert(before[i as int] == rule@);
                    assert(before.to_set().insert(rule@) =~= before.to_set());
                }
                return;
            }
            i = i + 1;
        }
        proof {
            lemma_push_to_set(before, rule@);
        }
        self.rules.push(rule);
        assert(self.rule_order() =~= before.push(rule@));
    }

    /// `RemoveMatch`: removes the rule equal to `rule`, or fails if none is
    /// held.
    pub fn remove_match(&mut self, rule: MatchRule) -> (r: Result<(), BusError>)
        requires
            old(self).wf(),
        ensures
            final(self).wf(),
            final(self)@.rules.finite(),
            match remove_match_spec(old(self)@.rules, rule@) {
                Ok(rules) => r is Ok && final(self)@ == (BusView { rules, ..old(self)@ }),
                Err(e) => r == Err::<(), BusError>(e) && final(self)@ == old(self)@,
            },
    {
        let ghost before = self.rule_order();
        let mut i: usize = 0;
        while i < self.rules.len()
            invariant
                i <= self.rules.len(),
                before == self.rule_order(),
                self.wf(),
                *self == *old(self),
                forall|j: int| 0 <= j < i ==> before[j] != rule@,
            decreases self.rules.len() - i,
        {
            if self.rules[i].same_as(&rule) {
                proof {
                    lemma_remove_to_set(before, i as int);
                }
                self.rules.remove(i);
                assert(self.rule_order() =~= before.remove(i as int));
                return Ok(());
            }
            i = i + 1;
        }
        assert(!before.to_set().contains(rule@));
        Err(BusError::MatchRuleNotFound)
    }
}

} // verus!
