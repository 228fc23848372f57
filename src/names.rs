use vstd::prelude::*;

verus! {

/// A bus name: either a unique name, assigned by the broker to one connection
/// for its whole lifetime, or a well-known name, claimed by clients and owned
/// through the name registry.
#[derive(Debug)]
pub enum BusName {
    Unique(String),
    WellKnown(String),
}

/// The mathematical value of a [`BusName`].
pub enum BusNameView {
    Unique(Seq<char>),
    WellKnown(Seq<char>),
}

impl BusNameView {
    /// The text of the name, whichever kind it is.
    pub open spec fn text(self) -> Seq<char> {
        match self {
            BusNameView::Unique(s) => s,
            BusNameView::WellKnown(s) => s,
        }
    }
}

impl View for BusName {
    type V = BusNameView;

    open spec fn view(&self) -> BusNameView {
        match self {
            BusName::Unique(s) => BusNameView::Unique(s@),
            BusName::WellKnown(s) => BusNameView::WellKnown(s@),
        }
    }
}

/// The value of an optional bus name.
pub open spec fn opt_name_view(n: Option<BusName>) -> Option<BusNameView> {
    match n {
        Some(b) => Some(b@),
        None => None,
    }
}

impl BusName {
    /// The text of the name.
    pub fn as_str(&self) -> (r: &str)
        ensures
            r@ == self@.text(),
    {
        match self {
            BusName::Unique(s) => s.as_str(),
            BusName::WellKnown(s) => s.as_str(),
        }
    }

    /// A copy of this name.
    pub fn duplicate(&self) -> (r: BusName)
        ensures
            r@ == self@,
    {
        match self {
            BusName::Unique(s) => BusName::Unique(s.clone()),
            BusName::WellKnown(s) => BusName::WellKnown(s.clone()),
        }
    }

    /// Whether two names are the same name of the same kind.
    pub fn same_as(&self, other: &BusName) -> (r: bool)
        ensures
            r == (self@ == other@),
    {
        match self {
            BusName::Unique(a) => match other {
                BusName::Unique(b) => a.eq(b),
                BusName::WellKnown(_) => false,
            },
            BusName::WellKnown(a) => match other {
                BusName::WellKnown(b) => a.eq(b),
                BusName::Unique(_) => false,
            },
        }
    }
}

/// Whether two optional names are equal.
pub fn same_opt_name(a: &Option<BusName>, b: &Option<BusName>) -> (r: bool)
    ensures
        r == (opt_name_view(*a) == opt_name_view(*b)),
{
    match a {
        Some(x) => match b {
            Some(y) => x.same_as(y),
            None => false,
        },
        None => b.is_none(),
    }
}

/// A copy of an optional name.
pub fn duplicate_opt_name(a: &Option<BusName>) -> (r: Option<BusName>)
    ensures
        opt_name_view(r) == opt_name_view(*a),
{
    match a {
        Some(x) => Some(x.duplicate()),
        None => None,
    }
}

/// Prefix of every unique name handed out by this broker.
pub open spec fn unique_prefix() -> Seq<char> {
    seq![':', 'b', 'u', 's', 'd', '.']
}

/// The character of a decimal digit.
pub open spec fn digit_char(d: nat) -> char
    recommends
        d < 10,
{
    if d == 0 { '0' }
    else if d == 1 { '1' }
    else if d == 2 { '2' }
    else if d == 3 { '3' }
    else if d == 4 { '4' }
    else if d == 5 { '5' }
    else if d == 6 { '6' }
    else if d == 7 { '7' }
    else if d == 8 { '8' }
    else { '9' }
}

/// The decimal representation of `n`, most significant digit first, without
/// leading zeros.
pub open spec fn decimal(n: nat) -> Seq<char>
    decreases n,
{
    if n < 10 {
        seq![digit_char(n)]
    } else {
        decimal(n / 10).push(digit_char(n % 10))
    }
}

/// The unique name assigned to the connection with the given id.
pub open spec fn unique_name_of(id: nat) -> Seq<char> {
    unique_prefix() + decimal(id)
}

/// The one-character text of a decimal digit.
fn digit_str(d: usize) -> (r: &'static str)
    requires
        d < 10,
    ensures
        r@ == seq![digit_char(d as nat)],
{
    proof {
        reveal_strlit("0");
        reveal_strlit("1");
        reveal_strlit("2");
        reveal_strlit("3");
        reveal_strlit("4");
        reveal_strlit("5");
        reveal_strlit("6");
        reveal_strlit("7");
        reveal_strlit("8");
        reveal_strlit("9");
    }
    if d == 0 { "0" }
    else if d == 1 { "1" }
    else if d == 2 { "2" }
    else if d == 3 { "3" }
    else if d == 4 { "4" }
    else if d == 5 { "5" }
    else if d == 6 { "6" }
    else if d == 7 { "7" }
    else if d == 8 { "8" }
    else { "9" }
}

/// Appends the decimal digits of `n` to `s`.
fn append_decimal(s: &mut String, n: usize)
    ensures
        final(s)@ == old(s)@ + decimal(n as nat),
    decreases n,
{
    if n >= 10 {
        append_decimal(s, n / 10);
    }
    s.append(digit_str(n % 10));
    assert(s@ =~= old(s)@ + decimal(n as nat));
}

/// Builds the unique name of the connection with the given id.
pub fn unique_name_for(id: usize) -> (r: String)
    ensures
        r@ == unique_name_of(id as nat),
{
    let mut name = String::from_str(":busd.");
    proof {
        reveal_strlit(":busd.");
    }
    append_decimal(&mut name, id);
    assert(name@ =~= unique_name_of(id as nat));
    name
}

proof fn lemma_digit_char_injective(a: nat, b: nat)
    requires
        a < 10,
        b < 10,
        digit_char(a) == digit_char(b),
    ensures
        a == b,
{
}

proof fn lemma_decimal_injective(a: nat, b: nat)
    requires
        decimal(a) == decimal(b),
    ensures
        a == b,
    decreases a,
{
    if a < 10 && b < 10 {
        assert(decimal(a)[0] == digit_char(a));
        assert(decimal(b)[0] == digit_char(b));
        lemma_digit_char_injective(a, b);
    } else if a >= 10 && b >= 10 {
        let da = decimal(a);
        let db = decimal(b);
        assert(da.last() == digit_char(a % 10));
        assert(db.last() == digit_char(b % 10));
        lemma_digit_char_injective(a % 10, b % 10);
        assert(da.drop_last() =~= decimal(a / 10));
        assert(db.drop_last() =~= decimal(b / 10));
        lemma_decimal_injective(a / 10, b / 10);
    } else if a < 10 {
        lemma_decimal_len(b / 10);
        assert(decimal(b).len() >= 2);
    } else {
        lemma_decimal_len(a / 10);
        assert(decimal(a).len() >= 2);
    }
}

proof fn lemma_decimal_len(n: nat)
    ensures
        decimal(n).len() >= 1,
    decreases n,
{
    if n >= 10 {
        lemma_decimal_len(n / 10);
    }
}

/// Unique names are collision-free: two connections with different ids never
/// receive the same unique name.
pub proof fn lemma_unique_names_distinct(a: nat, b: nat)
    requires
        a != b,
    ensures
        unique_name_of(a) != unique_name_of(b),
{
    if unique_name_of(a) == unique_name_of(b) {
        let p = unique_prefix();
        assert(decimal(a) =~= unique_name_of(a).subrange(p.len() as int, unique_name_of(a).len() as int));
        assert(decimal(b) =~= unique_name_of(b).subrange(p.len() as int, unique_name_of(b).len() as int));
        lemma_decimal_injective(a, b);
    }
}

} // verus!
