use vstd::prelude::*;

verus! {

/// The owner of `name` recorded in `entries`: the last entry for that name
/// wins.
pub open spec fn owner_in(entries: Seq<(Seq<char>, Seq<char>)>, name: Seq<char>) -> Option<Seq<char>>
    decreases entries.len(),
{
    if entries.len() == 0 {
        None
    } else if entries.last().0 == name {
        Some(entries.last().1)
    } else {
        owner_in(entries.drop_last(), name)
    }
}

/// The ownership of well-known names as the name registry reported it for
/// one evaluation: a map from well-known name to the unique name of its
/// current primary owner. Names absent from the map have no owner.
pub struct NameOwners {
    entries: Vec<(String, String)>,
}

impl NameOwners {
    pub closed spec fn entry_views(&self) -> Seq<(Seq<char>, Seq<char>)> {
        self.entries@.map_values(|e: (String, String)| (e.0@, e.1@))
    }
}

impl View for NameOwners {
    type V = Map<Seq<char>, Seq<char>>;

    closed spec fn view(&self) -> Map<Seq<char>, Seq<char>> {
        Map::new(
            |k: Seq<char>| owner_in(self.entry_views(), k).is_some(),
            |k: Seq<char>| owner_in(self.entry_views(), k).unwrap(),
        )
    }
}

impl NameOwners {
    /// No name has an owner.
    pub fn new() -> (r: NameOwners)
        ensures
            r@ == Map::<Seq<char>, Seq<char>>::empty(),
    {
        let r = NameOwners { entries: Vec::new() };
        assert(r@ =~= Map::<Seq<char>, Seq<char>>::empty());
        r
    }

    /// Records that `name` is owned by the unique name `owner`.
    pub fn insert(&mut self, name: String, owner: String)
        ensures
            final(self)@ == old(self)@.insert(name@, owner@),
    {
        let ghost n = name@;
        let ghost o = owner@;
        self.entries.push((name, owner));
        assert(self.entry_views().drop_last() =~= old(self).entry_views());
        assert(self@ =~= old(self)@.insert(n, o));
    }

    /// The current owner of the well-known name `name`, if any.
    pub fn lookup(&self, name: &String) -> (r: Option<String>)
        ensures
            match r {
                Some(o) => self@.contains_key(name@) && self@[name@] == o@,
                None => !self@.contains_key(name@),
            },
    {
        let ghost all = self.entry_views();
        let mut i: usize = self.entries.len();
        assert(all.subrange(0, i as int) =~= all);
        while i > 0
            invariant
                i <= self.entries.len(),
                all == self.entry_views(),
                owner_in(all, name@) == owner_in(all.subrange(0, i as int), name@),
            decreases i,
        {
            let e = &self.entries[i - 1];
            let ghost pre = all.subrange(0, i as int);
            assert(pre.drop_last() =~= all.subrange(0, i - 1));
            assert(pre.last() == (e.0@, e.1@));
            if e.0.eq(name) {
                return Some(e.1.clone());
            }
            i = i - 1;
        }
        assert(all.subrange(0, 0) =~= Seq::<(Seq<char>, Seq<char>)>::empty());
        None
    }
}

} // verus!
