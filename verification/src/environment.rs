//! Process environments: unique variables in byte order.
use crate::order;
use crate::order::{compare_bytes, Rank};
use crate::text;
use crate::text::{bytes_equal, copy_bytes, text_bytes};
use vstd::prelude::*;

verus! {

/// A process environment, held in ascending order of variable name.
#[derive(Debug)]
pub struct Environment {
    entries: Vec<(Vec<u8>, Vec<u8>)>,
}

/// Content of a run of entries.
pub open spec fn pairs(entries: Seq<(Vec<u8>, Vec<u8>)>) -> Seq<(Seq<u8>, Seq<u8>)> {
    Seq::new(entries.len(), |i: int| (entries[i].0@, entries[i].1@))
}

/// Names strictly ascend.
pub open spec fn ascending(listing: Seq<(Seq<u8>, Seq<u8>)>) -> bool {
    forall|i: int, j: int|
        0 <= i < j < listing.len() ==> order::bytes_precede(
            (#[trigger] listing[i]).0,
            (#[trigger] listing[j]).0,
        )
}

/// A listing names a variable.
pub open spec fn names(listing: Seq<(Seq<u8>, Seq<u8>)>, name: Seq<u8>) -> bool {
    exists|i: int| 0 <= i < listing.len() && (#[trigger] listing[i]).0 == name
}

/// A place where a listing names a variable.
pub open spec fn place(listing: Seq<(Seq<u8>, Seq<u8>)>, name: Seq<u8>) -> int {
    choose|i: int| 0 <= i < listing.len() && (#[trigger] listing[i]).0 == name
}

/// The assignment that a listing makes.
pub open spec fn assignment(listing: Seq<(Seq<u8>, Seq<u8>)>) -> Map<Seq<u8>, Seq<u8>> {
    Map::new(
        |name: Seq<u8>| names(listing, name),
        |name: Seq<u8>| listing[place(listing, name)].1,
    )
}

/// In an ascending listing each variable has the value it is listed with.
pub proof fn lemma_assignment(listing: Seq<(Seq<u8>, Seq<u8>)>, index: int)
    requires
        ascending(listing),
        0 <= index < listing.len(),
    ensures
        assignment(listing).dom().contains(listing[index].0),
        assignment(listing)[listing[index].0] == listing[index].1,
{
    let name = listing[index].0;
    assert(names(listing, name));
    let chosen = place(listing, name);
    if chosen != index {
        order::lemma_irreflexive(order::key_of(name));
        if chosen < index {
            assert(order::bytes_precede(listing[chosen].0, listing[index].0));
        } else {
            assert(order::bytes_precede(listing[index].0, listing[chosen].0));
        }
    }
}

impl View for Environment {
    type V = Map<Seq<u8>, Seq<u8>>;

    closed spec fn view(&self) -> Map<Seq<u8>, Seq<u8>> {
        assignment(self.listing())
    }
}

impl Environment {
    /// Variables and values in order.
    pub closed spec fn listing(&self) -> Seq<(Seq<u8>, Seq<u8>)> {
        pairs(self.entries@)
    }

    #[verifier::type_invariant]
    spec fn ordered(self) -> bool {
        ascending(pairs(self.entries@))
    }

    /// No variables.
    pub fn empty() -> (environment: Self)
        ensures
            environment@ == Map::<Seq<u8>, Seq<u8>>::empty(),
            environment.listing() == Seq::<(Seq<u8>, Seq<u8>)>::empty(),
    {
        let environment = Environment { entries: Vec::new() };
        assert(environment@ =~= Map::<Seq<u8>, Seq<u8>>::empty());
        environment
    }

    /// Variables in ascending order, each with its value.
    pub fn entries(&self) -> (entries: &Vec<(Vec<u8>, Vec<u8>)>)
        ensures
            pairs(entries@) == self.listing(),
            ascending(self.listing()),
            self@ == assignment(self.listing()),
    {
        proof {
            use_type_invariant(self);
        }
        &self.entries
    }

    /// Assign a variable, replacing any earlier value.
    pub fn insert(&mut self, name: Vec<u8>, value: Vec<u8>)
        ensures
            final(self)@ == old(self)@.insert(name@, value@),
    {
        proof {
            use_type_invariant(&*self);
        }
        let mut entries: Vec<(Vec<u8>, Vec<u8>)> = Vec::new();
        let ghost before = pairs(self.entries@);
        std::mem::swap(&mut entries, &mut self.entries);
        let mut at: usize = 0;
        let mut found: bool = false;
        while at < entries.len()
            invariant_except_break
                !found,
            invariant
                at <= entries.len(),
                pairs(entries@) == before,
                ascending(before),
                forall|i: int|
                    0 <= i < at ==> order::bytes_precede((#[trigger] before[i]).0, name@),
            ensures
                at <= entries.len(),
                found ==> at < entries.len() && before[at as int].0 == name@,
                !found ==> (at < entries.len() ==> order::bytes_precede(
                    name@,
                    before[at as int].0,
                )),
            decreases entries.len() - at,
        {
            match compare_bytes(entries[at].0.as_slice(), name.as_slice()) {
                Rank::Before => {
                    assert(before[at as int].0 == entries@[at as int].0@);
                },
                Rank::Same => {
                    assert(before[at as int].0 == entries@[at as int].0@);
                    found = true;
                    break;
                },
                Rank::After => {
                    assert(before[at as int].0 == entries@[at as int].0@);
                    break;
                },
            }
            at += 1;
        }
        let ghost whole = entries@;
        if found {
            entries.set(at, (name, value));
        } else {
            entries.insert(at, (name, value));
        }
        let ghost after = pairs(entries@);
        proof {
            let index = at as int;
            if found {
                assert(after =~= before.update(index, (name@, value@)));
            } else {
                assert(after =~= before.insert(index, (name@, value@)));
            }
            lemma_insertion(before, after, index, name@, value@, found);
        }
        self.entries = entries;
        assert(self@ =~= old(self)@.insert(name@, value@));
    }

    /// Assign a variable from literals.
    pub fn assign(&mut self, name: &str, value: &str)
        ensures
            final(self)@ == old(self)@.insert(text::word(name), text::word(value)),
    {
        self.insert(text_bytes(name), text_bytes(value));
    }

    /// Whether a variable is assigned.
    pub fn has(&self, name: &str) -> (found: bool)
        ensures
            found == self@.dom().contains(text::word(name)),
    {
        proof {
            use_type_invariant(self);
        }
        let ghost listing = self.listing();
        let mut index: usize = 0;
        while index < self.entries.len()
            invariant
                index <= self.entries.len(),
                listing == pairs(self.entries@),
                self@ == assignment(listing),
                ascending(listing),
                forall|i: int| 0 <= i < index ==> (#[trigger] listing[i]).0 != text::word(name),
            decreases self.entries.len() - index,
        {
            if bytes_equal(self.entries[index].0.as_slice(), name.as_bytes()) {
                proof {
                    lemma_assignment(listing, index as int);
                }
                return true;
            }
            index += 1;
        }
        assert(!names(listing, text::word(name)));
        false
    }

    /// Assign every variable of another environment.
    pub fn extend(&mut self, other: &Environment)
        ensures
            final(self)@ == old(self)@.union_prefer_right(other@),
    {
        proof {
            use_type_invariant(other);
        }
        let ghost listing = other.listing();
        let mut index: usize = 0;
        assert(assignment(listing.take(0)) =~= Map::<Seq<u8>, Seq<u8>>::empty());
        assert(self@ =~= old(self)@.union_prefer_right(assignment(listing.take(0))));
        while index < other.entries.len()
            invariant
                index <= other.entries.len(),
                listing == pairs(other.entries@),
                ascending(listing),
                self@ =~= old(self)@.union_prefer_right(assignment(listing.take(index as int))),
            decreases other.entries.len() - index,
        {
            let name = copy_bytes(other.entries[index].0.as_slice());
            let value = copy_bytes(other.entries[index].1.as_slice());
            proof {
                let shorter = listing.take(index as int);
                let longer = listing.take(index + 1);
                assert(listing[index as int] == (name@, value@));
                assert(longer =~= shorter.push((name@, value@)));
                lemma_growth(shorter, longer, name@, value@);
            }
            self.insert(name, value);
            index += 1;
        }
        assert(listing.take(index as int) =~= listing);
    }
}

proof fn lemma_insertion(
    before: Seq<(Seq<u8>, Seq<u8>)>,
    after: Seq<(Seq<u8>, Seq<u8>)>,
    index: int,
    name: Seq<u8>,
    value: Seq<u8>,
    found: bool,
)
    requires
        ascending(before),
        0 <= index <= before.len(),
        forall|i: int| 0 <= i < index ==> order::bytes_precede((#[trigger] before[i]).0, name),
        found ==> index < before.len() && before[index].0 == name,
        !found ==> (index < before.len() ==> order::bytes_precede(name, before[index].0)),
        found ==> after == before.update(index, (name, value)),
        !found ==> after == before.insert(index, (name, value)),
    ensures
        ascending(after),
        assignment(after) == assignment(before).insert(name, value),
{
    if found {
        assert(ascending(after));
    } else {
        assert forall|i: int, j: int| 0 <= i < j < after.len() implies order::bytes_precede(
            (#[trigger] after[i]).0,
            (#[trigger] after[j]).0,
        ) by {
            if j == index {
                assert(after[i] == before[i]);
            } else if i == index {
                assert(after[j] == before[j - 1]);
                if j - 1 > index {
                    assert(order::bytes_precede(before[index].0, before[j - 1].0));
                    order::lemma_transitive(
                        order::key_of(name),
                        order::key_of(before[index].0),
                        order::key_of(before[j - 1].0),
                    );
                }
            } else {
                let bi = if i < index {
                    i
                } else {
                    i - 1
                };
                let bj = if j < index {
                    j
                } else {
                    j - 1
                };
                assert(after[i] == before[bi]);
                assert(after[j] == before[bj]);
            }
        }
    }
    assert forall|n: Seq<u8>| names(after, n) == (n == name || names(before, n)) by {
        if names(after, n) {
            let i = choose|i: int| 0 <= i < after.len() && (#[trigger] after[i]).0 == n;
            if i != index {
                let bi = if found || i < index {
                    i
                } else {
                    i - 1
                };
                assert(before[bi] == after[i]);
            }
        }
        if names(before, n) {
            let i = choose|i: int| 0 <= i < before.len() && (#[trigger] before[i]).0 == n;
            let ai = if found || i < index {
                i
            } else {
                i + 1
            };
            if !(found && i == index) {
                assert(after[ai] == before[i]);
            } else {
                assert(after[index].0 == name);
            }
        }
        assert(after[index].0 == name);
    }
    assert forall|n: Seq<u8>| names(after, n) implies assignment(after)[n] == #[trigger] assignment(
        before,
    ).insert(name, value)[n] by {
        let i = choose|i: int| 0 <= i < after.len() && (#[trigger] after[i]).0 == n;
        lemma_assignment(after, i);
        if i == index {
        } else {
            let bi = if found || i < index {
                i
            } else {
                i - 1
            };
            assert(before[bi] == after[i]);
            lemma_assignment(before, bi);
            order::lemma_irreflexive(order::key_of(name));
            if i < index {
                assert(order::bytes_precede(after[i].0, after[index].0));
            } else {
                assert(order::bytes_precede(after[index].0, after[i].0));
            }
        }
    }
    assert(assignment(after) =~= assignment(before).insert(name, value));
}

proof fn lemma_growth(
    shorter: Seq<(Seq<u8>, Seq<u8>)>,
    longer: Seq<(Seq<u8>, Seq<u8>)>,
    name: Seq<u8>,
    value: Seq<u8>,
)
    requires
        longer == shorter.push((name, value)),
        ascending(longer),
    ensures
        assignment(longer) == assignment(shorter).insert(name, value),
{
    assert forall|i: int, j: int| 0 <= i < j < shorter.len() implies order::bytes_precede(
        (#[trigger] shorter[i]).0,
        (#[trigger] shorter[j]).0,
    ) by {
        assert(longer[i] == shorter[i]);
        assert(longer[j] == shorter[j]);
    }
    assert forall|i: int| 0 <= i < shorter.len() implies order::bytes_precede(
        (#[trigger] shorter[i]).0,
        name,
    ) by {
        assert(longer[i] == shorter[i]);
        assert(longer[shorter.len() as int].0 == name);
    }
    assert(longer =~= shorter.insert(shorter.len() as int, (name, value)));
    lemma_insertion(shorter, longer, shorter.len() as int, name, value, false);
}

} // verus!
