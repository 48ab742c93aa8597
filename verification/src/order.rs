//! Lexicographic order on byte strings and integer keys.
use vstd::prelude::*;

verus! {

/// Outcome of a three-way comparison.
#[derive(Clone, Copy, Debug, PartialEq, Eq, Structural)]
pub enum Rank {
    Before,
    Same,
    After,
}

/// Strict lexicographic order: a proper prefix precedes its extensions.
pub open spec fn precedes(left: Seq<int>, right: Seq<int>) -> bool
    decreases left.len(),
{
    if right.len() == 0 {
        false
    } else if left.len() == 0 {
        true
    } else if left[0] != right[0] {
        left[0] < right[0]
    } else {
        precedes(left.skip(1), right.skip(1))
    }
}

/// A byte string as an integer key.
pub open spec fn key_of(bytes: Seq<u8>) -> Seq<int> {
    Seq::new(bytes.len(), |i: int| bytes[i] as int)
}

/// Byte-string order.
pub open spec fn bytes_precede(left: Seq<u8>, right: Seq<u8>) -> bool {
    precedes(key_of(left), key_of(right))
}

/// Nothing precedes itself.
pub proof fn lemma_irreflexive(key: Seq<int>)
    ensures
        !precedes(key, key),
    decreases key.len(),
{
    if key.len() > 0 {
        lemma_irreflexive(key.skip(1));
    }
}

/// Distinct keys are ordered one way or the other.
pub proof fn lemma_total(left: Seq<int>, right: Seq<int>)
    ensures
        left == right || precedes(left, right) || precedes(right, left),
    decreases left.len(),
{
    if left.len() > 0 && right.len() > 0 && left[0] == right[0] {
        lemma_total(left.skip(1), right.skip(1));
        if left.skip(1) == right.skip(1) {
            assert(left.len() == right.len());
            assert forall|i: int| 0 <= i < left.len() implies left[i] == right[i] by {
                if i > 0 {
                    assert(left[i] == left.skip(1)[i - 1]);
                    assert(right[i] == right.skip(1)[i - 1]);
                }
            }
            assert(left =~= right);
        }
    } else if left.len() == 0 && right.len() == 0 {
        assert(left =~= right);
    }
}

/// Order is transitive.
pub proof fn lemma_transitive(a: Seq<int>, b: Seq<int>, c: Seq<int>)
    requires
        precedes(a, b),
        precedes(b, c),
    ensures
        precedes(a, c),
    decreases a.len(),
{
    if a.len() > 0 && a[0] == b[0] && b[0] == c[0] {
        lemma_transitive(a.skip(1), b.skip(1), c.skip(1));
    }
}

/// Equal keys come from equal byte strings.
pub proof fn lemma_key_determines_bytes(left: Seq<u8>, right: Seq<u8>)
    ensures
        key_of(left) == key_of(right) <==> left == right,
{
    if key_of(left) == key_of(right) {
        assert(left.len() == key_of(left).len());
        assert forall|i: int| 0 <= i < left.len() implies left[i] == right[i] by {
            assert(key_of(left)[i] == key_of(right)[i]);
        }
        assert(left =~= right);
    }
}

/// A common prefix decides nothing.
pub proof fn lemma_common_prefix(left: Seq<int>, right: Seq<int>, count: int)
    requires
        0 <= count <= left.len(),
        count <= right.len(),
        forall|i: int| 0 <= i < count ==> left[i] == right[i],
    ensures
        precedes(left, right) == precedes(left.skip(count), right.skip(count)),
    decreases count,
{
    if count == 0 {
        assert(left.skip(0) =~= left);
        assert(right.skip(0) =~= right);
    } else {
        assert forall|i: int| 0 <= i < count - 1 implies left.skip(1)[i] == right.skip(1)[i] by {
            assert(left[i + 1] == right[i + 1]);
        }
        assert(left[0] == right[0]);
        lemma_common_prefix(left.skip(1), right.skip(1), count - 1);
        assert(left.skip(1).skip(count - 1) =~= left.skip(count));
        assert(right.skip(1).skip(count - 1) =~= right.skip(count));
    }
}

/// Compare two byte strings.
pub fn compare_bytes(left: &[u8], right: &[u8]) -> (rank: Rank)
    ensures
        match rank {
            Rank::Before => bytes_precede(left@, right@),
            Rank::Same => left@ == right@,
            Rank::After => bytes_precede(right@, left@),
        },
{
    let ghost lk = key_of(left@);
    let ghost rk = key_of(right@);
    let mut index: usize = 0;
    while index < left.len() && index < right.len() && left[index] == right[index]
        invariant
            index <= left.len(),
            index <= right.len(),
            lk == key_of(left@),
            rk == key_of(right@),
            forall|i: int| 0 <= i < index ==> lk[i] == rk[i],
        decreases left.len() - index,
    {
        index += 1;
    }
    proof {
        lemma_common_prefix(lk, rk, index as int);
        lemma_common_prefix(rk, lk, index as int);
    }
    if index == left.len() {
        if index == right.len() {
            assert(lk =~= rk);
            proof {
                lemma_key_determines_bytes(left@, right@);
            }
            Rank::Same
        } else {
            Rank::Before
        }
    } else if index == right.len() {
        Rank::After
    } else if left[index] < right[index] {
        Rank::Before
    } else {
        Rank::After
    }
}

/// Whether two byte strings agree up to a place, where the first one ends or is smaller.
pub open spec fn yields_at(left: Seq<u8>, right: Seq<u8>, at: int) -> bool {
    &&& 0 <= at <= left.len()
    &&& at < right.len()
    &&& forall|i: int| 0 <= i < at ==> left[i] == right[i]
    &&& at == left.len() || left[at] < right[at]
}

proof fn lemma_yields(left: Seq<u8>, right: Seq<u8>)
    ensures
        bytes_precede(left, right) <==> exists|at: int| #[trigger] yields_at(left, right, at),
    decreases left.len(),
{
    let l = key_of(left);
    let r = key_of(right);
    if right.len() == 0 {
    } else if left.len() == 0 {
        assert(yields_at(left, right, 0));
    } else if left[0] != right[0] {
        if left[0] < right[0] {
            assert(yields_at(left, right, 0));
        } else {
            assert forall|at: int| !#[trigger] yields_at(left, right, at) by {
                if yields_at(left, right, at) && at > 0 {
                    assert(left[0] == right[0]);
                }
            }
        }
    } else {
        let a = left.skip(1);
        let b = right.skip(1);
        lemma_yields(a, b);
        assert(key_of(a) =~= l.skip(1));
        assert(key_of(b) =~= r.skip(1));
        if bytes_precede(a, b) {
            let at = choose|at: int| #[trigger] yields_at(a, b, at);
            assert forall|i: int| 0 <= i < at + 1 implies left[i] == right[i] by {
                if i > 0 {
                    assert(a[i - 1] == b[i - 1]);
                }
            }
            assert(yields_at(left, right, at + 1));
        }
        if exists|at: int| #[trigger] yields_at(left, right, at) {
            let at = choose|at: int| #[trigger] yields_at(left, right, at);
            assert(at > 0);
            assert forall|i: int| 0 <= i < at - 1 implies a[i] == b[i] by {
                assert(left[i + 1] == right[i + 1]);
            }
            assert(yields_at(a, b, at - 1));
        }
    }
}

/// Byte strings are ordered by the first place at which they differ, and a beginning comes
/// before what it begins.
pub proof fn law_bytes_are_ordered_by_their_first_difference(left: &[u8], right: &[u8], rank: Rank)
    requires
        compare_bytes.ensures((left, right), rank),
    ensures
        rank == Rank::Before <==> exists|at: int| #[trigger] yields_at(left@, right@, at),
        rank == Rank::After <==> exists|at: int| #[trigger] yields_at(right@, left@, at),
        rank == Rank::Same <==> left@ == right@,
{
    lemma_yields(left@, right@);
    lemma_yields(right@, left@);
    lemma_total(key_of(left@), key_of(right@));
    lemma_key_determines_bytes(left@, right@);
    lemma_irreflexive(key_of(left@));
    if bytes_precede(left@, right@) && bytes_precede(right@, left@) {
        lemma_transitive(key_of(left@), key_of(right@), key_of(left@));
    }
}

} // verus!
