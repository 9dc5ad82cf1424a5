//! Sums over tables of card counts.

use crate::ids::CardId;
use vstd::prelude::*;

verus! {

/// The sum of the counts of a finite table.
pub open spec fn total(m: Map<CardId, u32>) -> nat
    decreases m.dom().len(),
    when m.dom().finite()
{
    if m.dom().len() == 0 {
        0
    } else {
        let k = m.dom().choose();
        m[k] as nat + total(m.remove(k))
    }
}

/// The sum of the counts of the cards of `m` that are in `chosen`.
pub open spec fn total_of(m: Map<CardId, u32>, chosen: Set<CardId>) -> nat {
    total(m.restrict(chosen))
}

/// The count of a card in a table; none for a card without an entry.
pub open spec fn count_in(m: Map<CardId, u32>, id: CardId) -> u32 {
    if m.contains_key(id) {
        m[id]
    } else {
        0
    }
}

/// The sum does not depend on the entry that is taken out first.
pub proof fn lemma_total_remove(m: Map<CardId, u32>, k: CardId)
    requires
        m.dom().finite(),
        m.contains_key(k),
    ensures
        total(m) == m[k] + total(m.remove(k)),
    decreases m.dom().len(),
{
    let c = m.dom().choose();
    assert(m.dom().len() != 0) by {
        if m.dom().len() == 0 {
            assert(m.dom() =~= Set::empty());
        }
    }
    if c != k {
        let mc = m.remove(c);
        let mk = m.remove(k);
        assert(m.dom().contains(c)) by {
            vstd::set_lib::axiom_is_empty(m.dom());
        }
        assert(mc.dom() =~= m.dom().remove(c));
        assert(mk.dom() =~= m.dom().remove(k));
        lemma_total_remove(mc, k);
        lemma_total_remove(mk, c);
        assert(mc.remove(k) =~= mk.remove(c));
    }
}

/// The empty table sums to nothing.
pub proof fn lemma_total_empty(m: Map<CardId, u32>)
    requires
        m.dom() =~= Set::<CardId>::empty(),
    ensures
        total(m) == 0,
{
}

/// Setting an entry changes the sum by the change of that entry.
pub proof fn lemma_total_insert(m: Map<CardId, u32>, k: CardId, v: u32)
    requires
        m.dom().finite(),
    ensures
        total(m.insert(k, v)) == total(m.remove(k)) + v,
        total(m) == total(m.remove(k)) + count_in(m, k),
{
    let mi = m.insert(k, v);
    assert(mi.dom() =~= m.dom().insert(k));
    lemma_total_remove(mi, k);
    assert(mi.remove(k) =~= m.remove(k));
    if m.contains_key(k) {
        lemma_total_remove(m, k);
    } else {
        assert(m.remove(k) =~= m);
    }
}

/// A part of a table sums to no more than the table.
pub proof fn lemma_total_of_le(m: Map<CardId, u32>, chosen: Set<CardId>)
    requires
        m.dom().finite(),
    ensures
        total_of(m, chosen) <= total(m),
        m.restrict(chosen).dom().finite(),
    decreases m.dom().len(),
{
    let r = m.restrict(chosen);
    assert(r.dom() =~= m.dom().intersect(chosen));
    vstd::set_lib::lemma_len_intersect::<CardId>(m.dom(), chosen);
    if m.dom().len() == 0 {
        assert(m.dom() =~= Set::empty());
        assert(r.dom() =~= Set::empty());
    } else {
        let k = m.dom().choose();
        assert(m.dom().contains(k)) by {
            vstd::set_lib::axiom_is_empty(m.dom());
        }
        let mk = m.remove(k);
        assert(mk.dom() =~= m.dom().remove(k));
        lemma_total_of_le(mk, chosen);
        if chosen.contains(k) {
            lemma_total_remove(r, k);
            assert(r.remove(k) =~= mk.restrict(chosen));
        } else {
            assert(r =~= mk.restrict(chosen));
        }
    }
}

/// The whole table is the part chosen by its own domain.
pub proof fn lemma_total_of_all(m: Map<CardId, u32>, chosen: Set<CardId>)
    requires
        forall|k: CardId| m.contains_key(k) ==> chosen.contains(k),
    ensures
        total_of(m, chosen) == total(m),
{
    assert(m.restrict(chosen) =~= m);
}

/// One more card among those looked at adds its count to the part's sum if
/// it is chosen, and nothing if not.
pub proof fn lemma_total_of_step(
    m: Map<CardId, u32>,
    seen: Set<CardId>,
    chosen: Set<CardId>,
    k: CardId,
)
    requires
        m.dom().finite(),
        m.contains_key(k),
        !seen.contains(k),
    ensures
        total_of(m, seen.insert(k).intersect(chosen)) == total_of(m, seen.intersect(chosen)) + (
        if chosen.contains(k) {
            m[k] as nat
        } else {
            0
        }),
{
    let before = m.restrict(seen.intersect(chosen));
    let after = m.restrict(seen.insert(k).intersect(chosen));
    lemma_total_of_le(m, seen.intersect(chosen));
    lemma_total_of_le(m, seen.insert(k).intersect(chosen));
    if chosen.contains(k) {
        assert(after =~= before.insert(k, m[k]));
        lemma_total_insert(before, k, m[k]);
        assert(before.remove(k) =~= before);
    } else {
        assert(after =~= before);
    }
}

/// A table whose sum is small has no large entry.
pub proof fn lemma_entry_le_total(m: Map<CardId, u32>, k: CardId)
    requires
        m.dom().finite(),
        m.contains_key(k),
    ensures
        m[k] <= total(m),
{
    lemma_total_remove(m, k);
}

} // verus!
