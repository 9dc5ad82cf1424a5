//! Piles of cards as sequences of identifiers: searching, removing and
//! drawing from the top.

use crate::ids::CardId;
use std::collections::HashMap;
use vstd::prelude::*;
use vstd::std_specs::iter::IteratorSpec;

verus! {

/// `s` without the first occurrence of `x`.
pub open spec fn remove_first(s: Seq<CardId>, x: CardId) -> Seq<CardId>
    decreases s.len(),
{
    if s.len() == 0 {
        s
    } else if s[0] == x {
        s.drop_first()
    } else {
        seq![s[0]] + remove_first(s.drop_first(), x)
    }
}

/// `s` without any occurrence of `x`.
pub open spec fn without(s: Seq<CardId>, x: CardId) -> Seq<CardId>
    decreases s.len(),
{
    if s.len() == 0 {
        s
    } else if s.last() == x {
        without(s.drop_last(), x)
    } else {
        without(s.drop_last(), x).push(s.last())
    }
}

/// The top `k` cards of a pile whose top is its last entry, in the order
/// in which they are drawn.
pub open spec fn drawn(pile: Seq<CardId>, k: nat) -> Seq<CardId> {
    Seq::new(k, |i: int| pile[pile.len() - 1 - i])
}

/// The smaller of two numbers.
pub open spec fn min_nat(a: nat, b: nat) -> nat {
    if a <= b {
        a
    } else {
        b
    }
}

/// Drawing from a pile loses no card and makes none: what stays and what
/// is drawn are together the pile.
pub proof fn lemma_drawn_conserves(pile: Seq<CardId>, k: nat)
    requires
        k <= pile.len(),
    ensures
        (pile.take(pile.len() - k) + drawn(pile, k)).to_multiset() == pile.to_multiset(),
        drawn(pile, k).len() == k,
{
    let rest = pile.take(pile.len() - k);
    let top = pile.skip(pile.len() - k);
    assert(drawn(pile, k) =~= top.reverse());
    top.lemma_reverse_to_multiset();
    vstd::seq_lib::lemma_multiset_commutative(rest, top.reverse());
    vstd::seq_lib::lemma_multiset_commutative(rest, top);
    assert(rest + top =~= pile);
}

/// A rearrangement of a list without repetitions has none either, and
/// holds the same entries.
pub proof fn lemma_rearranged(a: Seq<CardId>, b: Seq<CardId>)
    requires
        a.to_multiset() == b.to_multiset(),
    ensures
        a.len() == b.len(),
        a.to_set() == b.to_set(),
        a.no_duplicates() ==> b.no_duplicates(),
{
    a.to_multiset_ensures();
    b.to_multiset_ensures();
    assert forall|x: CardId| a.contains(x) <==> b.contains(x) by {
        assert(a.contains(x) <==> a.to_multiset().count(x) > 0);
        assert(b.contains(x) <==> b.to_multiset().count(x) > 0);
    }
    assert(a.to_set() =~= b.to_set());
    if a.no_duplicates() {
        a.lemma_multiset_has_no_duplicates();
        b.lemma_multiset_has_no_duplicates_conv();
    }
}

/// Removing the first occurrence is removing at the first index that holds
/// the card.
pub proof fn lemma_remove_first_at(s: Seq<CardId>, x: CardId, i: int)
    requires
        0 <= i < s.len(),
        s[i] == x,
        forall|j: int| 0 <= j < i ==> s[j] != x,
    ensures
        remove_first(s, x) == s.remove(i),
    decreases s.len(),
{
    if i == 0 {
        assert(s.remove(0) =~= s.drop_first());
    } else {
        let t = s.drop_first();
        lemma_remove_first_at(t, x, i - 1);
        assert(s.remove(i) =~= seq![s[0]] + t.remove(i - 1));
    }
}

/// A pile that does not hold the card is left as it is.
pub proof fn lemma_remove_first_absent(s: Seq<CardId>, x: CardId)
    requires
        !s.contains(x),
    ensures
        remove_first(s, x) == s,
    decreases s.len(),
{
    if s.len() > 0 {
        assert(s[0] != x);
        let t = s.drop_first();
        assert forall|j: int| 0 <= j < t.len() implies t[j] != x by {
            assert(t[j] == s[j + 1]);
        }
        assert(!t.contains(x));
        lemma_remove_first_absent(t, x);
        assert(seq![s[0]] + t =~= s);
    }
}

/// What `without` keeps: no more than there was, the card itself never,
/// every other card as often as before.
pub proof fn lemma_without(s: Seq<CardId>, x: CardId)
    ensures
        without(s, x).len() <= s.len(),
        !without(s, x).contains(x),
        s.contains(x) ==> without(s, x).len() < s.len(),
        !s.contains(x) ==> without(s, x) == s,
        forall|y: CardId|
            #![trigger without(s, x).contains(y)]
            #![trigger s.contains(y)]
            y != x ==> (without(s, x).contains(y) <==> s.contains(y)),
    decreases s.len(),
{
    if s.len() > 0 {
        let t = s.drop_last();
        lemma_without(t, x);
        let w = without(t, x);
        assert(s =~= t.push(s.last()));
        if s.last() == x {
            assert(s.contains(x));
            assert forall|y: CardId| y != x implies (without(s, x).contains(y) <==> s.contains(
                y,
            )) by {
                if s.contains(y) {
                    let i = choose|i: int| 0 <= i < s.len() && s[i] == y;
                    assert(t[i] == y);
                }
                if t.contains(y) {
                    let i = choose|i: int| 0 <= i < t.len() && t[i] == y;
                    assert(s[i] == y);
                }
            }
        } else {
            let r = w.push(s.last());
            assert forall|i: int| 0 <= i < r.len() implies r[i] != x by {
                if i < w.len() {
                    assert(w.contains(w[i]));
                }
            }
            if s.contains(x) {
                let i = choose|i: int| 0 <= i < s.len() && s[i] == x;
                assert(t[i] == x);
            }
            if !s.contains(x) {
                assert forall|j: int| 0 <= j < t.len() implies t[j] != x by {
                    assert(s[j] == t[j]);
                }
            }
            assert forall|y: CardId| y != x implies (r.contains(y) <==> s.contains(y)) by {
                if r.contains(y) {
                    let i = choose|i: int| 0 <= i < r.len() && r[i] == y;
                    if i < w.len() {
                        assert(w[i] == y);
                        assert(w.contains(y));
                        assert(t.contains(y));
                        let j = choose|j: int| 0 <= j < t.len() && t[j] == y;
                        assert(s[j] == y);
                    } else {
                        assert(s[s.len() - 1] == y);
                    }
                }
                if s.contains(y) {
                    let i = choose|i: int| 0 <= i < s.len() && s[i] == y;
                    if i < t.len() {
                        assert(t[i] == y);
                        assert(t.contains(y));
                        assert(w.contains(y));
                        let j = choose|j: int| 0 <= j < w.len() && w[j] == y;
                        assert(r[j] == y);
                    } else {
                        assert(r[r.len() - 1] == y);
                    }
                }
            }
        }
    }
}

/// The keys of a table, each once, in the order in which the table hands
/// them out.
pub fn keys_of<V>(table: &HashMap<CardId, V>) -> (r: Vec<CardId>)
    ensures
        r@.no_duplicates(),
        r@.to_set() == table@.dom(),
        r@.len() == table@.dom().len(),
{
    broadcast use vstd::std_specs::hash::group_hash_axioms;

    let mut out: Vec<CardId> = Vec::new();
    let keys = table.keys();
    let ghost ks = keys.remaining();
    assert(ks.unref().to_set() == table@.dom());
    for k in it: keys
        invariant
            it.seq() == ks,
            out@ == ks.take(it.index() as int).unref(),
    {
        out.push(*k);
    }
    proof {
        assert(ks.take(ks.len() as int) == ks);
    }
    out
}

/// The key at index `i` is new among the keys before it, and with it they
/// are the keys up to `i`.
pub proof fn lemma_next_key(ids: Seq<CardId>, i: int)
    requires
        0 <= i < ids.len(),
        ids.no_duplicates(),
    ensures
        !ids.take(i).contains(ids[i]),
        !ids.take(i).to_set().contains(ids[i]),
        ids.take(i + 1).to_set() == ids.take(i).to_set().insert(ids[i]),
        forall|x: CardId| ids.take(i + 1).contains(x) <==> ids.take(i).contains(x) || x == ids[i],
{
    let done = ids.take(i);
    let next = ids.take(i + 1);
    if done.contains(ids[i]) {
        let j = choose|j: int| 0 <= j < done.len() && done[j] == ids[i];
        assert(ids[j] == ids[i]);
    }
    assert forall|x: CardId| next.contains(x) <==> done.contains(x) || x == ids[i] by {
        if next.contains(x) {
            let j = choose|j: int| 0 <= j < next.len() && next[j] == x;
            if j < i {
                assert(done[j] == x);
            }
        }
        if done.contains(x) {
            let j = choose|j: int| 0 <= j < done.len() && done[j] == x;
            assert(next[j] == x);
        }
        if x == ids[i] {
            assert(next[i] == x);
        }
    }
    assert(next.to_set() =~= done.to_set().insert(ids[i]));
}

/// Whether a list is in ascending order.
pub open spec fn ascending(s: Seq<CardId>) -> bool {
    forall|i: int, j: int| 0 <= i <= j < s.len() ==> s[i] <= s[j]
}

/// The entries of `v` in ascending order.
pub fn sorted(v: Vec<CardId>) -> (r: Vec<CardId>)
    ensures
        ascending(r@),
        r@.to_multiset() == v@.to_multiset(),
{
    let mut out: Vec<CardId> = Vec::new();
    let mut i: usize = 0;
    proof {
        assert(v@.take(0) =~= Seq::empty());
        assert(out@ =~= v@.take(0));
    }
    while i < v.len()
        invariant
            i <= v@.len(),
            ascending(out@),
            out@.to_multiset() == v@.take(i as int).to_multiset(),
        decreases v@.len() - i,
    {
        let x = v[i];
        let mut at: usize = 0;
        while at < out.len() && out[at] <= x
            invariant
                at <= out@.len(),
                forall|k: int| 0 <= k < at ==> out@[k] <= x,
            decreases out@.len() - at,
        {
            at += 1;
        }
        let ghost before = out@;
        out.insert(at, x);
        proof {
            assert(out@ =~= before.insert(at as int, x));
            vstd::seq_lib::to_multiset_insert(before, at as int, x);
            assert(v@.take(i as int + 1) =~= v@.take(i as int).push(x));
            vstd::seq_lib::to_multiset_build(v@.take(i as int), x);
            assert forall|a: int, b: int| 0 <= a <= b < out@.len() implies out@[a] <= out@[b] by {
                if a < at && b > at {
                    assert(out@[b] == before[b - 1]);
                    assert(before[a] <= before[b - 1]);
                } else if a > at {
                    assert(out@[a] == before[a - 1]);
                    assert(out@[b] == before[b - 1]);
                } else if a == at && b > at {
                    assert(out@[b] == before[b - 1]);
                    assert(before[at as int] <= before[b - 1]);
                }
            }
        }
        i += 1;
    }
    proof {
        assert(v@.take(v@.len() as int) =~= v@);
    }
    out
}

/// The entries of `v` in reverse order.
pub fn reversed<T>(v: Vec<T>) -> (r: Vec<T>)
    ensures
        r@ == v@.reverse(),
{
    let mut v = v;
    let ghost before = v@;
    let mut out: Vec<T> = Vec::new();
    while v.len() > 0
        invariant
            v@ == before.take(v@.len() as int),
            out@.len() + v@.len() == before.len(),
            forall|i: int| 0 <= i < out@.len() ==> out@[i] == before[before.len() - 1 - i],
        decreases v@.len(),
    {
        let ghost v0 = v@;
        let x = v.pop().unwrap();
        out.push(x);
        proof {
            assert(v@ =~= before.take(v@.len() as int));
        }
    }
    proof {
        assert(out@ =~= before.reverse());
    }
    out
}

/// Whether `v` holds `x`.
pub fn contains(v: &Vec<CardId>, x: CardId) -> (r: bool)
    ensures
        r == v@.contains(x),
{
    position(v, x).is_some()
}

/// The first index at which `v` holds `x`.
pub fn position(v: &Vec<CardId>, x: CardId) -> (r: Option<usize>)
    ensures
        match r {
            Some(i) => i < v@.len() && v@[i as int] == x && forall|j: int|
                0 <= j < i ==> v@[j] != x,
            None => !v@.contains(x),
        },
{
    let mut i: usize = 0;
    while i < v.len()
        invariant
            i <= v@.len(),
            forall|j: int| 0 <= j < i ==> v@[j] != x,
        decreases v@.len() - i,
    {
        if v[i] == x {
            return Some(i);
        }
        i += 1;
    }
    None
}

/// Removes the first occurrence of `x` from `v` and says whether there was one.
pub fn take_first(v: &mut Vec<CardId>, x: CardId) -> (r: bool)
    ensures
        r == old(v)@.contains(x),
        final(v)@ == remove_first(old(v)@, x),
{
    match position(v, x) {
        Some(i) => {
            proof {
                lemma_remove_first_at(v@, x, i as int);
            }
            v.remove(i);
            true
        },
        None => {
            proof {
                lemma_remove_first_absent(v@, x);
            }
            false
        },
    }
}

/// Removes every occurrence of `x` from `v`.
pub fn take_all(v: &mut Vec<CardId>, x: CardId)
    ensures
        final(v)@ == without(old(v)@, x),
{
    let mut kept: Vec<CardId> = Vec::new();
    let mut i: usize = 0;
    while i < v.len()
        invariant
            i <= v@.len(),
            v@ == old(v)@,
            kept@ == without(v@.take(i as int), x),
        decreases v@.len() - i,
    {
        proof {
            assert(v@.take(i as int + 1).drop_last() == v@.take(i as int));
        }
        if v[i] != x {
            kept.push(v[i]);
        }
        i += 1;
    }
    proof {
        assert(v@.take(v@.len() as int) == v@);
    }
    *v = kept;
}

/// Moves the top `count` cards of `pile`, or all of them if there are
/// fewer, onto the end of `onto`, the top card first, and returns them.
pub fn draw_onto(pile: &mut Vec<CardId>, onto: &mut Vec<CardId>, count: usize) -> (r: Vec<CardId>)
    ensures
        r@ == drawn(old(pile)@, min_nat(count as nat, old(pile)@.len())),
        final(pile)@ == old(pile)@.take(
            old(pile)@.len() - min_nat(count as nat, old(pile)@.len()),
        ),
        final(onto)@ == old(onto)@ + r@,
{
    let mut taken: Vec<CardId> = Vec::new();
    let mut n: usize = 0;
    while n < count && pile.len() > 0
        invariant
            n <= count,
            n <= old(pile)@.len(),
            pile@ == old(pile)@.take(old(pile)@.len() - n),
            taken@ == drawn(old(pile)@, n as nat),
            onto@ == old(onto)@ + taken@,
        decreases count - n,
    {
        let ghost before = pile@;
        let card = pile.pop().unwrap();
        taken.push(card);
        onto.push(card);
        n += 1;
        proof {
            assert(pile@ =~= old(pile)@.take(old(pile)@.len() - n));
            assert(taken@ =~= drawn(old(pile)@, n as nat));
            assert(onto@ =~= old(onto)@ + taken@);
        }
    }
    taken
}

} // verus!
