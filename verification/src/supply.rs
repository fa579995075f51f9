//! The sum of the balances of a finite map of accounts.

use vstd::prelude::*;

verus! {

/// The balances of a node: from the bytes of an address to what it holds.
pub type Balances = Map<Seq<u8>, nat>;

/// The sum of all balances in a finite map.
pub open spec fn total(m: Balances) -> nat
    decreases m.dom().len(),
    via total_decreases
{
    if m.dom().finite() && m.dom().len() > 0 {
        let k = m.dom().choose();
        m[k] + total(m.remove(k))
    } else {
        0
    }
}

#[via_fn]
proof fn total_decreases(m: Balances) {
    if m.dom().finite() && m.dom().len() > 0 {
        let k = m.dom().choose();
        m.lemma_remove_key_len(k);
    }
}

/// The empty map sums to zero.
pub proof fn lemma_total_empty()
    ensures
        total(Map::<Seq<u8>, nat>::empty()) == 0,
{
    assert(Map::<Seq<u8>, nat>::empty().dom().len() == 0);
}

/// Any one account can be taken out of the sum first.
pub proof fn lemma_total_remove(m: Balances, k: Seq<u8>)
    requires
        m.dom().finite(),
        m.contains_key(k),
    ensures
        total(m) == m[k] + total(m.remove(k)),
    decreases m.dom().len(),
{
    vstd::set_lib::lemma_set_empty_equivalency_len(m.dom());
    let c = m.dom().choose();
    if c != k {
        m.lemma_remove_key_len(c);
        m.lemma_remove_key_len(k);
        lemma_total_remove(m.remove(c), k);
        assert(m.remove(k).contains_key(c));
        lemma_total_remove(m.remove(k), c);
        assert(m.remove(c).remove(k) =~= m.remove(k).remove(c));
    }
}

/// Setting one balance changes the sum by the difference.
pub proof fn lemma_total_insert(m: Balances, k: Seq<u8>, v: nat)
    requires
        m.dom().finite(),
    ensures
        m.insert(k, v).dom().finite(),
        m.contains_key(k) ==> total(m.insert(k, v)) + m[k] == total(m) + v,
        !m.contains_key(k) ==> total(m.insert(k, v)) == total(m) + v,
{
    let n = m.insert(k, v);
    lemma_total_remove(n, k);
    assert(n.remove(k) =~= m.remove(k));
    if m.contains_key(k) {
        lemma_total_remove(m, k);
    } else {
        assert(m.remove(k) =~= m);
    }
}

} // verus!
