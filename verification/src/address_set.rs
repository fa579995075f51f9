//! A finite set of addresses.

use crate::principal::principal_bytes;
use crate::table::Table;
use candid::Principal;
use vstd::prelude::*;

verus! {

/// A finite set of addresses, in the order in which they first came.
pub struct AddressSet {
    members: Table<()>,
}

/// The set of the addresses in a list.
pub open spec fn set_of(list: Seq<Principal>) -> Set<Seq<u8>> {
    Set::new(
        |b: Seq<u8>| exists|i: int| 0 <= i < list.len() && principal_bytes(#[trigger] list[i]) == b,
    )
}

impl AddressSet {
    /// No address stands twice.
    pub closed spec fn wf(&self) -> bool {
        self.members.wf()
    }

    /// The members, as bytes, in the order in which they came.
    pub closed spec fn members(&self) -> Seq<Seq<u8>> {
        self.members.keys()
    }

    /// The set of the members' bytes.
    pub closed spec fn view(&self) -> Set<Seq<u8>> {
        self.members@.dom()
    }

    /// The members listed are the members of the set, each once.
    pub proof fn lemma_members(&self)
        requires
            self.wf(),
        ensures
            self.members().no_duplicates(),
            self.members().to_set() == self@,
            self@.finite(),
            self@.len() == self.members().len(),
    {
        self.members.lemma_finite();
    }

    /// The empty set.
    pub fn new() -> (s: Self)
        ensures
            s.wf(),
            s@ == Set::<Seq<u8>>::empty(),
            s.members() == Seq::<Seq<u8>>::empty(),
    {
        let s = AddressSet { members: Table::new() };
        assert(s@ =~= Set::<Seq<u8>>::empty());
        s
    }

    /// The number of members.
    pub fn len(&self) -> (n: usize)
        ensures
            n == self.members().len(),
    {
        self.members.len()
    }

    /// The member at `i`.
    pub fn member_at(&self, i: usize) -> (p: Principal)
        requires
            i < self.members().len(),
        ensures
            principal_bytes(p) == self.members()[i as int],
    {
        self.members.key_at(i)
    }

    /// The members as a list, in the order in which they came.
    pub fn to_vec(&self) -> (list: Vec<Principal>)
        requires
            self.wf(),
        ensures
            list@.len() == self.members().len(),
            forall|i: int|
                0 <= i < list@.len() ==> principal_bytes(#[trigger] list@[i]) == self.members()[i],
            set_of(list@) == self@,
    {
        let n = self.members.len();
        let mut list: Vec<Principal> = Vec::new();
        let mut i: usize = 0;
        while i < n
            invariant
                i <= n,
                n == self.members.keys().len(),
                list@.len() == i,
                forall|j: int|
                    0 <= j < i ==> principal_bytes(#[trigger] list@[j]) == self.members()[j],
            decreases n - i,
        {
            list.push(self.members.key_at(i));
            i += 1;
        }
        proof {
            self.lemma_members();
            let all = self.members();
            assert forall|b: Seq<u8>| set_of(list@).contains(b) <==> all.to_set().contains(b) by {
                if set_of(list@).contains(b) {
                    let x = choose|x: int|
                        0 <= x < list@.len() && principal_bytes(#[trigger] list@[x]) == b;
                    assert(all[x] == b);
                }
                if all.contains(b) {
                    let x = choose|x: int| 0 <= x < all.len() && all[x] == b;
                    assert(principal_bytes(list@[x]) == b);
                }
            }
            assert(set_of(list@) =~= self@);
        }
        list
    }

    /// The set of the addresses in a list.
    pub fn from_vec(list: &Vec<Principal>) -> (s: Self)
        ensures
            s.wf(),
            s@ == set_of(list@),
    {
        let mut s = AddressSet::new();
        let mut i: usize = 0;
        assert(s@ =~= set_of(list@.take(0)));
        while i < list.len()
            invariant
                i <= list.len(),
                s.wf(),
                s@ == set_of(list@.take(i as int)),
            decreases list.len() - i,
        {
            let ghost before = s@;
            s.insert(list[i]);
            proof {
                let a = list@.take(i as int);
                let b = list@.take(i + 1);
                assert forall|x: Seq<u8>|
                    before.insert(principal_bytes(list@[i as int])).contains(x) <==> set_of(
                        b,
                    ).contains(x) by {
                    if set_of(a).contains(x) {
                        let j = choose|j: int|
                            0 <= j < a.len() && principal_bytes(#[trigger] a[j]) == x;
                        assert(b[j] == a[j]);
                    }
                    if x == principal_bytes(list@[i as int]) {
                        assert(b[i as int] == list@[i as int]);
                    }
                    if set_of(b).contains(x) {
                        let j = choose|j: int|
                            0 <= j < b.len() && principal_bytes(#[trigger] b[j]) == x;
                        if j < i {
                            assert(a[j] == b[j]);
                        }
                    }
                }
                assert(s@ =~= set_of(b));
            }
            i += 1;
        }
        proof {
            assert(list@.take(i as int) =~= list@);
        }
        s
    }

    /// Whether the address is a member.
    pub fn contains(&self, p: &Principal) -> (found: bool)
        requires
            self.wf(),
        ensures
            found == self@.contains(principal_bytes(*p)),
    {
        self.members.contains_key(p)
    }

    /// Makes the address a member.
    pub fn insert(&mut self, p: Principal)
        requires
            old(self).wf(),
        ensures
            final(self).wf(),
            final(self)@ == old(self)@.insert(principal_bytes(p)),
            old(self)@.contains(principal_bytes(p)) ==> final(self).members() == old(self).members(),
            !old(self)@.contains(principal_bytes(p)) ==> final(self).members() == old(self).members().push(principal_bytes(p)),
    {
        self.members.insert(p, ());
        assert(self@ =~= old(self)@.insert(principal_bytes(p)));
    }

    /// Takes the address out of the set.
    pub fn remove(&mut self, p: &Principal)
        requires
            old(self).wf(),
        ensures
            final(self).wf(),
            final(self)@ == old(self)@.remove(principal_bytes(*p)),
            final(self).members() == if old(self)@.contains(principal_bytes(*p)) {
                old(self).members().remove(old(self).members().index_of(principal_bytes(*p)))
            } else {
                old(self).members()
            },
    {
        let _ = self.members.remove(p);
        assert(self@ =~= old(self)@.remove(principal_bytes(*p)));
    }
}

} // verus!
