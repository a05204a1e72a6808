//! Sets of X11 atoms.

use vstd::prelude::*;

verus! {

/// A set of X11 atoms, held in a `hashbrown::HashSet`.
#[verifier::external_body]
pub struct AtomSet {
    inner: hashbrown::HashSet<u32>,
}

/// The atoms that a set holds.
pub uninterp spec fn atoms_of(set: AtomSet) -> Set<u32>;

impl View for AtomSet {
    type V = Set<u32>;

    open spec fn view(&self) -> Set<u32> {
        atoms_of(*self)
    }
}

impl AtomSet {
    /// `hashbrown::HashSet::new`: the set is empty.
    #[verifier::external_body]
    pub(crate) fn empty() -> (set: AtomSet)
        ensures
            atoms_of(set) == Set::<u32>::empty(),
    {
        AtomSet { inner: hashbrown::HashSet::new() }
    }

    /// `hashbrown::HashSet::insert`: the atom is in the set afterwards.
    #[verifier::external_body]
    pub(crate) fn insert(&mut self, atom: u32)
        ensures
            atoms_of(*final(self)) == atoms_of(*old(self)).insert(atom),
    {
        self.inner.insert(atom);
    }

    /// `hashbrown::HashSet::remove`: the atom is not in the set afterwards.
    #[verifier::external_body]
    pub(crate) fn remove(&mut self, atom: u32)
        ensures
            atoms_of(*final(self)) == atoms_of(*old(self)).remove(atom),
    {
        self.inner.remove(&atom);
    }

    /// `hashbrown::HashSet::contains`: whether the atom is in the set.
    #[verifier::external_body]
    pub(crate) fn contains(&self, atom: u32) -> (found: bool)
        ensures
            found == atoms_of(*self).contains(atom),
    {
        self.inner.contains(&atom)
    }

    /// `hashbrown::HashSet::clone`: a second set with the same atoms.
    #[verifier::external_body]
    pub(crate) fn duplicate(&self) -> (copy: AtomSet)
        ensures
            atoms_of(copy) == atoms_of(*self),
    {
        AtomSet { inner: self.inner.clone() }
    }

    /// `hashbrown::HashSet::eq`: whether both sets hold the same atoms.
    #[verifier::external_body]
    pub(crate) fn same_as(&self, other: &AtomSet) -> (same: bool)
        ensures
            same == (atoms_of(*self) == atoms_of(*other)),
    {
        self.inner == other.inner
    }

    /// `hashbrown::HashSet::iter`: every atom once, in no particular order.
    #[verifier::external_body]
    pub(crate) fn to_vec(&self) -> (atoms: Vec<u32>)
        ensures
            atoms@.no_duplicates(),
            atoms@.to_set() == atoms_of(*self),
    {
        self.inner.iter().copied().collect()
    }

    /// The set of the atoms in `list`.
    pub fn from_list(list: &Vec<u32>) -> (set: AtomSet)
        ensures
            set@ == list@.to_set(),
    {
        let mut set = AtomSet::empty();
        let mut i: usize = 0;
        while i < list.len()
            invariant
                i <= list.len(),
                set@ =~= list@.take(i as int).to_set(),
            decreases list.len() - i,
        {
            let atom: u32 = list[i];
            set.insert(atom);
            proof {
                assert(list@.take(i + 1) =~= list@.take(i as int).push(atom));
                list@.take(i as int).lemma_push_to_set_commute(atom);
            }
            i += 1;
        }
        assert(list@.take(i as int) =~= list@);
        set
    }
}

} // verus!
