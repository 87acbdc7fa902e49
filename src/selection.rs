use vstd::prelude::*;

verus! {

/// Node identities marked for a batched run, in the order they were marked.
pub struct SelectionSet {
    members: Vec<usize>,
}

/// Membership after toggling `id`: a node that cannot be selected leaves the set as it is.
pub open spec fn toggled(s: Set<usize>, id: usize, selectable: bool) -> Set<usize> {
    if !selectable {
        s
    } else if s.contains(id) {
        s.remove(id)
    } else {
        s.insert(id)
    }
}

impl View for SelectionSet {
    type V = Seq<usize>;

    closed spec fn view(&self) -> Seq<usize> {
        self.members@
    }
}

impl SelectionSet {
    /// Each node is held at most once.
    pub open spec fn wf(&self) -> bool {
        self@.no_duplicates()
    }

    pub open spec fn members_set(&self) -> Set<usize> {
        self@.to_set()
    }

    pub fn new() -> (r: SelectionSet)
        ensures
            r@ == Seq::<usize>::empty(),
            r.wf(),
    {
        SelectionSet { members: Vec::new() }
    }

    pub fn len(&self) -> (r: usize)
        ensures
            r == self@.len(),
    {
        self.members.len()
    }

    pub fn get(&self, i: usize) -> (r: usize)
        requires
            i < self@.len(),
        ensures
            r == self@[i as int],
    {
        self.members[i]
    }

    fn position(&self, id: usize) -> (r: Option<usize>)
        ensures
            r matches Some(i) ==> i < self@.len() && self@[i as int] == id,
            r is None ==> !self@.contains(id),
    {
        let mut i: usize = 0;
        while i < self.members.len()
            invariant
                i <= self@.len(),
                self@ == self.members@,
                forall|k: int| 0 <= k < i ==> self@[k] != id,
            decreases self@.len() - i,
        {
            if self.members[i] == id {
                return Some(i);
            }
            i = i + 1;
        }
        None
    }

    pub fn contains(&self, id: usize) -> (r: bool)
        ensures
            r == self@.contains(id),
    {
        match self.position(id) {
            Some(_) => true,
            None => false,
        }
    }

    /// Adds `id` when it is absent and removes it when present; when `selectable`
    /// is false nothing changes. The others keep their order.
    pub fn toggle(&mut self, id: usize, selectable: bool)
        requires
            old(self).wf(),
        ensures
            final(self).wf(),
            final(self).members_set() == toggled(old(self).members_set(), id, selectable),
            !selectable ==> final(self)@ == old(self)@,
            selectable && !old(self)@.contains(id) ==> final(self)@ == old(self)@.push(id),
            selectable && old(self)@.contains(id) ==> exists|i: int|
                0 <= i < old(self)@.len() && old(self)@[i] == id && final(self)@ == old(
                    self,
                )@.remove(i),
    {
        if !selectable {
            return;
        }
        match self.position(id) {
            Some(i) => {
                let ghost before = self@;
                self.members.remove(i);
                proof {
                    assert(self@ =~= before.remove(i as int));
                    assert forall|x: usize| #[trigger]
                        self@.to_set().contains(x) == before.to_set().remove(id).contains(x) by {
                        if self@.contains(x) {
                            let k = choose|k: int| 0 <= k < self@.len() && self@[k] == x;
                            if k < i {
                                assert(before[k] == x);
                            } else {
                                assert(before[k + 1] == x);
                            }
                        }
                        if x != id && before.contains(x) {
                            let k = choose|k: int| 0 <= k < before.len() && before[k] == x;
                            if k < i {
                                assert(self@[k] == x);
                            } else {
                                assert(self@[k - 1] == x);
                            }
                        }
                    }
                    assert(self@.to_set() =~= before.to_set().remove(id));
                }
            },
            None => {
                let ghost before = self@;
                self.members.push(id);
                proof {
                    assert(self@ == before.push(id));
                    assert forall|x: usize| #[trigger]
                        self@.to_set().contains(x) == before.to_set().insert(id).contains(x) by {
                        if self@.contains(x) && x != id {
                            let k = choose|k: int| 0 <= k < self@.len() && self@[k] == x;
                            assert(before[k] == x);
                        }
                        if before.contains(x) {
                            let k = choose|k: int| 0 <= k < before.len() && before[k] == x;
                            assert(self@[k] == x);
                        }
                        if x == id {
                            assert(self@[before.len() as int] == x);
                        }
                    }
                    assert(self@.to_set() =~= before.to_set().insert(id));
                }
            },
        }
    }

    /// Empties the set.
    pub fn clear(&mut self)
        ensures
            final(self)@ == Seq::<usize>::empty(),
            final(self).wf(),
    {
        self.members.clear();
    }
}

/// Toggling the same node twice restores the membership it started from, and a node
/// that cannot be selected never changes membership.
pub proof fn lemma_toggle_twice(s: Set<usize>, id: usize, selectable: bool)
    ensures
        toggled(toggled(s, id, selectable), id, selectable) == s,
        !selectable ==> toggled(s, id, selectable) == s,
{
    if selectable {
        if s.contains(id) {
            assert(s.remove(id).insert(id) =~= s);
        } else {
            assert(s.insert(id).remove(id) =~= s);
        }
    }
}

} // verus!
