//! Traversal context: the scope stack that tracks whether the walk is
//! inside a guarded closure, and the set of closures explicitly marked as
//! guarded because they were passed to a wrapper call.
//!
//! Both live for exactly one traversal; the walker constructs them fresh
//! per compilation unit and threads them through the call chain, so no
//! state leaks across units.

use vstd::prelude::*;

verus! {

/// The effective permission of a stack: the top entry, or `false` when no
/// closure is open.
pub open spec fn effective(s: Seq<bool>) -> bool {
    s.len() > 0 && s.last()
}

/// One entry per closure currently open in the lexical nesting, outermost
/// first; an entry is `true` when that closure is guarded, either marked
/// explicitly or by inheritance from its lexical parent.
pub struct ScopeStack {
    entries: Vec<bool>,
}

impl View for ScopeStack {
    type V = Seq<bool>;

    closed spec fn view(&self) -> Seq<bool> {
        self.entries@
    }
}

impl ScopeStack {
    /// A stack with no open closure.
    pub fn new() -> (r: ScopeStack)
        ensures
            r@ == Seq::<bool>::empty(),
    {
        ScopeStack { entries: Vec::new() }
    }

    /// Enter a closure: push its permission, which is inherited from the
    /// enclosing closure unless the closure was marked explicitly.
    pub fn push_closure_allowed(&mut self, explicitly_allowed: bool)
        ensures
            final(self)@ == old(self)@.push(explicitly_allowed || effective(old(self)@)),
    {
        let inherited = self.currently_allowed();
        self.entries.push(explicitly_allowed || inherited);
    }

    /// Leave a closure: pop the top entry.  On an empty stack this is a
    /// no-op; a correctly paired walk never reaches that case.
    pub fn pop_closure_allowed(&mut self)
        ensures
            final(self)@ == if old(self)@.len() == 0 {
                old(self)@
            } else {
                old(self)@.drop_last()
            },
    {
        if self.entries.len() > 0 {
            self.entries.pop();
        }
        proof {
            if old(self)@.len() > 0 {
                assert(self@ =~= old(self)@.drop_last());
            }
        }
    }

    /// The permission in force at the current point of the walk.
    pub fn currently_allowed(&self) -> (r: bool)
        ensures
            r == effective(self@),
    {
        if self.entries.len() == 0 {
            false
        } else {
            self.entries[self.entries.len() - 1]
        }
    }
}

/// The identities of the closures that were seen as direct closure
/// arguments of a wrapper call.  Membership is decided at the call node,
/// strictly before the walk descends into the argument subtrees.
pub struct AllowedClosures {
    ids: Vec<u64>,
}

impl View for AllowedClosures {
    type V = Set<u64>;

    closed spec fn view(&self) -> Set<u64> {
        self.ids@.to_set()
    }
}

impl AllowedClosures {
    /// An empty set.
    pub fn new() -> (r: AllowedClosures)
        ensures
            r@ == Set::<u64>::empty(),
    {
        let r = AllowedClosures { ids: Vec::new() };
        proof {
            assert(r@ =~= Set::<u64>::empty());
        }
        r
    }

    /// Record one closure as explicitly guarded.
    pub fn insert(&mut self, id: u64)
        ensures
            final(self)@ == old(self)@.insert(id),
    {
        self.ids.push(id);
        proof {
            assert forall|x: u64| self@.contains(x) implies old(self)@.insert(id).contains(
                x,
            ) by {
                let i = choose|i: int| 0 <= i < self.ids@.len() && self.ids@[i] == x;
                if i < self.ids@.len() - 1 {
                    assert(old(self).ids@[i] == x);
                }
            }
            assert forall|x: u64| old(self)@.insert(id).contains(x) implies self@.contains(
                x,
            ) by {
                if x == id {
                    assert(self.ids@[self.ids@.len() - 1] == x);
                } else {
                    let i = choose|i: int| 0 <= i < old(self).ids@.len() && old(self).ids@[i] == x;
                    assert(self.ids@[i] == x);
                }
            }
            assert(self@ =~= old(self)@.insert(id));
        }
    }

    /// Whether `id` was recorded.
    pub fn contains(&self, id: u64) -> (r: bool)
        ensures
            r == self@.contains(id),
    {
        let mut i: usize = 0;
        while i < self.ids.len()
            invariant
                i <= self.ids.len(),
                forall|k: int| 0 <= k < i ==> self.ids@[k] != id,
            decreases self.ids.len() - i,
        {
            if self.ids[i] == id {
                assert(self.ids@.contains(id));
                return true;
            }
            i = i + 1;
        }
        assert(!self.ids@.contains(id));
        false
    }
}

} // verus!
