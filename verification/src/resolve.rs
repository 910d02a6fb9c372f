//! Resolution of a qualified name against a snapshot of the live object
//! graph.
//!
//! The graph is externally owned; this model keeps, per entry, exactly
//! what the matcher reads: the object's name, its class's name, and the
//! index of its enclosing (outer) object. Matching short-circuits in cost
//! order — name first, class second, outer chain last — and returns the
//! first entry that survives all three.

use crate::full_name::FullName;
use vstd::prelude::*;

verus! {

/// One live object as the matcher sees it.
pub struct ObjectHandle {
    pub name: Vec<u8>,
    pub class_name: Vec<u8>,
    pub outer: Option<usize>,
}

/// A snapshot of the object graph: entries in registration order, `None`
/// for null or tombstone slots.
pub struct ObjectGraph {
    pub entries: Vec<Option<ObjectHandle>>,
}

impl ObjectGraph {
    /// An object's outer is registered before the object itself: outer
    /// indices point strictly downward at live entries.
    pub open spec fn wf(&self) -> bool {
        forall|i: int|
            0 <= i < self.entries@.len() ==> (#[trigger] self.entries@[i] matches Some(n) ==> (
            n.outer matches Some(o) ==> o < i && self.entries@[o as int] is Some))
    }

    /// The link is either absent or a live entry.
    pub open spec fn link_ok(&self, cur: Option<usize>) -> bool {
        cur matches Some(c) ==> c < self.entries@.len() && self.entries@[c as int] is Some
    }

    /// The names along an outer chain, innermost first.
    pub open spec fn chain_names(&self, cur: Option<usize>) -> Seq<Seq<u8>>
        decreases
                (match cur {
                    Some(i) => i + 1,
                    None => 0,
                }),
        when self.wf() && self.link_ok(cur)
    {
        match cur {
            None => Seq::empty(),
            Some(i) => match self.entries@[i as int] {
                Some(n) => seq![n.name@] + self.chain_names(n.outer),
                None => Seq::empty(),
            },
        }
    }

    /// The entry at `i` is live and carries the target's name, its class
    /// name, and its full outer chain, innermost first.
    pub open spec fn entry_matches(&self, i: int, target: FullName) -> bool {
        &&& self.entries@[i] matches Some(n)
        &&& n.name@ == target.name@
        &&& n.class_name@ == target.class@
        &&& self.chain_names(n.outer) == target.outers_view()
    }

    /// Returns the first entry matching the qualified name, or `None` when
    /// the whole graph holds no match.
    pub fn resolve_by_name(&self, target: &FullName) -> (r: Option<usize>)
        requires
            self.wf(),
        ensures
            match r {
                Some(i) => i < self.entries@.len() && self.entry_matches(i as int, *target)
                    && forall|j: int| 0 <= j < i ==> !self.entry_matches(j, *target),
                None => forall|j: int|
                    0 <= j < self.entries@.len() ==> !self.entry_matches(j, *target),
            },
    {
        let n = self.entries.len();
        let mut i: usize = 0;
        while i < n
            invariant
                self.wf(),
                n == self.entries@.len(),
                i <= n,
                forall|j: int| 0 <= j < i ==> !self.entry_matches(j, *target),
            decreases n - i,
        {
            if self.handle_matches(i, target) {
                return Some(i);
            }
            i = i + 1;
        }
        None
    }

    /// The ordered short-circuit comparison for one entry: name, then
    /// class, then the outer chain walked innermost first.
    #[verifier::loop_isolation(false)]
    fn handle_matches(&self, i: usize, target: &FullName) -> (r: bool)
        requires
            self.wf(),
            i < self.entries@.len(),
        ensures
            r == self.entry_matches(i as int, *target),
    {
        let h = match &self.entries[i] {
            None => {
                return false;
            },
            Some(h) => h,
        };
        if !bytes_eq(&h.name, &target.name) {
            return false;
        }
        if !bytes_eq(&h.class_name, &target.class) {
            return false;
        }
        let ghost start = h.outer;
        let ghost want = target.outers_view();
        proof {
            assert(self.entries@[i as int] matches Some(n) && n.outer == start);
            assert(self.link_ok(start));
        }
        let m = target.outers.len();
        let mut cur: Option<usize> = h.outer;
        let mut k: usize = 0;
        while k < m
            invariant
                self.wf(),
                self.link_ok(start),
                self.link_ok(cur),
                m == want.len(),
                m == target.outers@.len(),
                want == target.outers_view(),
                k <= m,
                self.chain_names(start) =~~= want.subrange(0, k as int) + self.chain_names(cur),
            decreases m - k,
        {
            match cur {
                None => {
                    proof {
                        // the chain ended after k names; the target wants m
                        assert(self.chain_names(start).len() == k);
                    }
                    return false;
                },
                Some(c) => {
                    let ch = match &self.entries[c] {
                        None => {
                            proof {
                                assert(false);
                            }
                            return false;
                        },
                        Some(ch) => ch,
                    };
                    proof {
                        assert(self.chain_names(cur) =~~= seq![ch.name@] + self.chain_names(
                            ch.outer,
                        ));
                    }
                    proof {
                        assert(want[k as int] =~= target.outers@[k as int]@);
                    }
                    if !bytes_eq(&ch.name, &target.outers[k]) {
                        proof {
                            // a match would force the chain's k-th name to
                            // be the target's k-th outer
                            assert((want.subrange(0, k as int) + self.chain_names(cur))[k as int]
                                == ch.name@);
                        }
                        return false;
                    }
                    proof {
                        assert(want.subrange(0, k as int) + (seq![ch.name@] + self.chain_names(
                            ch.outer,
                        )) =~~= want.subrange(0, k + 1) + self.chain_names(ch.outer));
                    }
                    cur = ch.outer;
                    k = k + 1;
                },
            }
        }
        match cur {
            None => {
                proof {
                    assert(want.subrange(0, m as int) =~~= want);
                    assert(self.chain_names(start) =~~= want);
                }
                true
            },
            Some(c) => {
                proof {
                    // the target's outers are exhausted but the chain goes on
                    assert(self.entries@[c as int] is Some);
                    assert(self.chain_names(cur).len() >= 1);
                }
                false
            },
        }
    }
}

/// Byte-for-byte equality of two byte strings.
pub fn bytes_eq(a: &Vec<u8>, b: &Vec<u8>) -> (r: bool)
    ensures
        r == (a@ == b@),
{
    let n = a.len();
    if n != b.len() {
        return false;
    }
    let mut i: usize = 0;
    while i < n
        invariant
            n == a@.len() == b@.len(),
            i <= n,
            forall|j: int| 0 <= j < i ==> a@[j] == b@[j],
        decreases n - i,
    {
        if a[i] != b[i] {
            return false;
        }
        i = i + 1;
    }
    proof {
        assert(a@ =~= b@);
    }
    true
}

} // verus!
