use vstd::prelude::*;
use crate::error::{Code, Error};
use crate::kobj::{CapSel, CapType, KObject};
use crate::tcu::ActId;

verus! {

/// A capability: a selector in an activity's table, the object it refers to, and the
/// capability it was derived from.
#[derive(Clone, Copy, Debug, PartialEq, Eq, Structural)]
pub struct CapNode {
    pub act: ActId,
    pub sel: CapSel,
    pub obj: KObject,
    /// Index of the capability this one was derived from.
    pub parent: Option<usize>,
    /// Whether the capability is still in its table.
    pub alive: bool,
}

/// Whether capability `i` is in the table of `act` under selector `sel` of name space `ty`.
pub open spec fn holds(nodes: Seq<CapNode>, i: int, act: ActId, ty: CapType, sel: CapSel) -> bool {
    0 <= i < nodes.len() && nodes[i].alive && nodes[i].act == act && nodes[i].obj.cap_type() == ty
        && nodes[i].sel == sel
}

/// The capability in the table of `act` under `sel` of name space `ty`, if there is one.
pub open spec fn lookup(nodes: Seq<CapNode>, act: ActId, ty: CapType, sel: CapSel) -> Option<int> {
    if exists|i: int| holds(nodes, i, act, ty, sel) {
        Some(choose|i: int| holds(nodes, i, act, ty, sel))
    } else {
        None
    }
}

/// Whether capability `j` was derived, directly or not, from capability `r` (or is `r`).
pub open spec fn in_subtree(nodes: Seq<CapNode>, j: int, r: int) -> bool
    decreases j,
{
    if j < 0 || j >= nodes.len() || j < r {
        false
    } else if j == r {
        true
    } else {
        match nodes[j].parent {
            Some(p) => if (p as int) < j { in_subtree(nodes, p as int, r) } else { false },
            None => false,
        }
    }
}

/// Whether revoking `root` (itself too, if `also_root`) removes capability `i`.
pub open spec fn revokes(nodes: Seq<CapNode>, root: int, also_root: bool, i: int) -> bool {
    nodes[i].alive && in_subtree(nodes, i, root) && (i != root || also_root)
}

/// The capabilities a revocation removes among `lo .. hi`, from the highest index down.
pub open spec fn revoke_order(nodes: Seq<CapNode>, root: int, also_root: bool, lo: int, hi: int) -> Seq<usize>
    decreases hi - lo,
{
    if lo >= hi {
        Seq::empty()
    } else {
        let rest = revoke_order(nodes, root, also_root, lo + 1, hi);
        if revokes(nodes, root, also_root, lo) { rest.push(lo as usize) } else { rest }
    }
}

/// The capabilities after revoking `root` (itself too, if `also_root`).
pub open spec fn after_revoke(nodes: Seq<CapNode>, root: int, also_root: bool) -> Seq<CapNode> {
    Seq::new(nodes.len(), |i: int| CapNode { alive: nodes[i].alive && !revokes(nodes, root, also_root, i), ..nodes[i] })
}

proof fn lemma_in_subtree_parents(a: Seq<CapNode>, b: Seq<CapNode>, j: int, r: int)
    requires
        a.len() == b.len(),
        forall|i: int| 0 <= i < a.len() ==> #[trigger] a[i].parent == b[i].parent,
    ensures
        in_subtree(a, j, r) == in_subtree(b, j, r),
    decreases j,
{
    if 0 <= j < a.len() && j > r {
        if let Some(p) = a[j].parent {
            if (p as int) < j {
                lemma_in_subtree_parents(a, b, p as int, r);
            }
        }
    }
}

/// Capabilities form a forest whose parents come first, no capability outlives its parent,
/// and no two live capabilities share a table slot.
pub open spec fn caps_wf(nodes: Seq<CapNode>) -> bool {
    &&& forall|i: int| #![trigger nodes[i].parent] 0 <= i < nodes.len() && nodes[i].parent is Some ==> {
        let p = nodes[i].parent->Some_0 as int;
        p < i && (nodes[i].alive ==> nodes[p].alive)
    }
    &&& forall|i: int, j: int| 0 <= i < nodes.len() && 0 <= j < nodes.len() && i != j && nodes[i].alive
        && nodes[j].alive && nodes[i].act == nodes[j].act && nodes[i].sel == nodes[j].sel
        ==> nodes[i].obj.cap_type() != nodes[j].obj.cap_type()
}

/// All capabilities of all activities, in one arena indexed by creation order.
pub struct CapSpace {
    nodes: Vec<CapNode>,
}

impl View for CapSpace {
    type V = Seq<CapNode>;

    closed spec fn view(&self) -> Seq<CapNode> {
        self.nodes@
    }
}

proof fn lemma_child_in_subtree(nodes: Seq<CapNode>, c: int, root: int)
    requires
        0 <= c < nodes.len(),
        nodes[c].parent is Some,
        (nodes[c].parent->Some_0 as int) < c,
        c != root,
        in_subtree(nodes, nodes[c].parent->Some_0 as int, root),
    ensures
        in_subtree(nodes, c, root),
{
    let p = nodes[c].parent->Some_0 as int;
    assert(p >= root) by {
        if p < root {
            assert(!in_subtree(nodes, p, root));
        }
    }
}

impl CapSpace {
    pub fn new() -> (r: CapSpace)
        ensures
            r@.len() == 0,
            caps_wf(r@),
    {
        CapSpace { nodes: Vec::new() }
    }

    /// Returns capability `i`.
    pub fn node(&self, i: usize) -> (r: CapNode)
        requires
            i < self@.len(),
        ensures
            r == self@[i as int],
    {
        self.nodes[i]
    }

    pub fn len(&self) -> (r: usize)
        ensures
            r == self@.len(),
    {
        self.nodes.len()
    }

    /// Finds the capability of `act` under `sel` of name space `ty`.
    pub fn get(&self, act: ActId, ty: CapType, sel: CapSel) -> (r: Option<usize>)
        requires
            caps_wf(self@),
        ensures
            r is Some <==> lookup(self@, act, ty, sel) is Some,
            r is Some ==> r->Some_0 as int == lookup(self@, act, ty, sel)->Some_0,
            r is Some ==> holds(self@, r->Some_0 as int, act, ty, sel),
    {
        let mut i: usize = 0;
        while i < self.nodes.len()
            invariant
                caps_wf(self.nodes@),
                i <= self.nodes.len(),
                forall|j: int| 0 <= j < i ==> !holds(self.nodes@, j, act, ty, sel),
            decreases self.nodes.len() - i,
        {
            let n = self.nodes[i];
            let t = match n.obj {
                KObject::Mapping(_) => CapType::Mapping,
                _ => CapType::Object,
            };
            if n.alive && n.act == act && t == ty && n.sel == sel {
                proof {
                    assert(holds(self.nodes@, i as int, act, ty, sel));
                    let c = choose|k: int| holds(self.nodes@, k, act, ty, sel);
                    assert(c == i as int);
                }
                return Some(i);
            }
            i = i + 1;
        }
        None
    }

    /// Puts a capability for `obj` into the table of `act` under `sel`, derived from
    /// `parent` if given; the slot has to be free and the parent alive.
    pub fn insert(&mut self, act: ActId, sel: CapSel, obj: KObject, parent: Option<usize>) -> (r: usize)
        requires
            caps_wf(old(self)@),
            lookup(old(self)@, act, obj.cap_type(), sel) is None,
            parent is Some ==> parent->Some_0 < old(self)@.len() && old(self)@[parent->Some_0 as int].alive,
        ensures
            caps_wf(final(self)@),
            r == old(self)@.len(),
            final(self)@ == old(self)@.push(CapNode { act, sel, obj, parent, alive: true }),
    {
        let r = self.nodes.len();
        let ghost o = self.nodes@;
        self.nodes.push(CapNode { act, sel, obj, parent, alive: true });
        proof {
            let n = self.nodes@;
            assert forall|i: int| 0 <= i < n.len() && 0 <= r && #[trigger] n[i].alive && n[i].act == act
                && n[i].sel == sel && i < r implies n[i].obj.cap_type() != obj.cap_type() by {
                if n[i].obj.cap_type() == obj.cap_type() {
                    assert(holds(o, i, act, obj.cap_type(), sel));
                }
            }
        }
        r
    }

    /// Whether capability `j` lies in the subtree of `r`.
    fn subtree_member(&self, j: usize, r: usize) -> (b: bool)
        requires
            caps_wf(self@),
            j < self@.len(),
        ensures
            b == in_subtree(self@, j as int, r as int),
    {
        let mut k: usize = j;
        loop
            invariant
                caps_wf(self.nodes@),
                k < self.nodes.len(),
                in_subtree(self.nodes@, j as int, r as int) == in_subtree(self.nodes@, k as int, r as int),
            decreases k,
        {
            if k < r {
                return false;
            }
            if k == r {
                return true;
            }
            match self.nodes[k].parent {
                Some(p) => {
                    k = p;
                },
                None => {
                    return false;
                },
            }
        }
    }

    /// Revokes capability `root` and everything derived from it; `root` itself stays if
    /// `also_root` is false.  Derived capabilities go before the ones they were derived
    /// from.  Returns the removed capabilities in the order they were removed.
    pub fn revoke(&mut self, root: usize, also_root: bool) -> (log: Vec<usize>)
        requires
            caps_wf(old(self)@),
            root < old(self)@.len(),
        ensures
            caps_wf(final(self)@),
            final(self)@ == after_revoke(old(self)@, root as int, also_root),
            log@ == revoke_order(old(self)@, root as int, also_root, root as int, old(self)@.len() as int),
    {
        let ghost o = self.nodes@;
        let mut log: Vec<usize> = Vec::new();
        let mut hi: usize = self.nodes.len();
        while hi > root
            invariant
                o == old(self)@,
                caps_wf(o),
                caps_wf(self.nodes@),
                root <= hi <= o.len(),
                self.nodes.len() == o.len(),
                forall|i: int| 0 <= i < o.len() ==> #[trigger] self.nodes@[i].parent == o[i].parent,
                forall|i: int| 0 <= i < hi ==> self.nodes@[i] == o[i],
                forall|i: int| hi <= i < o.len() ==> self.nodes@[i] == after_revoke(o, root as int, also_root)[i],
                log@ == revoke_order(o, root as int, also_root, hi as int, o.len() as int),
            decreases hi,
        {
            let j = hi - 1;
            let n = self.nodes[j];
            proof {
                lemma_in_subtree_parents(self.nodes@, o, j as int, root as int);
            }
            if n.alive && (j != root || also_root) && self.subtree_member(j, root) {
                self.nodes.set(j, CapNode { alive: false, ..n });
                log.push(j);
                proof {
                    let s = self.nodes@;
                    assert forall|i: int| #![trigger s[i].parent] 0 <= i < s.len() && s[i].parent is Some implies {
                        let p = s[i].parent->Some_0 as int;
                        p < i && (s[i].alive ==> s[p].alive)
                    } by {
                        let p = s[i].parent->Some_0 as int;
                        assert(o[i].parent == s[i].parent);
                        if s[i].alive && p == j {
                            lemma_child_in_subtree(o, i, root as int);
                        }
                    }
                }
            }
            hi = j;
        }
        proof {
            assert(self.nodes@ =~= after_revoke(o, root as int, also_root)) by {
                assert forall|i: int| 0 <= i < o.len() implies self.nodes@[i] == after_revoke(o, root as int, also_root)[i] by {
                    if i < root {
                        assert(!in_subtree(o, i, root as int));
                    }
                }
            }
        }
        log
    }
}

/// A revocation removes exactly the live capabilities of the subtree, each once, and each
/// before the capability it was derived from.
pub proof fn lemma_revoke_order(nodes: Seq<CapNode>, root: int, also_root: bool, lo: int, hi: int)
    requires
        caps_wf(nodes),
        0 <= lo <= hi <= nodes.len(),
        nodes.len() <= usize::MAX,
    ensures
        forall|a: int, b: int| 0 <= a < b < revoke_order(nodes, root, also_root, lo, hi).len() ==>
            revoke_order(nodes, root, also_root, lo, hi)[a] > revoke_order(nodes, root, also_root, lo, hi)[b],
        forall|i: int| lo <= i < hi ==> (revoke_order(nodes, root, also_root, lo, hi).contains(i as usize)
            <==> revokes(nodes, root, also_root, i)),
        forall|a: int| 0 <= a < revoke_order(nodes, root, also_root, lo, hi).len() ==>
            lo <= #[trigger] revoke_order(nodes, root, also_root, lo, hi)[a] < hi,
        forall|a: int, b: int| 0 <= a < revoke_order(nodes, root, also_root, lo, hi).len()
            && 0 <= b < revoke_order(nodes, root, also_root, lo, hi).len()
            && nodes[revoke_order(nodes, root, also_root, lo, hi)[a] as int].parent
                == Some(revoke_order(nodes, root, also_root, lo, hi)[b]) ==> a < b,
    decreases hi - lo,
{
    let s = revoke_order(nodes, root, also_root, lo, hi);
    if lo < hi {
        lemma_revoke_order(nodes, root, also_root, lo + 1, hi);
        let rest = revoke_order(nodes, root, also_root, lo + 1, hi);
        if revokes(nodes, root, also_root, lo) {
            assert(s == rest.push(lo as usize));
            assert forall|a: int| 0 <= a < s.len() implies lo <= #[trigger] s[a] < hi by {
                if a < rest.len() {
                    assert(s[a] == rest[a]);
                }
            }
            assert forall|a: int, b: int| 0 <= a < b < s.len() implies s[a] > s[b] by {
                assert(s[a] == rest[a]);
                if b < rest.len() {
                    assert(s[b] == rest[b]);
                }
            }
            assert forall|i: int| lo <= i < hi implies (s.contains(i as usize) <==> revokes(nodes, root, also_root, i)) by {
                if i == lo {
                    assert(s[s.len() - 1] == i as usize);
                    if rest.contains(i as usize) {
                        let k = choose|k: int| 0 <= k < rest.len() && rest[k] == i as usize;
                        assert(rest[k] >= lo + 1);
                    }
                } else {
                    if rest.contains(i as usize) {
                        let k = choose|k: int| 0 <= k < rest.len() && rest[k] == i as usize;
                        assert(s[k] == i as usize);
                    }
                    if s.contains(i as usize) {
                        let k = choose|k: int| 0 <= k < s.len() && s[k] == i as usize;
                        assert(k < rest.len());
                        assert(rest[k] == i as usize);
                    }
                }
            }
        } else {
            assert(s == rest);
            assert forall|i: int| lo <= i < hi implies (s.contains(i as usize) <==> revokes(nodes, root, also_root, i)) by {
                if i == lo && rest.contains(i as usize) {
                    let k = choose|k: int| 0 <= k < rest.len() && rest[k] == i as usize;
                    assert(rest[k] >= lo + 1);
                }
            }
        }
        assert forall|a: int, b: int| 0 <= a < s.len() && 0 <= b < s.len()
            && nodes[s[a] as int].parent == Some(s[b]) implies a < b by {
            assert(nodes[s[a] as int].parent is Some);
            assert(s[a] as int > s[b] as int);
            if a > b {
                assert(s[b] > s[a]);
            }
        }
    }
}

/// Revoking a capability together with everything derived from it leaves no capability of
/// that subtree in any table and everything else as it was; the removal order lists each
/// live capability of the subtree exactly once, every one before the capability it was
/// derived from, so that remote invalidations issued in this order reach children first.
pub proof fn lemma_subtree_revoke(nodes: Seq<CapNode>, root: int)
    requires
        caps_wf(nodes),
        0 <= root < nodes.len(),
        nodes.len() <= usize::MAX,
    ensures
        forall|i: int, act: ActId, ty: CapType, sel: CapSel| in_subtree(nodes, i, root)
            ==> !holds(after_revoke(nodes, root, true), i, act, ty, sel),
        forall|i: int| 0 <= i < nodes.len() && !in_subtree(nodes, i, root)
            ==> after_revoke(nodes, root, true)[i] == nodes[i],
        forall|i: int| 0 <= i < nodes.len() && nodes[i].alive && in_subtree(nodes, i, root)
            ==> revoke_order(nodes, root, true, root, nodes.len() as int).contains(i as usize),
        forall|a: int, b: int| 0 <= a < b < revoke_order(nodes, root, true, root, nodes.len() as int).len()
            ==> revoke_order(nodes, root, true, root, nodes.len() as int)[a]
                != revoke_order(nodes, root, true, root, nodes.len() as int)[b],
        forall|a: int| 0 <= a < revoke_order(nodes, root, true, root, nodes.len() as int).len()
            ==> in_subtree(nodes, #[trigger] revoke_order(nodes, root, true, root, nodes.len() as int)[a] as int, root),
        forall|a: int, b: int| 0 <= a < revoke_order(nodes, root, true, root, nodes.len() as int).len()
            && 0 <= b < revoke_order(nodes, root, true, root, nodes.len() as int).len()
            && nodes[revoke_order(nodes, root, true, root, nodes.len() as int)[a] as int].parent
                == Some(revoke_order(nodes, root, true, root, nodes.len() as int)[b]) ==> a < b,
{
    let len = nodes.len() as int;
    lemma_revoke_order(nodes, root, true, root, len);
    let log = revoke_order(nodes, root, true, root, len);
    assert forall|i: int| 0 <= i < nodes.len() && nodes[i].alive && in_subtree(nodes, i, root)
        implies log.contains(i as usize) by {
        assert(revokes(nodes, root, true, i));
    }
    assert forall|a: int| 0 <= a < log.len() implies in_subtree(nodes, #[trigger] log[a] as int, root) by {
        let i = log[a] as int;
        assert(root <= i < len);
        assert(log[a] == i as usize);
        assert(log.contains(i as usize));
        assert(revokes(nodes, root, true, i));
    }
}

} // verus!
