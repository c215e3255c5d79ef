//! What the frame viewer decides: how each node is drawn and which nodes
//! are joined by lines.
use vstd::prelude::*;
use crate::vals::Obj;

verus! {

/// How a node is supported, as the viewer draws it.
#[derive(Debug, Clone, Copy, PartialEq, Eq, Structural)]
pub enum ConstrType {
    /// Fixed: drawn as a triangle.
    FixedC,
    /// Pinned: drawn as a circle.
    FixedXaPoYaP,
    /// Free: drawn as a square.
    NonFixed,
}

impl ConstrType {
    /// The kind of support of a constraint whose stiffness components are
    /// zero where `is_zero` is true: any nonzero stiffness makes it fixed.
    pub open spec fn spec_determine(is_zero: [bool; 3]) -> ConstrType {
        if is_zero@[0] && is_zero@[1] && is_zero@[2] {
            ConstrType::NonFixed
        } else {
            ConstrType::FixedC
        }
    }

    /// The kind of support of a constraint, from which of its stiffness
    /// components are zero.  A pinned support is never the answer: every
    /// support with a nonzero stiffness counts as fixed.
    pub fn determine(is_zero: [bool; 3]) -> (r: ConstrType)
        ensures
            r == Self::spec_determine(is_zero),
            r != ConstrType::FixedXaPoYaP,
    {
        let x = is_zero[0];
        let y = is_zero[1];
        let p = is_zero[2];
        if !(x && y && p) {
            ConstrType::FixedC
        } else if !(x || y) && p {
            ConstrType::FixedXaPoYaP
        } else {
            ConstrType::NonFixed
        }
    }
}

/// Among the first `k` constraints of `obj`, the first one on node `node`.
pub open spec fn first_constraint_on<S>(obj: Obj<S>, node: int, k: int) -> Option<int>
    decreases k,
{
    if k <= 0 {
        None
    } else {
        match first_constraint_on(obj, node, k - 1) {
            Some(c) => Some(c),
            None => if obj.constraints@[k - 1].node_id == node {
                Some(k - 1)
            } else {
                None
            },
        }
    }
}

/// How node `node` is drawn: by the first constraint on it, if any.
pub open spec fn node_constraint_type<S>(obj: Obj<S>, is_zero: Seq<[bool; 3]>, node: int) -> ConstrType {
    match first_constraint_on(obj, node, obj.constraints@.len() as int) {
        Some(c) => ConstrType::spec_determine(is_zero[c]),
        None => ConstrType::NonFixed,
    }
}

proof fn lemma_first_constraint_on<S>(obj: Obj<S>, node: int, k: int)
    requires
        0 <= k <= obj.constraints@.len(),
    ensures
        first_constraint_on(obj, node, k) matches Some(c) ==> 0 <= c < k && obj.constraints@[c].node_id
            == node && forall|c2: int| 0 <= c2 < c ==> obj.constraints@[c2].node_id != node,
        first_constraint_on(obj, node, k) is None ==> forall|c2: int|
            0 <= c2 < k ==> obj.constraints@[c2].node_id != node,
    decreases k,
{
    if k > 0 {
        lemma_first_constraint_on(obj, node, k - 1);
    }
}

/// How each node of `obj` is drawn; `is_zero[c]` tells which stiffness
/// components of constraint `c` are zero.
pub fn node_constraint_types<S>(obj: &Obj<S>, is_zero: &Vec<[bool; 3]>) -> (r: Vec<ConstrType>)
    requires
        is_zero@.len() == obj.constraints@.len(),
    ensures
        r@.len() == obj.nodes@.len(),
        forall|n: int|
            0 <= n < r@.len() ==> #[trigger] r@[n] == node_constraint_type(*obj, is_zero@, n),
{
    let nn = obj.nodes.len();
    let nc = obj.constraints.len();
    let mut r: Vec<ConstrType> = Vec::new();
    for node_id in 0..nn
        invariant
            nn == obj.nodes@.len(),
            nc == obj.constraints@.len(),
            is_zero@.len() == nc,
            r@.len() == node_id,
            forall|n: int|
                0 <= n < node_id ==> #[trigger] r@[n] == node_constraint_type(*obj, is_zero@, n),
    {
        proof {
            lemma_first_constraint_on(*obj, node_id as int, nc as int);
        }
        let mut found: Option<usize> = None;
        let mut c: usize = 0;
        while found.is_none() && c < nc
            invariant
                nc == obj.constraints@.len(),
                0 <= c <= nc,
                found is None ==> c <= nc && forall|c2: int|
                    0 <= c2 < c ==> obj.constraints@[c2].node_id != node_id,
                found matches Some(f) ==> f < nc && obj.constraints@[f as int].node_id == node_id
                    && forall|c2: int| 0 <= c2 < f ==> obj.constraints@[c2].node_id != node_id,
            decreases nc - c + if found is None { 1int } else { 0int },
        {
            if obj.constraints[c].node_id == node_id {
                found = Some(c);
            } else {
                c = c + 1;
            }
        }
        let kind = match found {
            Some(f) => ConstrType::determine(is_zero[f]),
            None => ConstrType::NonFixed,
        };
        r.push(kind);
    }
    r
}

/// Law: for two nodes or more the viewer draws half as many lines as there are
/// nodes, rounded up; none for fewer.
pub proof fn lemma_segment_count(n: int)
    requires
        0 <= n,
    ensures
        n > 1 ==> segment_count(n) * 2 == n || segment_count(n) * 2 == n + 1,
        n <= 1 ==> segment_count(n) == 0,
{
}

/// Number of lines the viewer draws between `n` nodes.
pub open spec fn segment_count(n: int) -> int {
    if n > 1 {
        (n + 1) / 2
    } else {
        0
    }
}

/// The pairs of node positions that the viewer joins by a line: node `x` with
/// node `x + 1`, for every `x` below half the number of nodes, rounded up;
/// nothing for fewer than two nodes.  Every pair names existing nodes.
pub fn element_segments(n: usize) -> (r: Vec<(usize, usize)>)
    ensures
        r@.len() == segment_count(n as int),
        n > 1 ==> r@.len() * 2 == n || r@.len() * 2 == n + 1,
        n <= 1 ==> r@.len() == 0,
        forall|x: int| 0 <= x < r@.len() ==> #[trigger] r@[x] == (x as usize, (x + 1) as usize),
        forall|x: int| 0 <= x < r@.len() ==> (#[trigger] r@[x]).1 < n,
{
    let mut r: Vec<(usize, usize)> = Vec::new();
    if n > 1 {
        let count = n / 2 + n % 2;
        for x in 0..count
            invariant
                n > 1,
                count == (n + 1) / 2,
                r@.len() == x,
                forall|x2: int| 0 <= x2 < x ==> #[trigger] r@[x2] == (x2 as usize, (x2 + 1) as usize),
        {
            r.push((x, x + 1));
        }
    }
    r
}

/// The first index at which `hit` is true, among the first `k`.
pub open spec fn first_hit(hit: Seq<bool>, k: int) -> Option<int>
    decreases k,
{
    if k <= 0 {
        None
    } else {
        match first_hit(hit, k - 1) {
            Some(i) => Some(i),
            None => if hit[k - 1] {
                Some(k - 1)
            } else {
                None
            },
        }
    }
}

proof fn lemma_first_hit(hit: Seq<bool>, k: int)
    requires
        0 <= k <= hit.len(),
    ensures
        first_hit(hit, k) matches Some(i) ==> 0 <= i < k && hit[i] && forall|i2: int|
            0 <= i2 < i ==> !hit[i2],
        first_hit(hit, k) is None ==> forall|i2: int| 0 <= i2 < k ==> !hit[i2],
    decreases k,
{
    if k > 0 {
        lemma_first_hit(hit, k - 1);
    }
}

/// Removes the first item whose entry in `hit` is true (the first node under
/// the pointer, for the viewer), keeping the order of the others; nothing
/// changes when no item is hit.
pub fn remove_first_hit<T>(items: &mut Vec<T>, hit: &Vec<bool>)
    requires
        hit@.len() == old(items)@.len(),
    ensures
        final(items)@ == match first_hit(hit@, hit@.len() as int) {
            Some(i) => old(items)@.remove(i),
            None => old(items)@,
        },
{
    proof {
        lemma_first_hit(hit@, hit@.len() as int);
    }
    let n = hit.len();
    let mut i: usize = 0;
    while i < n && !hit[i]
        invariant
            n == hit@.len(),
            0 <= i <= n,
            forall|i2: int| 0 <= i2 < i ==> !hit@[i2],
        decreases n - i,
    {
        i = i + 1;
    }
    if i < n {
        items.remove(i);
    }
}

} // verus!
