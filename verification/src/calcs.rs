//! The direct stiffness method, apart from its floating-point arithmetic.
use vstd::prelude::*;
use crate::vals::{Element, Obj};

verus! {

impl<S> Obj<S> {
    /// Number of degrees of freedom of the global system: three per element,
    /// plus three.
    pub open spec fn spec_dof_count(&self) -> int {
        (self.elements@.len() * 3 + 3) as int
    }

    /// Number of rows (and columns) of the global stiffness matrix.
    pub fn dof_count(&self) -> (n: usize)
        requires
            self.elements@.len() * 3 + 3 <= usize::MAX,
        ensures
            n == self.spec_dof_count(),
    {
        self.elements.len() * 3 + 3
    }
}

/// Global degree of freedom of local degree of freedom `a` (0..6) of an element:
/// the first three belong to its beginning node, the last three to its end node.
pub open spec fn element_dof<S>(el: Element<S>, a: int) -> int {
    (if a < 3 { el.b_id as int } else { el.e_id as int }) * 3 + a % 3
}

/// Where the `t`-th triplet of the assembly comes from: element `t / 36`, and
/// within it the local row `u` and local column `v` of its matrix.  Each element
/// contributes its entries block by block: for `i` and `j` in `0..3`, the four
/// blocks (beginning, beginning), (end, beginning), (beginning, end), (end, end).
pub open spec fn assembly_source(t: int) -> (int, int, int) {
    let k = t / 36;
    let r = t % 36;
    let i = r / 12;
    let j = (r % 12) / 4;
    let m = r % 4;
    (k, i + 3 * (m % 2), j + 3 * (m / 2))
}

/// Index-free form of `t` when it is given by element `k`, block position
/// `(i, j)` and block `m`.
pub proof fn lemma_assembly_index(k: int, i: int, j: int, m: int)
    requires
        0 <= k,
        0 <= i < 3,
        0 <= j < 3,
        0 <= m < 4,
    ensures
        assembly_source(36 * k + 12 * i + 4 * j + m) == (k, i + 3 * (m % 2), j + 3 * (m / 2)),
{
    let t = 36 * k + 12 * i + 4 * j + m;
    assert(t / 36 == k && t % 36 == 12 * i + 4 * j + m) by (nonlinear_arith)
        requires
            t == 36 * k + 12 * i + 4 * j + m,
            0 <= k,
            0 <= i < 3,
            0 <= j < 3,
            0 <= m < 4,
    ;
    let r = 12 * i + 4 * j + m;
    assert(r / 12 == i && r % 12 == 4 * j + m) by (nonlinear_arith)
        requires
            r == 12 * i + 4 * j + m,
            0 <= i < 3,
            0 <= j < 3,
            0 <= m < 4,
    ;
    assert((4 * j + m) / 4 == j && (4 * j + m) % 4 == m) by (nonlinear_arith)
        requires
            0 <= j < 3,
            0 <= m < 4,
    ;
    assert(r % 4 == m) by (nonlinear_arith)
        requires
            r == 12 * i + 4 * j + m,
            0 <= i < 3,
            0 <= j < 3,
            0 <= m < 4,
    ;
}

impl<S> Obj<S> {
    /// Every element joins nodes whose degrees of freedom lie in the global system.
    pub open spec fn elements_in_system(&self) -> bool {
        forall|k: int|
            0 <= k < self.elements@.len() ==> {
                &&& (#[trigger] self.elements@[k]).b_id * 3 + 3 <= self.spec_dof_count()
                &&& self.elements@[k].e_id * 3 + 3 <= self.spec_dof_count()
            }
    }

    /// The `t`-th triplet (row, column, value) of the assembled global
    /// stiffness matrix, given the element matrices `mats` in global axes:
    /// local entry `(u, v)` of element `k` is added at global row
    /// `element_dof(v)` and column `element_dof(u)`.
    pub open spec fn assembly_triplet(&self, mats: Seq<[[S; 6]; 6]>, t: int) -> (int, int, S) {
        let (k, u, v) = assembly_source(t);
        let el = self.elements@[k];
        (element_dof(el, v), element_dof(el, u), mats[k]@[u]@[v])
    }
}

/// A triplet of the global matrix matches its specification.
pub open spec fn triplet_is<S>(x: (usize, usize, S), y: (int, int, S)) -> bool {
    x.0 as int == y.0 && x.1 as int == y.1 && x.2 == y.2
}

impl<S: Copy> Obj<S> {
    /// The triplets of the global stiffness matrix, before duplicates are
    /// summed and before boundary conditions: `mats[k]` is the stiffness
    /// matrix of element `k` in global axes, and each of its 36 entries goes to
    /// the rows and columns of the degrees of freedom of the element's nodes.
    pub fn assembly_triplets(&self, mats: &Vec<[[S; 6]; 6]>) -> (res: Vec<(usize, usize, S)>)
        requires
            mats@.len() == self.elements@.len(),
            self.spec_dof_count() <= usize::MAX,
            self.elements_in_system(),
        ensures
            res@.len() == 36 * self.elements@.len(),
            forall|t: int|
                0 <= t < res@.len() ==> triplet_is(
                    #[trigger] res@[t],
                    self.assembly_triplet(mats@, t),
                ),
            forall|t: int|
                0 <= t < res@.len() ==> (#[trigger] res@[t]).0 < self.spec_dof_count() && res@[t].1
                    < self.spec_dof_count(),
    {
        let n = self.elements.len();
        let mut res: Vec<(usize, usize, S)> = Vec::new();
        for k in 0..n
            invariant
                n == self.elements@.len(),
                mats@.len() == n,
                self.spec_dof_count() <= usize::MAX,
                self.elements_in_system(),
                res@.len() == 36 * k,
                forall|t: int|
                    0 <= t < res@.len() ==> triplet_is(
                        #[trigger] res@[t],
                        self.assembly_triplet(mats@, t),
                    ),
        {
            let el = &self.elements[k];
            assert(el.b_id * 3 + 3 <= self.spec_dof_count() && el.e_id * 3 + 3 <= self.spec_dof_count());
            let b3 = el.b_id * 3;
            let e3 = el.e_id * 3;
            let m = &mats[k];
            for i in 0..3
                invariant
                    n == self.elements@.len(),
                    mats@.len() == n,
                    0 <= k < n,
                    *el == self.elements@[k as int],
                    *m == mats@[k as int],
                    b3 == el.b_id * 3,
                    e3 == el.e_id * 3,
                    b3 + 3 <= self.spec_dof_count(),
                    self.spec_dof_count() <= usize::MAX,
                    e3 + 3 <= self.spec_dof_count(),
                    res@.len() == 36 * k + 12 * i,
                    forall|t: int|
                        0 <= t < res@.len() ==> triplet_is(
                            #[trigger] res@[t],
                            self.assembly_triplet(mats@, t),
                        ),
            {
                for j in 0..3
                    invariant
                        n == self.elements@.len(),
                        mats@.len() == n,
                        0 <= k < n,
                        0 <= i < 3,
                        *el == self.elements@[k as int],
                        *m == mats@[k as int],
                        b3 == el.b_id * 3,
                        e3 == el.e_id * 3,
                        b3 + 3 <= self.spec_dof_count(),
                        self.spec_dof_count() <= usize::MAX,
                        e3 + 3 <= self.spec_dof_count(),
                        res@.len() == 36 * k + 12 * i + 4 * j,
                        forall|t: int|
                            0 <= t < res@.len() ==> triplet_is(
                                #[trigger] res@[t],
                                self.assembly_triplet(mats@, t),
                            ),
                {
                    proof {
                        lemma_assembly_index(k as int, i as int, j as int, 0);
                        lemma_assembly_index(k as int, i as int, j as int, 1);
                        lemma_assembly_index(k as int, i as int, j as int, 2);
                        lemma_assembly_index(k as int, i as int, j as int, 3);
                    }
                    res.push((b3 + j, b3 + i, m[i][j]));
                    res.push((b3 + j, e3 + i, m[i + 3][j]));
                    res.push((e3 + j, b3 + i, m[i][j + 3]));
                    res.push((e3 + j, e3 + i, m[i + 3][j + 3]));
                }
            }
        }
        proof {
            assert forall|t: int| 0 <= t < res@.len() implies (#[trigger] res@[t]).0
                < self.spec_dof_count() && res@[t].1 < self.spec_dof_count() by {
                let (k, u, v) = assembly_source(t);
                assert(0 <= k < n) by (nonlinear_arith)
                    requires
                        k == t / 36,
                        0 <= t < 36 * n,
                ;
                assert(0 <= u < 6 && 0 <= v < 6);
                assert(triplet_is(res@[t], self.assembly_triplet(mats@, t)));
            }
        }
        res
    }
}

/// Every element matrix is symmetric.
pub open spec fn all_symmetric<S>(mats: Seq<[[S; 6]; 6]>) -> bool {
    forall|k: int, u: int, v: int|
        0 <= k < mats.len() && 0 <= u < 6 && 0 <= v < 6 ==> #[trigger] mats[k]@[u]@[v]
            == mats[k]@[v]@[u]
}

/// The index of the mirror of the `t`-th triplet of the assembly: the triplet
/// of the same element whose local row and column are exchanged.
pub open spec fn assembly_mirror(t: int) -> int {
    let k = t / 36;
    let i = (t % 36) / 12;
    let j = ((t % 36) % 12) / 4;
    let m = (t % 36) % 4;
    36 * k + 12 * j + 4 * i + (m / 2 + 2 * (m % 2))
}

/// Law: when every element matrix is symmetric, the assembly is symmetric too.
/// The triplets pair off: the mirror of triplet `t` is a triplet of the
/// assembly, the mirror of the mirror is `t` itself, and the mirror has row
/// and column exchanged and the same value.  So the sum of the triplets at
/// `(r, c)` equals the sum of those at `(c, r)`.
pub proof fn lemma_assembly_symmetric<S>(obj: Obj<S>, mats: Seq<[[S; 6]; 6]>, t: int)
    requires
        mats.len() == obj.elements@.len(),
        all_symmetric(mats),
        0 <= t < 36 * obj.elements@.len(),
    ensures
        0 <= assembly_mirror(t) < 36 * obj.elements@.len(),
        assembly_mirror(assembly_mirror(t)) == t,
        obj.assembly_triplet(mats, assembly_mirror(t)) == (
            obj.assembly_triplet(mats, t).1,
            obj.assembly_triplet(mats, t).0,
            obj.assembly_triplet(mats, t).2,
        ),
{
    let n = obj.elements@.len();
    let k = t / 36;
    let i = (t % 36) / 12;
    let j = ((t % 36) % 12) / 4;
    let m = (t % 36) % 4;
    assert(t == 36 * k + 12 * i + 4 * j + m && 0 <= k < n && 0 <= i < 3 && 0 <= j < 3 && 0 <= m
        < 4) by (nonlinear_arith)
        requires
            0 <= t < 36 * n,
            k == t / 36,
            i == (t % 36) / 12,
            j == ((t % 36) % 12) / 4,
            m == (t % 36) % 4,
    ;
    let m2 = m / 2 + 2 * (m % 2);
    let t2 = 36 * k + 12 * j + 4 * i + m2;
    assert(t2 == assembly_mirror(t));
    lemma_assembly_index(k, i, j, m);
    lemma_assembly_index(k, j, i, m2);
    assert(0 <= t2 < 36 * n) by (nonlinear_arith)
        requires
            t2 == 36 * k + 12 * j + 4 * i + m2,
            0 <= k < n,
            0 <= i < 3,
            0 <= j < 3,
            0 <= m2 < 4,
    ;
    lemma_mirror_decomposition(k, j, i, m2);
    assert(m2 / 2 + 2 * (m2 % 2) == m);
    let u = i + 3 * (m % 2);
    let v = j + 3 * (m / 2);
    assert(mats[k]@[u]@[v] == mats[k]@[v]@[u]);
    assert(obj.assembly_triplet(mats, t2) == (
        obj.assembly_triplet(mats, t).1,
        obj.assembly_triplet(mats, t).0,
        obj.assembly_triplet(mats, t).2,
    ));
}

/// The mirror index of `t`, when `t` is given by element `k`, block position
/// `(i, j)` and block `m`.
proof fn lemma_mirror_decomposition(k: int, i: int, j: int, m: int)
    requires
        0 <= k,
        0 <= i < 3,
        0 <= j < 3,
        0 <= m < 4,
    ensures
        assembly_mirror(36 * k + 12 * i + 4 * j + m) == 36 * k + 12 * j + 4 * i + (m / 2 + 2 * (m
            % 2)),
{
    let t = 36 * k + 12 * i + 4 * j + m;
    assert(t / 36 == k && (t % 36) / 12 == i && ((t % 36) % 12) / 4 == j && (t % 36) % 4 == m)
        by (nonlinear_arith)
        requires
            t == 36 * k + 12 * i + 4 * j + m,
            0 <= k,
            0 <= i < 3,
            0 <= j < 3,
            0 <= m < 4,
    ;
}

impl<S> Obj<S> {
    /// `active[k][d]` tells whether constraint `k` fixes its degree of freedom
    /// `d`, and every fixed degree of freedom has a global index.
    pub open spec fn supports_well_formed(&self, active: Seq<[bool; 3]>) -> bool {
        &&& active.len() == self.constraints@.len()
        &&& forall|k: int, d: int|
            0 <= k < active.len() && 0 <= d < 3 && #[trigger] active[k]@[d]
                ==> self.constraints@[k].node_id * 3 + d <= usize::MAX
    }

    /// Global degree of freedom `x` is fixed by some constraint.
    pub open spec fn dof_is_fixed(&self, active: Seq<[bool; 3]>, x: int) -> bool {
        exists|k: int, d: int|
            0 <= k < self.constraints@.len() && 0 <= d < 3 && #[trigger] active[k]@[d]
                && self.constraints@[k].node_id * 3 + d == x
    }

    /// A triplet of the global matrix after the boundary conditions: on the
    /// row or the column of a fixed degree of freedom, the diagonal entry
    /// becomes `one` and every other entry `zero`; other entries keep their value.
    pub open spec fn constrained_triplet(
        &self,
        active: Seq<[bool; 3]>,
        x: (usize, usize, S),
        one: S,
        zero: S,
    ) -> (usize, usize, S) {
        if x.0 == x.1 && self.dof_is_fixed(active, x.0 as int) {
            (x.0, x.1, one)
        } else if x.0 != x.1 && (self.dof_is_fixed(active, x.0 as int) || self.dof_is_fixed(
            active,
            x.1 as int,
        )) {
            (x.0, x.1, zero)
        } else {
            x
        }
    }

    /// Whether global degree of freedom `x` is fixed by some constraint.
    pub fn is_fixed_dof(&self, active: &Vec<[bool; 3]>, x: usize) -> (b: bool)
        requires
            self.supports_well_formed(active@),
        ensures
            b == self.dof_is_fixed(active@, x as int),
            forall|k: int, d: int|
                0 <= k < self.constraints@.len() && 0 <= d < 3 && #[trigger] active@[k]@[d]
                    && self.constraints@[k].node_id * 3 + d == x ==> b,
            b ==> exists|k: int, d: int|
                0 <= k < self.constraints@.len() && 0 <= d < 3 && #[trigger] active@[k]@[d]
                    && self.constraints@[k].node_id * 3 + d == x,
    {
        let nc = self.constraints.len();
        for k in 0..nc
            invariant
                nc == self.constraints@.len(),
                self.supports_well_formed(active@),
                forall|k2: int, d: int|
                    0 <= k2 < k && 0 <= d < 3 && #[trigger] active@[k2]@[d]
                        ==> self.constraints@[k2].node_id * 3 + d != x,
        {
            let node = self.constraints[k].node_id;
            for d in 0..3
                invariant
                    nc == self.constraints@.len(),
                    0 <= k < nc,
                    node == self.constraints@[k as int].node_id,
                    self.supports_well_formed(active@),
                    forall|k2: int, d2: int|
                        0 <= k2 < k && 0 <= d2 < 3 && #[trigger] active@[k2]@[d2]
                            ==> self.constraints@[k2].node_id * 3 + d2 != x,
                    forall|d2: int|
                        0 <= d2 < d && #[trigger] active@[k as int]@[d2] ==> node * 3 + d2 != x,
            {
                if active[k][d] {
                    if node * 3 + d == x {
                        return true;
                    }
                }
            }
        }
        false
    }

    /// Applies the boundary conditions to the triplets of the global matrix
    /// (duplicates already summed): see `constrained_triplet`.
    pub fn apply_constraints(
        &self,
        triplets: &mut Vec<(usize, usize, S)>,
        active: &Vec<[bool; 3]>,
        one: S,
        zero: S,
    ) where S: Copy
        requires
            self.supports_well_formed(active@),
        ensures
            final(triplets)@.len() == old(triplets)@.len(),
            forall|t: int|
                0 <= t < old(triplets)@.len() ==> #[trigger] final(triplets)@[t]
                    == self.constrained_triplet(active@, old(triplets)@[t], one, zero),
            forall|t: int, k: int, d: int|
                0 <= t < old(triplets)@.len() && 0 <= k < self.constraints@.len() && 0 <= d < 3
                    && #[trigger] active@[k]@[d] && (self.constraints@[k].node_id * 3 + d
                    == old(triplets)@[t].0 || self.constraints@[k].node_id * 3 + d
                    == old(triplets)@[t].1) ==> #[trigger] final(triplets)@[t] == (
                    old(triplets)@[t].0,
                    old(triplets)@[t].1,
                    if old(triplets)@[t].0 == old(triplets)@[t].1 {
                        one
                    } else {
                        zero
                    },
                ),
            forall|t: int|
                0 <= t < old(triplets)@.len() && (forall|k: int, d: int|
                    0 <= k < self.constraints@.len() && 0 <= d < 3 && #[trigger] active@[k]@[d]
                        ==> self.constraints@[k].node_id * 3 + d != old(triplets)@[t].0
                        && self.constraints@[k].node_id * 3 + d != old(triplets)@[t].1)
                    ==> #[trigger] final(triplets)@[t] == old(triplets)@[t],
    {
        let len = triplets.len();
        for t in 0..len
            invariant
                len == old(triplets)@.len(),
                triplets@.len() == len,
                self.supports_well_formed(active@),
                forall|t2: int|
                    0 <= t2 < t ==> #[trigger] triplets@[t2] == self.constrained_triplet(
                        active@,
                        old(triplets)@[t2],
                        one,
                        zero,
                    ),
                forall|t2: int| t <= t2 < len ==> #[trigger] triplets@[t2] == old(triplets)@[t2],
        {
            let (r, c, v) = triplets[t];
            let fixed_r = self.is_fixed_dof(active, r);
            let fixed_c = self.is_fixed_dof(active, c);
            if r == c && fixed_r {
                triplets.set(t, (r, c, one));
            } else if r != c && (fixed_r || fixed_c) {
                triplets.set(t, (r, c, zero));
            }
        }
        proof {
            assert forall|t: int, k: int, d: int|
                0 <= t < old(triplets)@.len() && 0 <= k < self.constraints@.len() && 0 <= d < 3
                    && #[trigger] active@[k]@[d] && (self.constraints@[k].node_id * 3 + d
                    == old(triplets)@[t].0 || self.constraints@[k].node_id * 3 + d
                    == old(triplets)@[t].1) implies #[trigger] triplets@[t] == (
                old(triplets)@[t].0,
                old(triplets)@[t].1,
                if old(triplets)@[t].0 == old(triplets)@[t].1 {
                    one
                } else {
                    zero
                },
            ) by {
                lemma_fixed_row_or_column(*self, active@, old(triplets)@[t], one, zero, k, d);
            }
        }
    }
}

/// Law: applying the boundary conditions a second time changes nothing.
pub proof fn lemma_constraints_idempotent<S>(
    obj: Obj<S>,
    active: Seq<[bool; 3]>,
    x: (usize, usize, S),
    one: S,
    zero: S,
)
    ensures
        obj.constrained_triplet(active, obj.constrained_triplet(active, x, one, zero), one, zero)
            == obj.constrained_triplet(active, x, one, zero),
{
}

/// Law: the boundary conditions treat an entry and its mirror entry alike, so
/// a symmetric matrix stays symmetric.
pub proof fn lemma_constraints_keep_symmetry<S>(
    obj: Obj<S>,
    active: Seq<[bool; 3]>,
    x: (usize, usize, S),
    one: S,
    zero: S,
)
    ensures
        ({
            let y = obj.constrained_triplet(active, (x.1, x.0, x.2), one, zero);
            let z = obj.constrained_triplet(active, x, one, zero);
            y == (z.1, z.0, z.2)
        }),
{
}

/// Law: every support fixes each of its active degrees of freedom: for every
/// constraint `k` (not only the first) and every `d` with `active[k][d]`,
/// degree of freedom `node * 3 + d` is fixed.
pub proof fn lemma_support_fixes_its_dofs<S>(obj: Obj<S>, active: Seq<[bool; 3]>, k: int, d: int)
    requires
        0 <= k < obj.constraints@.len(),
        0 <= d < 3,
        active[k]@[d],
    ensures
        obj.dof_is_fixed(active, obj.constraints@[k].node_id * 3 + d),
{
}

/// Law: when the row or the column (or both) of an entry is a degree of
/// freedom fixed by constraint `k`, the boundary conditions make the entry
/// `one` on the diagonal and `zero` off it.
pub proof fn lemma_fixed_row_or_column<S>(
    obj: Obj<S>,
    active: Seq<[bool; 3]>,
    x: (usize, usize, S),
    one: S,
    zero: S,
    k: int,
    d: int,
)
    requires
        0 <= k < obj.constraints@.len(),
        0 <= d < 3,
        active[k]@[d],
        obj.constraints@[k].node_id * 3 + d == x.0 || obj.constraints@[k].node_id * 3 + d == x.1,
    ensures
        obj.constrained_triplet(active, x, one, zero) == (
            x.0,
            x.1,
            if x.0 == x.1 {
                one
            } else {
                zero
            },
        ),
{
    lemma_support_fixes_its_dofs(obj, active, k, d);
}

/// Law: an entry whose row and column are fixed by no constraint keeps its value.
pub proof fn lemma_free_entry_kept<S>(obj: Obj<S>, active: Seq<[bool; 3]>, x: (usize, usize, S), one: S, zero: S)
    requires
        forall|k: int, d: int|
            0 <= k < obj.constraints@.len() && 0 <= d < 3 && #[trigger] active[k]@[d]
                ==> obj.constraints@[k].node_id * 3 + d != x.0 && obj.constraints@[k].node_id * 3 + d
                != x.1,
    ensures
        obj.constrained_triplet(active, x, one, zero) == x,
{
}

impl<S> Obj<S> {
    /// Load `k` is applied: some constraint stands on another node.
    pub open spec fn load_is_applied(&self, k: int) -> bool {
        exists|c: int|
            0 <= c < self.constraints@.len() && #[trigger] self.constraints@[c].node_id
                != self.loads@[k].node_id
    }

    /// Load `k` acts on global degree of freedom `p`.
    pub open spec fn load_covers(&self, k: int, p: int) -> bool {
        self.loads@[k].node_id * 3 <= p < self.loads@[k].node_id * 3 + 3
    }

    /// Among the first `k` loads, the last one that is applied and acts on
    /// degree of freedom `p`.
    pub open spec fn last_load_at(&self, p: int, k: int) -> Option<int>
        decreases k,
    {
        if k <= 0 {
            None
        } else if self.load_is_applied(k - 1) && self.load_covers(k - 1, p) {
            Some(k - 1)
        } else {
            self.last_load_at(p, k - 1)
        }
    }

    /// Entry `p` of the load vector once the first `k` loads are in: the
    /// component of the last applied load on that degree of freedom, or `zero`.
    pub open spec fn load_entry_upto(&self, p: int, k: int, zero: S) -> S {
        match self.last_load_at(p, k) {
            Some(l) => self.loads@[l].forces@[p - self.loads@[l].node_id * 3],
            None => zero,
        }
    }

    /// Entry `p` of the global load vector.
    pub open spec fn load_entry(&self, p: int, zero: S) -> S {
        self.load_entry_upto(p, self.loads@.len() as int, zero)
    }

    /// Every applied load acts on degrees of freedom of the global system.
    pub open spec fn loads_in_system(&self) -> bool {
        forall|k: int|
            0 <= k < self.loads@.len() && #[trigger] self.load_is_applied(k) ==> self.loads@[k].node_id
                * 3 + 3 <= self.spec_dof_count()
    }

    /// The global load vector: for each load, in order, that some constraint
    /// on another node lets through, its three components at the degrees of
    /// freedom of its node; `zero` elsewhere.
    pub fn c_glvec(&self, zero: S) -> (v: Vec<S>) where S: Copy
        requires
            self.spec_dof_count() <= usize::MAX,
            self.loads_in_system(),
        ensures
            v@.len() == self.spec_dof_count(),
            forall|p: int| 0 <= p < v@.len() ==> #[trigger] v@[p] == self.load_entry(p, zero),
    {
        let n = self.dof_count();
        let mut input: Vec<S> = Vec::new();
        while input.len() < n
            invariant
                input@.len() <= n,
                forall|p: int| 0 <= p < input@.len() ==> #[trigger] input@[p] == zero,
            decreases n - input@.len(),
        {
            input.push(zero);
        }
        let nl = self.loads.len();
        let nc = self.constraints.len();
        for li in 0..nl
            invariant
                nl == self.loads@.len(),
                nc == self.constraints@.len(),
                n == self.spec_dof_count(),
                input@.len() == n,
                self.loads_in_system(),
                forall|p: int|
                    0 <= p < n ==> #[trigger] input@[p] == self.load_entry_upto(p, li as int, zero),
        {
            let load = &self.loads[li];
            let ghost before = input@;
            for ci in 0..nc
                invariant
                    nl == self.loads@.len(),
                    nc == self.constraints@.len(),
                    0 <= li < nl,
                    *load == self.loads@[li as int],
                    n == self.spec_dof_count(),
                    input@.len() == n,
                    self.loads_in_system(),
                    before.len() == n,
                    (exists|c: int|
                        0 <= c < ci && #[trigger] self.constraints@[c].node_id != load.node_id) ==> {
                        &&& load.node_id * 3 + 3 <= n
                        &&& forall|p: int|
                            0 <= p < n ==> #[trigger] input@[p] == if self.load_covers(li as int, p) {
                                load.forces@[p - load.node_id * 3]
                            } else {
                                before[p]
                            }
                    },
                    !(exists|c: int|
                        0 <= c < ci && #[trigger] self.constraints@[c].node_id != load.node_id)
                        ==> input@ == before,
            {
                if self.constraints[ci].node_id != load.node_id {
                    assert(self.load_is_applied(li as int));
                    let base = load.node_id * 3;
                    input.set(base, load.forces[0]);
                    input.set(base + 1, load.forces[1]);
                    input.set(base + 2, load.forces[2]);
                    assert forall|p: int| 0 <= p < n implies #[trigger] input@[p] == if self.load_covers(
                        li as int,
                        p,
                    ) {
                        load.forces@[p - load.node_id * 3]
                    } else {
                        before[p]
                    } by {
                        if !self.load_covers(li as int, p) && !(exists|c: int|
                            0 <= c < ci && #[trigger] self.constraints@[c].node_id != load.node_id) {
                            assert(input@[p] == before[p]);
                        }
                    }
                }
            }
            proof {
                assert forall|p: int| 0 <= p < n implies #[trigger] input@[p]
                    == self.load_entry_upto(p, li + 1, zero) by {
                    if self.load_is_applied(li as int) {
                        let c = choose|c: int|
                            0 <= c < self.constraints@.len() && #[trigger] self.constraints@[c].node_id
                                != self.loads@[li as int].node_id;
                        assert(0 <= c < nc && self.constraints@[c].node_id != load.node_id);
                    } else {
                        assert(!(exists|c: int|
                            0 <= c < nc && #[trigger] self.constraints@[c].node_id != load.node_id));
                    }
                }
            }
        }
        input
    }
}

/// Position in the displacement vector of local degree of freedom `a` (0..6)
/// of an element, as the end forces are computed: the three entries that
/// start at the beginning node's index, then the three that start at the end
/// node's index.
pub open spec fn displacement_index<S>(el: Element<S>, a: int) -> int {
    (if a < 3 { el.b_id as int } else { el.e_id as int }) + a % 3
}

impl<S> Obj<S> {
    /// The displacement vector `z` reaches every entry that an element reads.
    pub open spec fn displacements_cover(&self, z_len: int) -> bool {
        forall|k: int|
            0 <= k < self.elements@.len() ==> {
                &&& (#[trigger] self.elements@[k]).b_id + 3 <= z_len
                &&& self.elements@[k].e_id + 3 <= z_len
            }
    }

    /// The end displacements of each element, read from the global
    /// displacement vector `z`: entry `a` of element `k` is
    /// `z[displacement_index(a)]`.
    pub fn element_displacements(&self, z: &Vec<S>) -> (res: Vec<[S; 6]>) where S: Copy
        requires
            self.displacements_cover(z@.len() as int),
        ensures
            res@.len() == self.elements@.len(),
            forall|k: int, a: int|
                0 <= k < res@.len() && 0 <= a < 6 ==> #[trigger] res@[k]@[a]
                    == z@[displacement_index(self.elements@[k], a)],
    {
        let n = self.elements.len();
        let mut res: Vec<[S; 6]> = Vec::new();
        for k in 0..n
            invariant
                n == self.elements@.len(),
                self.displacements_cover(z@.len() as int),
                res@.len() == k,
                forall|k2: int, a: int|
                    0 <= k2 < k && 0 <= a < 6 ==> #[trigger] res@[k2]@[a]
                        == z@[displacement_index(self.elements@[k2], a)],
        {
            let el = &self.elements[k];
            assert(el.b_id + 3 <= z.len() && el.e_id + 3 <= z.len());
            let b = el.b_id;
            let e = el.e_id;
            let u: [S; 6] = [z[b], z[b + 1], z[b + 2], z[e], z[e + 1], z[e + 2]];
            assert(forall|a: int|
                0 <= a < 6 ==> #[trigger] u@[a] == z@[displacement_index(self.elements@[k as int], a)]);
            res.push(u);
        }
        res
    }
}

/// What `last_load_at` finds: the last load among the first `k` that is
/// applied and acts on `p`.
proof fn lemma_last_load_at<S>(obj: Obj<S>, p: int, k: int)
    requires
        0 <= k <= obj.loads@.len(),
    ensures
        obj.last_load_at(p, k) matches Some(l) ==> 0 <= l < k && obj.load_is_applied(l)
            && obj.load_covers(l, p) && forall|l2: int|
            l < l2 < k ==> !(obj.load_is_applied(l2) && obj.load_covers(l2, p)),
        obj.last_load_at(p, k) is None ==> forall|l2: int|
            0 <= l2 < k ==> !(obj.load_is_applied(l2) && obj.load_covers(l2, p)),
    decreases k,
{
    if k > 0 {
        lemma_last_load_at(obj, p, k - 1);
    }
}

/// Law: a load is applied whenever some constraint stands on another node,
/// whatever the order of their indices: when constraint `c` stands on another
/// node than load `k`, and no later load on the same node is applied, entries
/// `node * 3 .. node * 3 + 3` of the load vector are the forces of load `k`.
pub proof fn lemma_applied_load_entries<S>(obj: Obj<S>, k: int, c: int, p: int, zero: S)
    requires
        0 <= k < obj.loads@.len(),
        0 <= c < obj.constraints@.len(),
        obj.constraints@[c].node_id != obj.loads@[k].node_id,
        obj.loads@[k].node_id * 3 <= p < obj.loads@[k].node_id * 3 + 3,
        forall|k2: int|
            #![trigger obj.loads@[k2]]
            k < k2 < obj.loads@.len() && obj.loads@[k2].node_id == obj.loads@[k].node_id
                ==> forall|c2: int|
                0 <= c2 < obj.constraints@.len() ==> #[trigger] obj.constraints@[c2].node_id
                    == obj.loads@[k2].node_id,
    ensures
        obj.load_entry(p, zero) == obj.loads@[k].forces@[p - obj.loads@[k].node_id * 3],
{
    let len = obj.loads@.len() as int;
    assert(obj.load_is_applied(k));
    lemma_last_load_at(obj, p, len);
    match obj.last_load_at(p, len) {
        Some(l) => {
            if l != k {
                if l < k {
                    assert(!(obj.load_is_applied(k) && obj.load_covers(k, p)));
                } else {
                    assert(obj.loads@[l].node_id == obj.loads@[k].node_id);
                    let c2 = choose|c2: int|
                        0 <= c2 < obj.constraints@.len() && #[trigger] obj.constraints@[c2].node_id
                            != obj.loads@[l].node_id;
                    assert(obj.constraints@[c2].node_id == obj.loads@[l].node_id);
                }
            }
        },
        None => {},
    }
}

/// Law: an entry of the load vector on which no load is applied (every load
/// on that node has constraints on its own node only) is `zero`.
pub proof fn lemma_unloaded_entry<S>(obj: Obj<S>, p: int, zero: S)
    requires
        forall|k: int|
            #![trigger obj.loads@[k]]
            0 <= k < obj.loads@.len() && obj.loads@[k].node_id * 3 <= p < obj.loads@[k].node_id * 3
                + 3 ==> forall|c: int|
                0 <= c < obj.constraints@.len() ==> #[trigger] obj.constraints@[c].node_id
                    == obj.loads@[k].node_id,
    ensures
        obj.load_entry(p, zero) == zero,
{
    let len = obj.loads@.len() as int;
    lemma_last_load_at(obj, p, len);
    match obj.last_load_at(p, len) {
        Some(l) => {
            let c2 = choose|c2: int|
                0 <= c2 < obj.constraints@.len() && #[trigger] obj.constraints@[c2].node_id
                    != obj.loads@[l].node_id;
            assert(obj.constraints@[c2].node_id == obj.loads@[l].node_id);
        },
        None => {},
    }
}

impl<S> Obj<S> {
    /// Appends the end forces of elements to `s`, after those already there;
    /// the rest of the frame is left as it is.
    pub fn record_end_forces(&mut self, forces: Vec<[S; 6]>)
        ensures
            final(self).s@ == old(self).s@ + forces@,
            final(self).elements == old(self).elements,
            final(self).nodes == old(self).nodes,
            final(self).loads == old(self).loads,
            final(self).physgeos == old(self).physgeos,
            final(self).constraints == old(self).constraints,
    {
        let mut forces = forces;
        self.s.append(&mut forces);
    }
}

} // verus!
