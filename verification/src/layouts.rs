//! The layouts of the element matrices of a plane frame beam, apart from the
//! floating-point values that fill them.
use vstd::prelude::*;

verus! {

/// The five stiffness coefficients of a plane beam element.
pub enum Coef {
    /// `E A / L`
    Axial,
    /// `12 E J / L^3`
    Shear,
    /// `6 E J / L^2`
    Coupling,
    /// `4 E J / L`
    Bending,
    /// `2 E J / L`
    CarryOver,
}

/// An entry of the local stiffness matrix: zero, or a coefficient with a sign.
pub enum Term {
    Zero,
    Pos(Coef),
    Neg(Coef),
}

/// Values for the five stiffness coefficients.
#[derive(Debug, Clone, Copy)]
pub struct BeamStiffness<S> {
    pub axial: S,
    pub shear: S,
    pub coupling: S,
    pub bending: S,
    pub carry_over: S,
}

pub open spec fn coef_value<S>(c: Coef, q: BeamStiffness<S>) -> S {
    match c {
        Coef::Axial => q.axial,
        Coef::Shear => q.shear,
        Coef::Coupling => q.coupling,
        Coef::Bending => q.bending,
        Coef::CarryOver => q.carry_over,
    }
}

/// The value of a term, given the coefficients `pos` and their negatives `neg`.
pub open spec fn term_value<S>(t: Term, pos: BeamStiffness<S>, neg: BeamStiffness<S>, zero: S) -> S {
    match t {
        Term::Zero => zero,
        Term::Pos(c) => coef_value(c, pos),
        Term::Neg(c) => coef_value(c, neg),
    }
}

/// The local stiffness matrix of a plane beam element, row by row, for the
/// degrees of freedom (x, y, rotation) of its beginning node, then of its end node.
pub open spec fn local_stiffness_terms() -> Seq<Seq<Term>> {
    let z = Term::Zero;
    let pa = Term::Pos(Coef::Axial);
    let na = Term::Neg(Coef::Axial);
    let ps = Term::Pos(Coef::Shear);
    let ns = Term::Neg(Coef::Shear);
    let pc = Term::Pos(Coef::Coupling);
    let nc = Term::Neg(Coef::Coupling);
    let pb = Term::Pos(Coef::Bending);
    let po = Term::Pos(Coef::CarryOver);
    seq![
        seq![pa, z, z, na, z, z],
        seq![z, ps, pc, z, ns, pc],
        seq![z, pc, pb, z, nc, po],
        seq![na, z, z, pa, z, z],
        seq![z, ns, nc, z, ps, nc],
        seq![z, pc, po, z, nc, pb],
    ]
}

/// Law: the local stiffness matrix is symmetric.
pub proof fn lemma_local_stiffness_symmetric(r: int, c: int)
    requires
        0 <= r < 6,
        0 <= c < 6,
    ensures
        local_stiffness_terms()[r][c] == local_stiffness_terms()[c][r],
{
}

/// The local stiffness matrix of a beam element, filled with the coefficient
/// values `pos`, their negatives `neg`, and `zero`.
pub fn local_stiffness_layout<S: Copy>(pos: &BeamStiffness<S>, neg: &BeamStiffness<S>, zero: S) -> (m: [[S; 6]; 6])
    ensures
        forall|r: int, c: int|
            0 <= r < 6 && 0 <= c < 6 ==> #[trigger] m@[r]@[c] == term_value(
                local_stiffness_terms()[r][c],
                *pos,
                *neg,
                zero,
            ),
        forall|r: int, c: int| 0 <= r < 6 && 0 <= c < 6 ==> #[trigger] m@[r]@[c] == m@[c]@[r],
{
    let z = zero;
    let m = [
        [pos.axial, z, z, neg.axial, z, z],
        [z, pos.shear, pos.coupling, z, neg.shear, pos.coupling],
        [z, pos.coupling, pos.bending, z, neg.coupling, pos.carry_over],
        [neg.axial, z, z, pos.axial, z, z],
        [z, neg.shear, neg.coupling, z, pos.shear, neg.coupling],
        [z, pos.coupling, pos.carry_over, z, neg.coupling, pos.bending],
    ];
    assert forall|r: int, c: int| 0 <= r < 6 && 0 <= c < 6 implies #[trigger] m@[r]@[c] == term_value(
        local_stiffness_terms()[r][c],
        *pos,
        *neg,
        zero,
    ) by {
        assert(m@[0]@ == seq![pos.axial, z, z, neg.axial, z, z]);
    }
    m
}


/// An entry of the rotation matrix of an element.
pub enum RotationTerm {
    Zero,
    One,
    Cos,
    Sin,
    NegSin,
}

pub open spec fn rotation_value<S>(t: RotationTerm, cos: S, sin: S, neg_sin: S, zero: S, one: S) -> S {
    match t {
        RotationTerm::Zero => zero,
        RotationTerm::One => one,
        RotationTerm::Cos => cos,
        RotationTerm::Sin => sin,
        RotationTerm::NegSin => neg_sin,
    }
}

/// The matrix that turns global end displacements of an element into local
/// ones: a rotation by the element's angle for each node, rotations untouched.
pub open spec fn rotation_terms() -> Seq<Seq<RotationTerm>> {
    let z = RotationTerm::Zero;
    let o = RotationTerm::One;
    let c = RotationTerm::Cos;
    let s = RotationTerm::Sin;
    let n = RotationTerm::NegSin;
    seq![
        seq![c, s, z, z, z, z],
        seq![n, c, z, z, z, z],
        seq![z, z, o, z, z, z],
        seq![z, z, z, c, s, z],
        seq![z, z, z, n, c, z],
        seq![z, z, z, z, z, o],
    ]
}

/// Law: the rotation matrix is block diagonal with two equal blocks, one per
/// node, and in each block the sine stands opposite its negative.
pub proof fn lemma_rotation_blocks(r: int, c: int)
    requires
        0 <= r < 6,
        0 <= c < 6,
    ensures
        (r < 3) != (c < 3) ==> rotation_terms()[r][c] == RotationTerm::Zero,
        r < 3 && c < 3 ==> rotation_terms()[r][c] == rotation_terms()[r + 3][c + 3],
        rotation_terms()[r][c] == RotationTerm::Sin <==> rotation_terms()[c][r]
            == RotationTerm::NegSin,
        rotation_terms()[r][c] == RotationTerm::Cos ==> r == c,
{
}

/// The rotation matrix of an element, filled with its direction cosine, sine,
/// the negative of the sine, `zero` and `one`.
pub fn rotation_layout<S: Copy>(cos: S, sin: S, neg_sin: S, zero: S, one: S) -> (m: [[S; 6]; 6])
    ensures
        forall|r: int, c: int|
            0 <= r < 6 && 0 <= c < 6 ==> #[trigger] m@[r]@[c] == rotation_value(
                rotation_terms()[r][c],
                cos,
                sin,
                neg_sin,
                zero,
                one,
            ),
{
    let z = zero;
    let m = [
        [cos, sin, z, z, z, z],
        [neg_sin, cos, z, z, z, z],
        [z, z, one, z, z, z],
        [z, z, z, cos, sin, z],
        [z, z, z, neg_sin, cos, z],
        [z, z, z, z, z, one],
    ];
    assert forall|r: int, c: int| 0 <= r < 6 && 0 <= c < 6 implies #[trigger] m@[r]@[c] == rotation_value(
        rotation_terms()[r][c],
        cos,
        sin,
        neg_sin,
        zero,
        one,
    ) by {
        assert(m@[0]@ == seq![cos, sin, z, z, z, z]);
    }
    m
}

/// The sign convention in which the end forces of an element are reported:
/// the diagonal matrix diag(-1, 1, -1, 1, -1, 1), with `neg_one` on even rows,
/// `one` on odd rows and `zero` off the diagonal.
pub fn sign_layout<S: Copy>(one: S, neg_one: S, zero: S) -> (m: [[S; 6]; 6])
    ensures
        forall|r: int, c: int|
            0 <= r < 6 && 0 <= c < 6 ==> #[trigger] m@[r]@[c] == if r != c {
                zero
            } else if r % 2 == 0 {
                neg_one
            } else {
                one
            },
{
    let z = zero;
    let m = [
        [neg_one, z, z, z, z, z],
        [z, one, z, z, z, z],
        [z, z, neg_one, z, z, z],
        [z, z, z, one, z, z],
        [z, z, z, z, neg_one, z],
        [z, z, z, z, z, one],
    ];
    assert(m@[0]@ == seq![neg_one, z, z, z, z, z]);
    m
}

/// Entry `(r, c)` of the rotation matrix with integer values.
pub open spec fn rotation_entry(cos: int, sin: int, r: int, c: int) -> int {
    rotation_value(rotation_terms()[r][c], cos, sin, -sin, 0, 1)
}

/// Entry `(r, c)` of the product of the transposed rotation matrix with itself.
pub open spec fn rotation_gram(cos: int, sin: int, r: int, c: int) -> int {
    rotation_entry(cos, sin, 0, r) * rotation_entry(cos, sin, 0, c)
        + rotation_entry(cos, sin, 1, r) * rotation_entry(cos, sin, 1, c)
        + rotation_entry(cos, sin, 2, r) * rotation_entry(cos, sin, 2, c)
        + rotation_entry(cos, sin, 3, r) * rotation_entry(cos, sin, 3, c)
        + rotation_entry(cos, sin, 4, r) * rotation_entry(cos, sin, 4, c)
        + rotation_entry(cos, sin, 5, r) * rotation_entry(cos, sin, 5, c)
}

/// Entry `(r, c)` of the product of the rotation matrix with its transpose.
pub open spec fn rotation_gram_t(cos: int, sin: int, r: int, c: int) -> int {
    rotation_entry(cos, sin, r, 0) * rotation_entry(cos, sin, c, 0)
        + rotation_entry(cos, sin, r, 1) * rotation_entry(cos, sin, c, 1)
        + rotation_entry(cos, sin, r, 2) * rotation_entry(cos, sin, c, 2)
        + rotation_entry(cos, sin, r, 3) * rotation_entry(cos, sin, c, 3)
        + rotation_entry(cos, sin, r, 4) * rotation_entry(cos, sin, c, 4)
        + rotation_entry(cos, sin, r, 5) * rotation_entry(cos, sin, c, 5)
}

/// Every entry of the rotation matrix with integer values.
proof fn lemma_rotation_entries(cos: int, sin: int)
    ensures
        rotation_entry(cos, sin, 0, 0) == cos,
        rotation_entry(cos, sin, 0, 1) == sin,
        rotation_entry(cos, sin, 0, 2) == 0,
        rotation_entry(cos, sin, 0, 3) == 0,
        rotation_entry(cos, sin, 0, 4) == 0,
        rotation_entry(cos, sin, 0, 5) == 0,
        rotation_entry(cos, sin, 1, 0) == -sin,
        rotation_entry(cos, sin, 1, 1) == cos,
        rotation_entry(cos, sin, 1, 2) == 0,
        rotation_entry(cos, sin, 1, 3) == 0,
        rotation_entry(cos, sin, 1, 4) == 0,
        rotation_entry(cos, sin, 1, 5) == 0,
        rotation_entry(cos, sin, 2, 0) == 0,
        rotation_entry(cos, sin, 2, 1) == 0,
        rotation_entry(cos, sin, 2, 2) == 1,
        rotation_entry(cos, sin, 2, 3) == 0,
        rotation_entry(cos, sin, 2, 4) == 0,
        rotation_entry(cos, sin, 2, 5) == 0,
        rotation_entry(cos, sin, 3, 0) == 0,
        rotation_entry(cos, sin, 3, 1) == 0,
        rotation_entry(cos, sin, 3, 2) == 0,
        rotation_entry(cos, sin, 3, 3) == cos,
        rotation_entry(cos, sin, 3, 4) == sin,
        rotation_entry(cos, sin, 3, 5) == 0,
        rotation_entry(cos, sin, 4, 0) == 0,
        rotation_entry(cos, sin, 4, 1) == 0,
        rotation_entry(cos, sin, 4, 2) == 0,
        rotation_entry(cos, sin, 4, 3) == -sin,
        rotation_entry(cos, sin, 4, 4) == cos,
        rotation_entry(cos, sin, 4, 5) == 0,
        rotation_entry(cos, sin, 5, 0) == 0,
        rotation_entry(cos, sin, 5, 1) == 0,
        rotation_entry(cos, sin, 5, 2) == 0,
        rotation_entry(cos, sin, 5, 3) == 0,
        rotation_entry(cos, sin, 5, 4) == 0,
        rotation_entry(cos, sin, 5, 5) == 1,
{
}

/// Law: the rotation matrix is orthogonal.  When `cos * cos + sin * sin == 1`
/// (exact arithmetic, the entries filled as by `rotation_layout` with `-sin`,
/// `0` and `1`), both `Tᵀ T` and `T Tᵀ` are the identity: the transpose undoes
/// the rotation.
pub proof fn lemma_rotation_orthogonal(cos: int, sin: int, r: int, c: int)
    requires
        cos * cos + sin * sin == 1,
        0 <= r < 6,
        0 <= c < 6,
    ensures
        rotation_gram(cos, sin, r, c) == if r == c { 1int } else { 0int },
        rotation_gram_t(cos, sin, r, c) == if r == c { 1int } else { 0int },
{
    lemma_rotation_entries(cos, sin);
    assert(cos * sin == sin * cos) by (nonlinear_arith);
    assert(cos * (-sin) == -(sin * cos)) by (nonlinear_arith);
    assert((-sin) * cos == -(sin * cos)) by (nonlinear_arith);
    assert((-sin) * (-sin) == sin * sin) by (nonlinear_arith);
    assert(sin * (-sin) == -(sin * sin)) by (nonlinear_arith);
    assert((-sin) * sin == -(sin * sin)) by (nonlinear_arith);
    if r == 0 {
    } else if r == 1 {
    } else if r == 2 {
    } else if r == 3 {
    } else if r == 4 {
    } else {
    }
}

/// Entry `(r, c)` of the local stiffness matrix with integer coefficients,
/// the negated coefficients being the negatives of the others.
pub open spec fn stiffness_entry(q: BeamStiffness<int>, r: int, c: int) -> int {
    term_value(
        local_stiffness_terms()[r][c],
        q,
        BeamStiffness {
            axial: -q.axial,
            shear: -q.shear,
            coupling: -q.coupling,
            bending: -q.bending,
            carry_over: -q.carry_over,
        },
        0,
    )
}

/// Row `r` of the local stiffness matrix applied to the end displacements `d`.
pub open spec fn stiffness_times(q: BeamStiffness<int>, r: int, d: Seq<int>) -> int {
    stiffness_entry(q, r, 0) * d[0] + stiffness_entry(q, r, 1) * d[1] + stiffness_entry(q, r, 2)
        * d[2] + stiffness_entry(q, r, 3) * d[3] + stiffness_entry(q, r, 4) * d[4]
        + stiffness_entry(q, r, 5) * d[5]
}

/// Every entry of the local stiffness matrix with integer coefficients.
proof fn lemma_stiffness_entries(q: BeamStiffness<int>)
    ensures
        stiffness_entry(q, 0, 0) == q.axial,
        stiffness_entry(q, 0, 1) == 0,
        stiffness_entry(q, 0, 2) == 0,
        stiffness_entry(q, 0, 3) == -q.axial,
        stiffness_entry(q, 0, 4) == 0,
        stiffness_entry(q, 0, 5) == 0,
        stiffness_entry(q, 1, 0) == 0,
        stiffness_entry(q, 1, 1) == q.shear,
        stiffness_entry(q, 1, 2) == q.coupling,
        stiffness_entry(q, 1, 3) == 0,
        stiffness_entry(q, 1, 4) == -q.shear,
        stiffness_entry(q, 1, 5) == q.coupling,
        stiffness_entry(q, 2, 0) == 0,
        stiffness_entry(q, 2, 1) == q.coupling,
        stiffness_entry(q, 2, 2) == q.bending,
        stiffness_entry(q, 2, 3) == 0,
        stiffness_entry(q, 2, 4) == -q.coupling,
        stiffness_entry(q, 2, 5) == q.carry_over,
        stiffness_entry(q, 3, 0) == -q.axial,
        stiffness_entry(q, 3, 1) == 0,
        stiffness_entry(q, 3, 2) == 0,
        stiffness_entry(q, 3, 3) == q.axial,
        stiffness_entry(q, 3, 4) == 0,
        stiffness_entry(q, 3, 5) == 0,
        stiffness_entry(q, 4, 0) == 0,
        stiffness_entry(q, 4, 1) == -q.shear,
        stiffness_entry(q, 4, 2) == -q.coupling,
        stiffness_entry(q, 4, 3) == 0,
        stiffness_entry(q, 4, 4) == q.shear,
        stiffness_entry(q, 4, 5) == -q.coupling,
        stiffness_entry(q, 5, 0) == 0,
        stiffness_entry(q, 5, 1) == q.coupling,
        stiffness_entry(q, 5, 2) == q.carry_over,
        stiffness_entry(q, 5, 3) == 0,
        stiffness_entry(q, 5, 4) == -q.coupling,
        stiffness_entry(q, 5, 5) == q.bending,
{
}

/// Law: rigid motions of a beam give no end forces.  Moving both nodes by
/// one along x, or by one along y, gives zero forces whatever the
/// coefficients; turning the beam of length `l` by a small unit rotation
/// (displacements `[0, 0, 1, 0, l, 1]`) gives zero forces when the
/// coefficients are related as their formulas make them:
/// `shear * l == 2 * coupling` and `bending + carry_over == coupling * l`.
pub proof fn lemma_local_stiffness_rigid_motions(q: BeamStiffness<int>, l: int, r: int)
    requires
        0 <= r < 6,
    ensures
        stiffness_times(q, r, seq![1int, 0, 0, 1, 0, 0]) == 0,
        stiffness_times(q, r, seq![0int, 1, 0, 0, 1, 0]) == 0,
        q.shear * l == 2 * q.coupling && q.bending + q.carry_over == q.coupling * l
            ==> stiffness_times(q, r, seq![0int, 0, 1, 0, l, 1]) == 0,
{
    lemma_stiffness_entries(q);
    assert((-q.shear) * l == -(q.shear * l)) by (nonlinear_arith);
    assert((-q.coupling) * l == -(q.coupling * l)) by (nonlinear_arith);
    let dx = seq![1int, 0, 0, 1, 0, 0];
    let dy = seq![0int, 1, 0, 0, 1, 0];
    let dr = seq![0int, 0, 1, 0, l, 1];
    assert(dx[0] == 1 && dx[1] == 0 && dx[2] == 0 && dx[3] == 1 && dx[4] == 0 && dx[5] == 0);
    assert(dy[0] == 0 && dy[1] == 1 && dy[2] == 0 && dy[3] == 0 && dy[4] == 1 && dy[5] == 0);
    assert(dr[0] == 0 && dr[1] == 0 && dr[2] == 1 && dr[3] == 0 && dr[4] == l && dr[5] == 1);
}

} // verus!
