use fem_comp::layouts::{local_stiffness_layout, rotation_layout, sign_layout, BeamStiffness};

#[test]
fn local_stiffness_of_a_beam() {
    // E = 2, J = 3, A = 5, L = 1
    let (e, j, a, l) = (2.0f64, 3.0f64, 5.0f64, 1.0f64);
    let pos = BeamStiffness {
        axial: e * a / l,
        shear: 12.0 * e * j / l.powf(3.0),
        coupling: 6.0 * e * j / l.powf(2.0),
        bending: 4.0 * e * j / l,
        carry_over: 2.0 * e * j / l,
    };
    let neg = BeamStiffness {
        axial: -pos.axial,
        shear: -pos.shear,
        coupling: -pos.coupling,
        bending: -pos.bending,
        carry_over: -pos.carry_over,
    };
    let m = local_stiffness_layout(&pos, &neg, 0.0);
    let expected = [
        [10.0, 0.0, 0.0, -10.0, 0.0, 0.0],
        [0.0, 72.0, 36.0, 0.0, -72.0, 36.0],
        [0.0, 36.0, 24.0, 0.0, -36.0, 12.0],
        [-10.0, 0.0, 0.0, 10.0, 0.0, 0.0],
        [0.0, -72.0, -36.0, 0.0, 72.0, -36.0],
        [0.0, 36.0, 12.0, 0.0, -36.0, 24.0],
    ];
    assert_eq!(m, expected);
}

#[test]
fn local_stiffness_is_symmetric() {
    let pos = BeamStiffness { axial: 1, shear: 2, coupling: 3, bending: 4, carry_over: 5 };
    let neg = BeamStiffness { axial: -1, shear: -2, coupling: -3, bending: -4, carry_over: -5 };
    let m = local_stiffness_layout(&pos, &neg, 0);
    for r in 0..6 {
        for c in 0..6 {
            assert_eq!(m[r][c], m[c][r]);
        }
    }
}

#[test]
fn rotation_by_a_right_angle() {
    let m = rotation_layout(0.0f64, 1.0, -1.0, 0.0, 1.0);
    let expected = [
        [0.0, 1.0, 0.0, 0.0, 0.0, 0.0],
        [-1.0, 0.0, 0.0, 0.0, 0.0, 0.0],
        [0.0, 0.0, 1.0, 0.0, 0.0, 0.0],
        [0.0, 0.0, 0.0, 0.0, 1.0, 0.0],
        [0.0, 0.0, 0.0, -1.0, 0.0, 0.0],
        [0.0, 0.0, 0.0, 0.0, 0.0, 1.0],
    ];
    assert_eq!(m, expected);
}

#[test]
fn rotation_is_block_diagonal() {
    let m = rotation_layout(2, 3, -3, 0, 1);
    for r in 0..6 {
        for c in 0..6 {
            if (r < 3) != (c < 3) {
                assert_eq!(m[r][c], 0);
            }
            if r < 3 && c < 3 {
                assert_eq!(m[r][c], m[r + 3][c + 3]);
            }
        }
    }
}

#[test]
fn sign_convention() {
    let m = sign_layout(1, -1, 0);
    for r in 0..6 {
        for c in 0..6 {
            let expected = if r != c { 0 } else if r % 2 == 0 { -1 } else { 1 };
            assert_eq!(m[r][c], expected);
        }
    }
}

fn product(a: &[[i64; 6]; 6], b: &[[i64; 6]; 6]) -> [[i64; 6]; 6] {
    let mut m = [[0; 6]; 6];
    for r in 0..6 {
        for c in 0..6 {
            m[r][c] = (0..6).map(|k| a[r][k] * b[k][c]).sum();
        }
    }
    m
}

fn transpose(a: &[[i64; 6]; 6]) -> [[i64; 6]; 6] {
    let mut m = [[0; 6]; 6];
    for r in 0..6 {
        for c in 0..6 {
            m[r][c] = a[c][r];
        }
    }
    m
}

#[test]
fn rotation_is_orthogonal() {
    let mut identity = [[0i64; 6]; 6];
    for d in 0..6 {
        identity[d][d] = 1;
    }
    for (cos, sin) in [(1i64, 0i64), (0, 1), (-1, 0), (0, -1)] {
        let t = rotation_layout(cos, sin, -sin, 0, 1);
        assert_eq!(product(&transpose(&t), &t), identity);
        assert_eq!(product(&t, &transpose(&t)), identity);
    }
}

#[test]
fn rigid_motions_give_no_end_forces() {
    // integer coefficients related as the formulas relate them for L = 2
    let l = 2i64;
    let pos = BeamStiffness { axial: 40, shear: 12, coupling: 12, bending: 16, carry_over: 8 };
    let neg = BeamStiffness { axial: -40, shear: -12, coupling: -12, bending: -16, carry_over: -8 };
    assert_eq!(pos.shear * l, 2 * pos.coupling);
    assert_eq!(pos.bending + pos.carry_over, pos.coupling * l);
    let k = local_stiffness_layout(&pos, &neg, 0);
    for d in [[1, 0, 0, 1, 0, 0], [0, 1, 0, 0, 1, 0], [0, 0, 1, 0, l, 1]] {
        for r in 0..6 {
            let f: i64 = (0..6).map(|c| k[r][c] * d[c]).sum();
            assert_eq!(f, 0);
        }
    }
}
