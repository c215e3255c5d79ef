use fem_comp::vals::{Constraint, Element, Load, Node, Obj};

fn element(b_id: usize, e_id: usize) -> Element<i64> {
    Element { b_id, e_id, phys_geo_id: 0, l: 1, element_sin: 0, element_cos: 1 }
}

fn frame(elements: Vec<Element<i64>>, loads: Vec<Load<i64>>, constraints: Vec<Constraint<i64>>) -> Obj<i64> {
    let nodes = (0..=elements.len()).map(|i| Node(i as i64, 0)).collect();
    Obj { elements, nodes, loads, physgeos: Vec::new(), constraints, s: Vec::new() }
}

fn numbered(base: i64) -> [[i64; 6]; 6] {
    let mut m = [[0; 6]; 6];
    for u in 0..6 {
        for v in 0..6 {
            m[u][v] = base + 10 * u as i64 + v as i64;
        }
    }
    m
}

fn symmetric(base: i64) -> [[i64; 6]; 6] {
    let mut m = [[0; 6]; 6];
    for u in 0..6 {
        for v in 0..6 {
            m[u][v] = base + (u * v + u + v) as i64;
        }
    }
    m
}

#[test]
fn dof_count_is_three_per_element_plus_three() {
    let obj = frame(vec![element(0, 1), element(1, 2)], vec![], vec![]);
    assert_eq!(obj.dof_count(), 9);
    let empty: Obj<i64> = Obj::create_empty_obj();
    assert_eq!(empty.dof_count(), 3);
}

#[test]
fn assembly_order_of_one_element() {
    let obj = frame(vec![element(0, 1)], vec![], vec![]);
    let m = numbered(0);
    let t = obj.assembly_triplets(&vec![m]);
    assert_eq!(t.len(), 36);
    // block position (i, j) = (0, 0): the four blocks
    assert_eq!(t[0], (0, 0, m[0][0]));
    assert_eq!(t[1], (0, 3, m[3][0]));
    assert_eq!(t[2], (3, 0, m[0][3]));
    assert_eq!(t[3], (3, 3, m[3][3]));
    // (i, j) = (0, 1): row moves with j, column with i
    assert_eq!(t[4], (1, 0, m[0][1]));
    assert_eq!(t[5], (1, 3, m[3][1]));
    // (i, j) = (2, 1)
    assert_eq!(t[12 * 2 + 4 + 2], (4, 2, m[2][4]));
    assert_eq!(t[35], (5, 5, m[5][5]));
}

#[test]
fn assembly_uses_node_dofs_of_each_element() {
    let obj = frame(vec![element(0, 1), element(2, 1)], vec![], vec![]);
    let mats = vec![numbered(0), numbered(1000)];
    let t = obj.assembly_triplets(&mats);
    assert_eq!(t.len(), 72);
    // second element starts at 36: beginning node 2 -> dofs 6..9, end node 1 -> dofs 3..6
    assert_eq!(t[36], (6, 6, 1000));
    assert_eq!(t[37], (6, 3, 1030));
    assert_eq!(t[38], (3, 6, 1003));
    assert_eq!(t[39], (3, 3, 1033));
    for &(r, c, _) in &t {
        assert!(r < obj.dof_count() && c < obj.dof_count());
    }
}

#[test]
fn assembly_of_symmetric_matrices_is_symmetric() {
    let obj = frame(vec![element(0, 1), element(1, 2)], vec![], vec![]);
    let t = obj.assembly_triplets(&vec![symmetric(0), symmetric(7)]);
    // the entries at (r, c) and at (c, r) are the same values, as many times
    for &(r, c, _) in &t {
        let mut here: Vec<i64> = t.iter().filter(|x| x.0 == r && x.1 == c).map(|x| x.2).collect();
        let mut there: Vec<i64> = t.iter().filter(|x| x.0 == c && x.1 == r).map(|x| x.2).collect();
        here.sort();
        there.sort();
        assert_eq!(here, there, "({}, {}) and ({}, {}) differ", r, c, c, r);
    }
    // so the summed matrix is symmetric
    let n = obj.dof_count();
    let mut sum = vec![vec![0i64; n]; n];
    for &(r, c, v) in &t {
        sum[r][c] += v;
    }
    for r in 0..n {
        for c in 0..n {
            assert_eq!(sum[r][c], sum[c][r]);
        }
    }
}

#[test]
fn constraints_set_unit_rows_and_columns() {
    let obj = frame(vec![element(0, 1)], vec![], vec![Constraint { node_id: 1, stiffness: [1, 0, 1] }]);
    let active = vec![[true, false, true]];
    let mut t = vec![(3, 3, 7), (3, 0, 8), (0, 3, 9), (4, 4, 10), (4, 1, 11), (5, 5, 12), (0, 5, 13), (1, 2, 14)];
    obj.apply_constraints(&mut t, &active, 1, 0);
    assert_eq!(t, vec![(3, 3, 1), (3, 0, 0), (0, 3, 0), (4, 4, 10), (4, 1, 11), (5, 5, 1), (0, 5, 0), (1, 2, 14)]);
    assert!(obj.is_fixed_dof(&active, 3));
    assert!(!obj.is_fixed_dof(&active, 4));
    assert!(obj.is_fixed_dof(&active, 5));
    assert!(!obj.is_fixed_dof(&active, 0));
}

#[test]
fn constraints_twice_change_nothing_more() {
    let obj = frame(vec![element(0, 1)], vec![], vec![Constraint { node_id: 0, stiffness: [1, 1, 1] }]);
    let active = vec![[true, true, true]];
    let mut t = obj.assembly_triplets(&vec![numbered(0)]);
    obj.apply_constraints(&mut t, &active, -1, 0);
    let once = t.clone();
    obj.apply_constraints(&mut t, &active, -1, 0);
    assert_eq!(t, once);
}

#[test]
fn constraints_keep_a_symmetric_assembly_symmetric() {
    let obj = frame(vec![element(0, 1)], vec![], vec![Constraint { node_id: 1, stiffness: [0, 1, 0] }]);
    let active = vec![[false, true, false]];
    let mut t = obj.assembly_triplets(&vec![symmetric(3)]);
    obj.apply_constraints(&mut t, &active, 1, 0);
    for &(r, c, v) in &t {
        assert!(t.contains(&(c, r, v)));
    }
}

#[test]
fn load_vector_needs_a_constraint_on_another_node() {
    let loads = vec![Load { node_id: 1, forces: [5, 6, 7] }];
    // no constraint at all: the load is not applied
    let obj = frame(vec![element(0, 1)], loads, vec![]);
    assert_eq!(obj.c_glvec(0), vec![0; 6]);
    // a constraint on the same node only: not applied either
    let obj = frame(vec![element(0, 1)], vec![Load { node_id: 1, forces: [5, 6, 7] }],
        vec![Constraint { node_id: 1, stiffness: [1, 1, 1] }]);
    assert_eq!(obj.c_glvec(0), vec![0; 6]);
    // a constraint on another node: applied
    let obj = frame(vec![element(0, 1)], vec![Load { node_id: 1, forces: [5, 6, 7] }],
        vec![Constraint { node_id: 0, stiffness: [1, 1, 1] }]);
    assert_eq!(obj.c_glvec(0), vec![0, 0, 0, 5, 6, 7]);
}

#[test]
fn later_load_on_a_node_wins() {
    let loads = vec![
        Load { node_id: 2, forces: [1, 2, 3] },
        Load { node_id: 1, forces: [4, 5, 6] },
        Load { node_id: 2, forces: [7, 8, 9] },
    ];
    let obj = frame(vec![element(0, 1), element(1, 2)], loads, vec![Constraint { node_id: 0, stiffness: [1, 1, 1] }]);
    assert_eq!(obj.c_glvec(-1), vec![-1, -1, -1, 4, 5, 6, 7, 8, 9]);
}

#[test]
fn element_displacements_read_from_node_indices() {
    let obj = frame(vec![element(0, 2), element(3, 1)], vec![], vec![]);
    let z: Vec<i64> = (0..9).map(|x| 100 + x).collect();
    let u = obj.element_displacements(&z);
    assert_eq!(u, vec![[100, 101, 102, 102, 103, 104], [103, 104, 105, 101, 102, 103]]);
}

#[test]
fn empty_frame() {
    let mut obj: Obj<i64> = Obj::create_empty_obj();
    assert!(obj.is_empty());
    assert!(obj.s.is_empty());
    obj.nodes.push(Node(0, 0));
    assert!(!obj.is_empty());
}

#[test]
fn end_forces_are_appended() {
    let mut obj = frame(vec![element(0, 1)], vec![], vec![Constraint { node_id: 0, stiffness: [1, 1, 1] }]);
    obj.s.push([1, 2, 3, 4, 5, 6]);
    obj.record_end_forces(vec![[7, 8, 9, 10, 11, 12], [13, 14, 15, 16, 17, 18]]);
    assert_eq!(obj.s, vec![[1, 2, 3, 4, 5, 6], [7, 8, 9, 10, 11, 12], [13, 14, 15, 16, 17, 18]]);
    assert_eq!(obj.elements.len(), 1);
    assert_eq!(obj.constraints.len(), 1);
    assert_eq!(obj.nodes.len(), 2);
}
