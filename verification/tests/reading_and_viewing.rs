use fem_comp::ios::{same_text, sheet_action, SheetAction};
use fem_comp::vals::{Constraint, Node, Obj};
use fem_comp::view::{element_segments, node_constraint_types, remove_first_hit, ConstrType};

#[test]
fn sheets_by_name() {
    assert_eq!(sheet_action("nodes", false), SheetAction::ReadNodes);
    assert_eq!(sheet_action("loads", false), SheetAction::ReadLoads);
    assert_eq!(sheet_action("properties", true), SheetAction::ReadProperties);
    assert_eq!(sheet_action("constraints", true), SheetAction::ReadConstraints);
    assert_eq!(sheet_action("elements", true), SheetAction::ReadElements);
    assert_eq!(sheet_action("elements", false), SheetAction::SkipElements);
    assert_eq!(sheet_action("Nodes", true), SheetAction::Unknown);
    assert_eq!(sheet_action("nodes ", true), SheetAction::Unknown);
    assert_eq!(sheet_action("", true), SheetAction::Unknown);
}

#[test]
fn text_comparison() {
    assert!(same_text("abc", "abc"));
    assert!(!same_text("abc", "abd"));
    assert!(!same_text("abc", "ab"));
    assert!(same_text("żółw", "żółw"));
    assert!(!same_text("żółw", "zolw"));
}

#[test]
fn support_kinds() {
    assert_eq!(ConstrType::determine([true, true, true]), ConstrType::NonFixed);
    assert_eq!(ConstrType::determine([false, true, true]), ConstrType::FixedC);
    assert_eq!(ConstrType::determine([true, false, true]), ConstrType::FixedC);
    assert_eq!(ConstrType::determine([true, true, false]), ConstrType::FixedC);
    // nonzero x and y, zero rotation: still fixed, never pinned
    assert_eq!(ConstrType::determine([false, false, true]), ConstrType::FixedC);
    assert_eq!(ConstrType::determine([false, false, false]), ConstrType::FixedC);
}

#[test]
fn each_node_drawn_by_its_first_constraint() {
    let mut obj: Obj<f32> = Obj::create_empty_obj();
    obj.nodes = vec![Node(0.0, 0.0), Node(1.0, 0.0), Node(2.0, 0.0)];
    obj.constraints = vec![
        Constraint { node_id: 2, stiffness: [0.0, 0.0, 0.0] },
        Constraint { node_id: 0, stiffness: [1.0, 0.0, 0.0] },
        Constraint { node_id: 2, stiffness: [1.0, 1.0, 1.0] },
    ];
    let is_zero: Vec<[bool; 3]> = obj.constraints.iter().map(|c| c.stiffness.map(|k| k == 0.0)).collect();
    let kinds = node_constraint_types(&obj, &is_zero);
    assert_eq!(kinds, vec![ConstrType::FixedC, ConstrType::NonFixed, ConstrType::NonFixed]);
}

#[test]
fn lines_between_nodes() {
    assert_eq!(element_segments(0), vec![]);
    assert_eq!(element_segments(1), vec![]);
    assert_eq!(element_segments(2), vec![(0, 1)]);
    assert_eq!(element_segments(3), vec![(0, 1), (1, 2)]);
    assert_eq!(element_segments(4), vec![(0, 1), (1, 2)]);
    assert_eq!(element_segments(5), vec![(0, 1), (1, 2), (2, 3)]);
}

#[test]
fn only_the_first_hit_node_is_removed() {
    let mut v = vec!['a', 'b', 'c', 'd'];
    remove_first_hit(&mut v, &vec![false, true, false, true]);
    assert_eq!(v, vec!['a', 'c', 'd']);
    remove_first_hit(&mut v, &vec![false, false, false]);
    assert_eq!(v, vec!['a', 'c', 'd']);
    remove_first_hit(&mut v, &vec![true, true, true]);
    assert_eq!(v, vec!['c', 'd']);
    let mut empty: Vec<char> = Vec::new();
    remove_first_hit(&mut empty, &vec![]);
    assert!(empty.is_empty());
}
