//! Reading a frame from a workbook: which sheet holds what.
use vstd::prelude::*;

verus! {

/// What to do with a sheet of the workbook.
#[derive(Debug, Clone, Copy, PartialEq, Eq, Structural)]
pub enum SheetAction {
    ReadNodes,
    ReadLoads,
    ReadProperties,
    ReadElements,
    /// An element sheet met before any node was read: its elements cannot be
    /// measured, so it is passed over.
    SkipElements,
    ReadConstraints,
    /// A sheet with another name: reported and passed over.
    Unknown,
}

/// The action for the sheet called `name`, when nodes have (or have not)
/// been read already.
pub open spec fn spec_sheet_action(name: Seq<char>, nodes_loaded: bool) -> SheetAction {
    if name == "nodes"@ {
        SheetAction::ReadNodes
    } else if name == "loads"@ {
        SheetAction::ReadLoads
    } else if name == "properties"@ {
        SheetAction::ReadProperties
    } else if name == "elements"@ {
        if nodes_loaded {
            SheetAction::ReadElements
        } else {
            SheetAction::SkipElements
        }
    } else if name == "constraints"@ {
        SheetAction::ReadConstraints
    } else {
        SheetAction::Unknown
    }
}

/// The five sheet names are different texts.
proof fn lemma_sheet_names_differ()
    ensures
        "nodes"@ != "loads"@,
        "nodes"@ != "properties"@,
        "nodes"@ != "elements"@,
        "nodes"@ != "constraints"@,
        "loads"@ != "properties"@,
        "loads"@ != "elements"@,
        "loads"@ != "constraints"@,
        "properties"@ != "elements"@,
        "properties"@ != "constraints"@,
        "elements"@ != "constraints"@,
{
    reveal_strlit("nodes");
    reveal_strlit("loads");
    reveal_strlit("properties");
    reveal_strlit("elements");
    reveal_strlit("constraints");
    assert("nodes"@.len() == 5 && "loads"@.len() == 5 && "properties"@.len() == 10
        && "elements"@.len() == 8 && "constraints"@.len() == 11);
    assert("nodes"@[0] != "loads"@[0]);
}

/// Law: each of the five sheets gets its action whatever was read before;
/// only the elements sheet waits for nodes.
pub proof fn lemma_sheet_actions(nodes_loaded: bool)
    ensures
        spec_sheet_action("nodes"@, nodes_loaded) == SheetAction::ReadNodes,
        spec_sheet_action("loads"@, nodes_loaded) == SheetAction::ReadLoads,
        spec_sheet_action("properties"@, nodes_loaded) == SheetAction::ReadProperties,
        spec_sheet_action("constraints"@, nodes_loaded) == SheetAction::ReadConstraints,
        spec_sheet_action("elements"@, nodes_loaded) == if nodes_loaded {
            SheetAction::ReadElements
        } else {
            SheetAction::SkipElements
        },
{
    lemma_sheet_names_differ();
}

/// Law: whether nodes were read matters only for the elements sheet.
pub proof fn lemma_only_elements_wait_for_nodes(name: Seq<char>)
    ensures
        name != "elements"@ ==> spec_sheet_action(name, true) == spec_sheet_action(name, false),
{
}

/// Whether two strings hold the same characters.
pub fn same_text(a: &str, b: &str) -> (r: bool)
    ensures
        r == (a@ == b@),
{
    let la = a.unicode_len();
    let lb = b.unicode_len();
    if la != lb {
        return false;
    }
    for i in 0..la
        invariant
            la == a@.len(),
            lb == b@.len(),
            la == lb,
            forall|k: int| 0 <= k < i ==> a@[k] == b@[k],
    {
        if a.get_char(i) != b.get_char(i) {
            return false;
        }
    }
    assert(a@ =~= b@);
    true
}

/// The action for the sheet called `name`.
pub fn sheet_action(name: &str, nodes_loaded: bool) -> (r: SheetAction)
    ensures
        r == spec_sheet_action(name@, nodes_loaded),
        name@ == "nodes"@ ==> r == SheetAction::ReadNodes,
        name@ == "loads"@ ==> r == SheetAction::ReadLoads,
        name@ == "properties"@ ==> r == SheetAction::ReadProperties,
        name@ == "constraints"@ ==> r == SheetAction::ReadConstraints,
        name@ == "elements"@ ==> r == if nodes_loaded {
            SheetAction::ReadElements
        } else {
            SheetAction::SkipElements
        },
{
    proof {
        lemma_sheet_names_differ();
    }
    if same_text(name, "nodes") {
        SheetAction::ReadNodes
    } else if same_text(name, "loads") {
        SheetAction::ReadLoads
    } else if same_text(name, "properties") {
        SheetAction::ReadProperties
    } else if same_text(name, "elements") {
        if nodes_loaded {
            SheetAction::ReadElements
        } else {
            SheetAction::SkipElements
        }
    } else if same_text(name, "constraints") {
        SheetAction::ReadConstraints
    } else {
        SheetAction::Unknown
    }
}

} // verus!
