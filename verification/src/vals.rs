//! The frame model.
use vstd::prelude::*;

verus! {

/// A node of the frame, by its x and y coordinates.
#[derive(Debug, Clone, Copy)]
pub struct Node<S>(pub S, pub S);

/// A load acting on a node: forces along x and y and a moment.
#[derive(Debug)]
pub struct Load<S> {
    pub node_id: usize,
    pub forces: [S; 3],
}

/// The physical and geometric properties of a cross-section:
/// area, second moment of area and Young's modulus.
#[derive(Debug)]
pub struct PhysGeo<S> {
    pub a: S,
    pub j: S,
    pub e: S,
}

/// A support on a node, with a stiffness for each of its three degrees of
/// freedom (x, y, rotation); a positive stiffness fixes that degree of freedom.
#[derive(Debug)]
pub struct Constraint<S> {
    pub node_id: usize,
    pub stiffness: [S; 3],
}

/// A beam element from node `b_id` to node `e_id`, with the section
/// `phys_geo_id`, its length and the sine and cosine of its direction.
#[derive(Debug)]
pub struct Element<S> {
    pub b_id: usize,
    pub e_id: usize,
    pub phys_geo_id: usize,
    pub l: S,
    pub element_sin: S,
    pub element_cos: S,
}

/// A whole frame, with the end forces of its elements once they are computed.
#[derive(Debug)]
pub struct Obj<S> {
    pub elements: Vec<Element<S>>,
    pub nodes: Vec<Node<S>>,
    pub loads: Vec<Load<S>>,
    pub physgeos: Vec<PhysGeo<S>>,
    pub constraints: Vec<Constraint<S>>,
    pub s: Vec<[S; 6]>,
}


impl<S> Obj<S> {
    /// The frame has no element, node, load, section or constraint.
    pub open spec fn spec_is_empty(&self) -> bool {
        &&& self.elements@.len() == 0
        &&& self.nodes@.len() == 0
        &&& self.loads@.len() == 0
        &&& self.physgeos@.len() == 0
        &&& self.constraints@.len() == 0
    }

    /// A frame with nothing in it, and no end forces.
    pub fn create_empty_obj() -> (o: Self)
        ensures
            o.spec_is_empty(),
            o.s@.len() == 0,
    {
        Obj {
            elements: Vec::new(),
            nodes: Vec::new(),
            loads: Vec::new(),
            physgeos: Vec::new(),
            constraints: Vec::new(),
            s: Vec::new(),
        }
    }

    /// Whether the frame has nothing in it.
    pub fn is_empty(&self) -> (b: bool)
        ensures
            b == self.spec_is_empty(),
    {
        self.elements.len() == 0 && self.nodes.len() == 0 && self.loads.len() == 0
            && self.physgeos.len() == 0 && self.constraints.len() == 0
    }
}

} // verus!
