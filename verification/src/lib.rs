//! Plane frame finite element analysis: the model of a frame (nodes, beam
//! elements, sections, loads and supports) and the verified bookkeeping of the
//! direct stiffness method: element matrix layouts, assembly of the global
//! stiffness matrix into triplets, boundary conditions, the load vector and the
//! gathering of element end displacements; and the decisions of reading a
//! frame from a workbook and of drawing it.
//!
//! The model is generic over its scalar type: every place where the method
//! needs a number is filled by the caller, and the library states exactly which
//! number ends up where.
pub mod vals;
pub mod calcs;
pub mod layouts;
pub mod ios;
pub mod view;
