//! An interaction-net engine for interaction combinators.
//!
//! A net is a flat buffer of wires: each node occupies four consecutive
//! slots (a principal port, two auxiliary ports, and a kind tag), and a
//! wire is a symmetric pair of port handles.  The engine allocates nodes
//! with slot reuse, finds active pairs by a lazy sequential walk, and
//! fires the two interaction rules (annihilation and duplication) until
//! no reducible pair remains reachable from the root.

pub mod laws;
pub mod net;
