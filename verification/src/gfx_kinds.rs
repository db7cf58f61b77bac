//! Plain enumerations describing resource kinds of a rendering collaborator:
//! shader stages, buffer binding targets, and drawing primitives. The core
//! never touches drawing resources; these names exist so that a front end
//! and the simulation agree on them.

use vstd::prelude::*;

verus! {

/// The stage a shader runs at.
#[derive(Clone, Copy, Debug, Eq, Hash, PartialEq, Structural)]
pub enum ShaderKind {
    Vertex,
    Fragment,
}

/// The binding target of a buffer.
#[derive(Clone, Copy, Debug, Eq, Hash, PartialEq, Structural)]
pub enum BufferTarget {
    Vertex,
    Index,
}

/// The primitive a draw call assembles.
#[derive(Clone, Copy, Debug, Eq, Hash, PartialEq, Structural)]
pub enum Primitive {
    Line,
    Triangle,
}

} // verus!
