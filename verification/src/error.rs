//! The ways in which an operation of the pipeline can fail.
use vstd::prelude::*;

verus! {

/// Why an operation could not be carried out.
#[derive(Debug, Clone, Copy, PartialEq, Eq, Structural)]
pub enum RenderError {
    /// The shapes of the operands do not fit the operation, or an index lies outside
    /// the operand.
    DimensionMismatch,
    /// A matrix whose determinant is zero was to be inverted.
    SingularMatrix,
    /// A vector of norm zero was to be normalized.
    ZeroNorm,
    /// A mesh could not be read or one of its lines is malformed.
    MeshLoadError,
    /// A texture is missing or malformed.
    TextureLoadError,
    /// A texture or depth-buffer coordinate lies outside the buffer.
    SampleOutOfRange,
}

} // verus!
