use vstd::prelude::*;

verus! {

/// Where the GPU side of a renderable stands. There is no way back from
/// `Staged`.
#[derive(Clone, Copy, Debug, PartialEq, Eq, Structural)]
pub enum ResourceState {
    /// Nothing has been uploaded; there are no handles.
    Unstaged,
    /// The data has been uploaded, once, and the handles are recorded.
    Staged,
}

/// Why a staging or drawing request was turned down.
#[derive(Clone, Copy, Debug, PartialEq, Eq, Structural)]
pub enum RenderError {
    /// Staging was asked of something that is staged already.
    AlreadyStaged,
    /// Drawing was asked of something that is not staged.
    NotStaged,
    /// The staging report does not hold one entry per mesh and one per
    /// texture.
    ReportMismatch,
    /// A mesh has to fall back on the fallback texture and the staging report
    /// brings none.
    MissingFallback,
}

/// One call for the graphics backend to make while drawing. A model's draw
/// is a list of these, to be carried out in order.
#[derive(Clone, Copy, Debug, PartialEq, Eq, Structural)]
pub enum DrawCommand {
    /// Push the model's transform to the `model` uniform of `program`.
    ModelUniform { program: u32 },
    /// Make `program` the current shader program.
    UseProgram { program: u32 },
    /// Bind `texture` as the current two-dimensional texture.
    BindTexture { texture: u32 },
    /// Select texture unit `unit`.
    ActiveTexture { unit: u32 },
    /// Point the `texture0` sampler of `program` at texture unit `unit`.
    SamplerUniform { program: u32, unit: u32 },
    /// Bind the vertex array `vao`.
    BindVertexArray { vao: u32 },
    /// Draw triangles through the bound index buffer.
    DrawElements { count: usize },
    /// Draw triangles straight from the bound vertex buffer.
    DrawArrays { count: usize },
}

} // verus!
