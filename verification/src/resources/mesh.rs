use crate::geometry::{interleave_vecs, interleaved, lemma_interleaved_len, Vector3};
use crate::resources::gpu::{DrawCommand, RenderError};
use vstd::prelude::*;

verus! {

/// Bytes that one `Vector3` takes in a vertex buffer: three numbers of four
/// bytes.
pub const VECTOR_BYTES: usize = 12;

/// Bytes that one index takes in an index buffer.
pub const INDEX_BYTES: usize = 4;

/// Numbers per vertex attribute.
pub const COMPONENTS: usize = 3;

/// Which texture a mesh is drawn with.
#[derive(Clone, Copy, Debug, PartialEq, Eq, Structural)]
pub enum TextureRef {
    /// The texture at this position of the model's texture list.
    Material(usize),
    /// The texture that stands in where a mesh has none of its own.
    Fallback,
}

/// The names the graphics backend gave to the buffers of one mesh.
#[derive(Clone, Copy, Debug, PartialEq, Eq, Structural)]
pub struct MeshHandles {
    pub vao: u32,
    pub vbo: u32,
    pub ebo: u32,
}

/// How the vertex buffer of a mesh is laid out, and how large its two buffers
/// are. All figures are in bytes but `components`.
#[derive(Clone, Copy, Debug, PartialEq, Eq, Structural)]
pub struct VertexLayout {
    pub vertex_bytes: usize,
    pub index_bytes: usize,
    /// From one vertex to the next.
    pub stride: usize,
    /// Where the position lies within a vertex.
    pub position_offset: usize,
    /// Where the texture coordinate lies within a vertex.
    pub texcoord_offset: usize,
    /// Numbers per attribute.
    pub components: usize,
}

/// One mesh of a model: positions and texture coordinates in one buffer,
/// taking turns, the indices of its faces, and the texture it is drawn with.
pub struct Mesh {
    texture: TextureRef,
    vertices_texcoords: Vec<Vector3>,
    index_data: Vec<u32>,
    handles: Option<MeshHandles>,
}

pub struct MeshView {
    pub texture: TextureRef,
    pub vertices_texcoords: Seq<Vector3>,
    pub index_data: Seq<u32>,
    pub handles: Option<MeshHandles>,
}

impl MeshView {
    /// Both buffers have a size in bytes that an allocation can have.
    pub open spec fn wf(self) -> bool {
        Mesh::fits(self.vertices_texcoords.len(), 0, self.index_data.len())
    }

    /// Whether the mesh is drawn through an index buffer.
    pub open spec fn indexed(self) -> bool {
        self.index_data.len() > 0
    }

    /// The count handed to the draw call: three per vector in the vertex
    /// buffer.
    pub open spec fn draw_count(self) -> int {
        COMPONENTS * self.vertices_texcoords.len()
    }

    pub open spec fn layout(self) -> VertexLayout {
        VertexLayout {
            vertex_bytes: (VECTOR_BYTES * self.vertices_texcoords.len()) as usize,
            index_bytes: (INDEX_BYTES * self.index_data.len()) as usize,
            stride: 24,
            position_offset: 0,
            texcoord_offset: 12,
            components: 3,
        }
    }

    /// The calls that draw the mesh once it has the handles `handles`.
    pub open spec fn commands(self, handles: MeshHandles) -> Seq<DrawCommand> {
        seq![
            DrawCommand::BindVertexArray { vao: handles.vao },
            if self.indexed() {
                DrawCommand::DrawElements { count: self.draw_count() as usize }
            } else {
                DrawCommand::DrawArrays { count: self.draw_count() as usize }
            },
        ]
    }
}

impl View for Mesh {
    type V = MeshView;

    closed spec fn view(&self) -> MeshView {
        MeshView {
            texture: self.texture,
            vertices_texcoords: self.vertices_texcoords@,
            index_data: self.index_data@,
            handles: self.handles,
        }
    }
}

impl Mesh {
    /// Whether buffers made of so many positions, texture coordinates and
    /// indices have sizes in bytes that an allocation can have.
    pub open spec fn fits(vertices: nat, texcoords: nat, indices: nat) -> bool {
        &&& VECTOR_BYTES * (vertices + texcoords) <= isize::MAX
        &&& INDEX_BYTES * indices <= isize::MAX
    }

    pub open spec fn wf(&self) -> bool {
        self@.wf()
    }

    /// `fits`, computed.
    pub fn check_fits(vertices: usize, texcoords: usize, indices: usize) -> (ok: bool)
        ensures
            ok == Mesh::fits(vertices as nat, texcoords as nat, indices as nat),
    {
        let vector_limit: usize = (isize::MAX as usize) / VECTOR_BYTES;
        let index_limit: usize = (isize::MAX as usize) / INDEX_BYTES;
        vertices <= vector_limit && texcoords <= vector_limit - vertices && indices <= index_limit
    }

    /// A mesh without handles. Its vertex buffer holds `vertices` and
    /// `texcoords` in turns, starting with a vertex.
    pub fn new(
        texture: TextureRef,
        vertices: Vec<Vector3>,
        texcoords: Vec<Vector3>,
        indices: Vec<u32>,
    ) -> (mesh: Mesh)
        requires
            Mesh::fits(vertices@.len(), texcoords@.len(), indices@.len()),
        ensures
            mesh.wf(),
            mesh@ == (MeshView {
                texture,
                vertices_texcoords: interleaved(vertices@, texcoords@),
                index_data: indices@,
                handles: None,
            }),
    {
        proof {
            lemma_interleaved_len(vertices@, texcoords@);
        }
        let data = interleave_vecs(vertices, texcoords);
        Mesh { texture, index_data: indices, vertices_texcoords: data, handles: None }
    }

    pub fn texture(&self) -> (texture: TextureRef)
        ensures
            texture == self@.texture,
    {
        self.texture
    }

    /// The vertex buffer: positions and texture coordinates in turns.
    pub fn vertex_data(&self) -> (data: &Vec<Vector3>)
        ensures
            data@ == self@.vertices_texcoords,
    {
        &self.vertices_texcoords
    }

    pub fn index_data(&self) -> (data: &Vec<u32>)
        ensures
            data@ == self@.index_data,
    {
        &self.index_data
    }

    pub fn handles(&self) -> (handles: Option<MeshHandles>)
        ensures
            handles == self@.handles,
    {
        self.handles
    }

    /// What the backend has to know to upload the two buffers and to
    /// describe the vertex attributes.
    pub fn layout(&self) -> (layout: VertexLayout)
        requires
            self.wf(),
        ensures
            layout == self@.layout(),
            layout.vertex_bytes == VECTOR_BYTES * self@.vertices_texcoords.len(),
            layout.index_bytes == INDEX_BYTES * self@.index_data.len(),
    {
        VertexLayout {
            vertex_bytes: VECTOR_BYTES * self.vertices_texcoords.len(),
            index_bytes: INDEX_BYTES * self.index_data.len(),
            stride: 2 * VECTOR_BYTES,
            position_offset: 0,
            texcoord_offset: VECTOR_BYTES,
            components: COMPONENTS,
        }
    }

    /// Records the handles of the uploaded buffers. A mesh that has handles
    /// keeps them, and says so.
    pub fn load(&mut self, handles: MeshHandles) -> (result: Result<(), RenderError>)
        ensures
            old(self)@.handles is Some <==> result is Err,
            result is Err ==> result == Err::<(), RenderError>(RenderError::AlreadyStaged)
                && final(self)@ == old(self)@,
            result is Ok ==> final(self)@ == (MeshView { handles: Some(handles), ..old(self)@ }),
    {
        if self.handles.is_some() {
            return Err(RenderError::AlreadyStaged);
        }
        self.handles = Some(handles);
        Ok(())
    }

    /// The calls that draw the mesh, or `NotStaged` where it has no handles.
    pub fn draw(&self) -> (result: Result<Vec<DrawCommand>, RenderError>)
        requires
            self.wf(),
        ensures
            match result {
                Ok(commands) => self@.handles is Some && commands@ == self@.commands(
                    self@.handles->0,
                ),
                Err(e) => self@.handles is None && e == RenderError::NotStaged,
            },
    {
        match self.handles {
            Some(handles) => Ok(self.draw_with(handles)),
            None => Err(RenderError::NotStaged),
        }
    }

    /// The calls that draw the mesh through the buffers of `handles`.
    pub(crate) fn draw_with(&self, handles: MeshHandles) -> (commands: Vec<DrawCommand>)
        requires
            self.wf(),
        ensures
            commands@ == self@.commands(handles),
    {
        let count: usize = COMPONENTS * self.vertices_texcoords.len();
        let mut commands = Vec::new();
        commands.push(DrawCommand::BindVertexArray { vao: handles.vao });
        if self.index_data.len() > 0 {
            commands.push(DrawCommand::DrawElements { count });
        } else {
            commands.push(DrawCommand::DrawArrays { count });
        }
        assert(commands@ =~= self@.commands(handles));
        commands
    }
}

} // verus!
