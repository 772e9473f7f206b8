use crate::resources::gpu::{DrawCommand, RenderError};
use vstd::prelude::*;

verus! {

/// What a material says of one of its textures.
pub struct TextureInfo {
    /// Path of the image file, relative to the directory of the model file.
    pub path: String,
}

/// One texture of a model: where its image comes from and, once it has been
/// uploaded, the handle the graphics backend gave it.
pub struct Texture {
    texture: Option<TextureInfo>,
    id: Option<u32>,
}

pub struct TextureView {
    /// The image path from the material; `None` for the fallback texture.
    pub path: Option<Seq<char>>,
    /// The handle, once uploaded.
    pub id: Option<u32>,
}

/// The path an optional texture description carries.
pub open spec fn info_path(texture: Option<TextureInfo>) -> Option<Seq<char>> {
    match texture {
        Some(info) => Some(info.path@),
        None => None,
    }
}

/// The calls that make the texture `id` the one that `program` samples.
pub open spec fn texture_commands(id: u32, program: u32) -> Seq<DrawCommand> {
    seq![
        DrawCommand::BindTexture { texture: id },
        DrawCommand::ActiveTexture { unit: 0 },
        DrawCommand::SamplerUniform { program, unit: 0 },
    ]
}

impl View for Texture {
    type V = TextureView;

    closed spec fn view(&self) -> TextureView {
        TextureView { path: info_path(self.texture), id: self.id }
    }
}

/// Where the image of the fallback texture lies, relative to the working
/// directory.
pub fn fallback_image() -> (path: &'static str)
    ensures
        path@ == "assets/textures/empty.png"@,
{
    "assets/textures/empty.png"
}

impl Texture {
    /// A texture that has not been uploaded. With `None` it is the fallback
    /// texture.
    pub fn new(texture: Option<TextureInfo>) -> (t: Texture)
        ensures
            t@ == (TextureView { path: info_path(texture), id: None }),
    {
        Self { texture, id: None }
    }

    /// The image path from the material, to be resolved beside the model
    /// file; `None` where the image is the one of `fallback_image`.
    pub fn path(&self) -> (path: Option<&str>)
        ensures
            match path {
                Some(p) => self@.path == Some(p@),
                None => self@.path is None,
            },
    {
        match &self.texture {
            Some(info) => Some(info.path.as_str()),
            None => None,
        }
    }

    /// The handle, once uploaded.
    pub fn id(&self) -> (id: Option<u32>)
        ensures
            id == self@.id,
    {
        self.id
    }

    /// Records the outcome of the upload: the handle, or `None` where the
    /// image could not be had. A texture that has a handle keeps it, and says
    /// so.
    pub fn load(&mut self, id: Option<u32>) -> (result: Result<(), RenderError>)
        ensures
            old(self)@.id is Some <==> result is Err,
            result is Err ==> result == Err::<(), RenderError>(RenderError::AlreadyStaged)
                && final(self)@ == old(self)@,
            result is Ok ==> final(self)@ == (TextureView { id, ..old(self)@ }),
    {
        if self.id.is_some() {
            return Err(RenderError::AlreadyStaged);
        }
        self.id = id;
        Ok(())
    }

    /// The calls that bind this texture for `program`, or `NotStaged` where it
    /// has no handle.
    pub fn draw(&self, program: u32) -> (result: Result<Vec<DrawCommand>, RenderError>)
        ensures
            match result {
                Ok(commands) => self@.id is Some && commands@ == texture_commands(
                    self@.id->0,
                    program,
                ),
                Err(e) => self@.id is None && e == RenderError::NotStaged,
            },
    {
        match self.id {
            Some(id) => Ok(bind_commands(id, program)),
            None => Err(RenderError::NotStaged),
        }
    }
}

/// `texture_commands` as a vector.
pub fn bind_commands(id: u32, program: u32) -> (commands: Vec<DrawCommand>)
    ensures
        commands@ == texture_commands(id, program),
{
    let mut commands = Vec::new();
    commands.push(DrawCommand::BindTexture { texture: id });
    commands.push(DrawCommand::ActiveTexture { unit: 0 });
    commands.push(DrawCommand::SamplerUniform { program, unit: 0 });
    assert(commands@ =~= texture_commands(id, program));
    commands
}

} // verus!
