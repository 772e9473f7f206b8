use crate::components::transform::{Transform, TransformOp};
use crate::geometry::{interleaved, lemma_interleaved_len, lemma_interleaved_pairs, Vector3};
use crate::resources::gpu::{DrawCommand, RenderError, ResourceState};
use crate::resources::mesh::{Mesh, MeshHandles, MeshView, TextureRef};
use crate::resources::texture::{
    bind_commands, texture_commands, Texture, TextureInfo, TextureView,
};
use crate::scene::{Scene, SceneMesh, SceneMeshView};
use vstd::prelude::*;

verus! {

/// A renderable: the meshes and textures of one imported asset, the handles
/// they have on the GPU once they are staged, and the transform the asset is
/// drawn with.
pub struct Model {
    model_path: String,
    transform: Transform,
    meshes: Vec<Mesh>,
    textures: Vec<Texture>,
    fallback: Texture,
    state: ResourceState,
}

pub struct ModelView {
    pub model_path: Seq<char>,
    pub transform: Seq<TransformOp>,
    pub meshes: Seq<MeshView>,
    pub textures: Seq<TextureView>,
    pub fallback: TextureView,
    pub state: ResourceState,
}

/// What the graphics backend hands back when it has uploaded a model.
pub struct StageReport {
    /// The buffer handles of each mesh, in the order of the meshes.
    pub meshes: Vec<MeshHandles>,
    /// The handle of each texture, in the order of the textures; `None`
    /// where the image could not be had.
    pub textures: Vec<Option<u32>>,
    /// The handle of the fallback texture, where it was uploaded.
    pub fallback: Option<u32>,
}

pub struct StageReportView {
    pub meshes: Seq<MeshHandles>,
    pub textures: Seq<Option<u32>>,
    pub fallback: Option<u32>,
}

impl View for StageReport {
    type V = StageReportView;

    open spec fn view(&self) -> StageReportView {
        StageReportView {
            meshes: self.meshes@,
            textures: self.textures@,
            fallback: self.fallback,
        }
    }
}

pub open spec fn mesh_views(meshes: Seq<Mesh>) -> Seq<MeshView> {
    Seq::new(meshes.len(), |i: int| meshes[i]@)
}

pub open spec fn texture_views(textures: Seq<Texture>) -> Seq<TextureView> {
    Seq::new(textures.len(), |i: int| textures[i]@)
}

/// Whether `texture` names a texture that has a handle among `ids`.
pub open spec fn resolved_by(texture: TextureRef, ids: Seq<Option<u32>>) -> bool {
    match texture {
        TextureRef::Material(i) => i < ids.len() && ids[i as int] is Some,
        TextureRef::Fallback => false,
    }
}

/// Whether one of `meshes` names no texture that has a handle among `ids`,
/// and so has to be drawn with the fallback texture.
pub open spec fn needs_fallback(meshes: Seq<MeshView>, ids: Seq<Option<u32>>) -> bool {
    exists|i: int| 0 <= i < meshes.len() && !resolved_by(#[trigger] meshes[i].texture, ids)
}

/// The texture a mesh made of `mesh` is drawn with: the fallback where the
/// mesh has no texture coordinates or names no material of its own, else the
/// texture of its material. Material 0 is the importer's default material,
/// which has no texture; the texture list starts with that of material 1.
pub open spec fn texture_of(mesh: SceneMeshView) -> TextureRef {
    if mesh.texture_coords is None || mesh.material_index == 0 {
        TextureRef::Fallback
    } else {
        TextureRef::Material((mesh.material_index - 1) as usize)
    }
}

/// The mesh made of an imported mesh.
pub open spec fn mesh_of(mesh: SceneMeshView) -> MeshView {
    MeshView {
        texture: texture_of(mesh),
        vertices_texcoords: interleaved(mesh.vertices, mesh.texcoords()),
        index_data: mesh.indices(),
        handles: None,
    }
}

/// The texture made of an image path.
pub open spec fn texture_at(path: Seq<char>) -> TextureView {
    TextureView { path: Some(path), id: None }
}

impl ModelView {
    /// The handles of the textures, in their order.
    pub open spec fn texture_ids(self) -> Seq<Option<u32>> {
        Seq::new(self.textures.len(), |i: int| self.textures[i].id)
    }

    /// The handle that `texture` is bound by: that of the texture it names,
    /// or, where it names none that has a handle, that of the fallback
    /// texture.
    pub open spec fn texture_handle(self, texture: TextureRef) -> u32 {
        match texture {
            TextureRef::Material(i) if resolved_by(texture, self.texture_ids()) => {
                self.textures[i as int].id->0
            },
            _ => self.fallback.id->0,
        }
    }

    pub open spec fn wf(self) -> bool {
        &&& forall|i: int| 0 <= i < self.meshes.len() ==> (#[trigger] self.meshes[i]).wf()
        &&& match self.state {
            ResourceState::Unstaged => {
                &&& forall|i: int|
                    0 <= i < self.meshes.len() ==> (#[trigger] self.meshes[i]).handles is None
                &&& forall|i: int|
                    0 <= i < self.textures.len() ==> (#[trigger] self.textures[i]).id is None
                &&& self.fallback.id is None
            },
            ResourceState::Staged => {
                &&& forall|i: int|
                    0 <= i < self.meshes.len() ==> (#[trigger] self.meshes[i]).handles is Some
                &&& needs_fallback(self.meshes, self.texture_ids()) ==> self.fallback.id is Some
            },
        }
    }

    /// Why staging with `report` is turned down, if it is.
    pub open spec fn load_error(self, report: StageReportView) -> Option<RenderError> {
        if self.state == ResourceState::Staged {
            Some(RenderError::AlreadyStaged)
        } else if report.meshes.len() != self.meshes.len() || report.textures.len()
            != self.textures.len() {
            Some(RenderError::ReportMismatch)
        } else if needs_fallback(self.meshes, report.textures) && report.fallback is None {
            Some(RenderError::MissingFallback)
        } else {
            None
        }
    }

    /// The model after a request to stage it with `report`: staged where the
    /// request is accepted, as it was where the request is turned down.
    pub open spec fn loaded(self, report: StageReportView) -> ModelView {
        if self.load_error(report) is None {
            self.staged(report)
        } else {
            self
        }
    }

    /// The model once it is staged with the handles of `report`.
    pub open spec fn staged(self, report: StageReportView) -> ModelView {
        ModelView {
            meshes: Seq::new(
                self.meshes.len(),
                |i: int| MeshView { handles: Some(report.meshes[i]), ..self.meshes[i] },
            ),
            textures: Seq::new(
                self.textures.len(),
                |i: int| TextureView { id: report.textures[i], ..self.textures[i] },
            ),
            fallback: TextureView { id: report.fallback, ..self.fallback },
            state: ResourceState::Staged,
            ..self
        }
    }

    /// The calls that draw mesh `i`: those that bind its texture, then those
    /// that draw its buffers.
    pub open spec fn mesh_commands(self, i: int, program: u32) -> Seq<DrawCommand> {
        texture_commands(self.texture_handle(self.meshes[i].texture), program)
            + self.meshes[i].commands(self.meshes[i].handles->0)
    }

    /// The calls that draw the model with `program`: the transform goes to
    /// the program, the program is made current, and the meshes are drawn in
    /// their order.
    pub open spec fn draw_commands(self, program: u32) -> Seq<DrawCommand> {
        seq![DrawCommand::ModelUniform { program }, DrawCommand::UseProgram { program }]
            + Seq::new(self.meshes.len(), |i: int| self.mesh_commands(i, program)).flatten()
    }
}

/// A mesh that comes without texture coordinates is drawn with the fallback
/// texture, whatever material it names, and gets one zero vector per vertex
/// in their place: its vertex buffer holds each vertex followed by a zero
/// vector.
pub proof fn lemma_missing_texcoords(mesh: SceneMeshView)
    requires
        mesh.texture_coords is None,
    ensures
        mesh_of(mesh).texture == TextureRef::Fallback,
        mesh.texcoords().len() == mesh.vertices.len(),
        forall|i: int| 0 <= i < mesh.vertices.len() ==> #[trigger] mesh.texcoords()[i] == Vector3::zero(),
        mesh_of(mesh).vertices_texcoords.len() == 2 * mesh.vertices.len(),
        forall|i: int|
            0 <= i < mesh.vertices.len() ==> {
                &&& mesh_of(mesh).vertices_texcoords[2 * i] == #[trigger] mesh.vertices[i]
                &&& mesh_of(mesh).vertices_texcoords[2 * i + 1] == Vector3::zero()
            },
{
    lemma_interleaved_len(mesh.vertices, mesh.texcoords());
    assert forall|i: int| 0 <= i < mesh.vertices.len() implies {
        &&& mesh_of(mesh).vertices_texcoords[2 * i] == #[trigger] mesh.vertices[i]
        &&& mesh_of(mesh).vertices_texcoords[2 * i + 1] == Vector3::zero()
    } by {
        lemma_interleaved_pairs(mesh.vertices, mesh.texcoords(), i);
    }
}

/// Staging is one way. A staged model turns every further staging down and
/// stays as it is, and a staging that is accepted leaves the model staged: no
/// staging leaves a model unstaged that was staged before.
pub proof fn lemma_staging_is_one_way(model: ModelView, report: StageReportView)
    ensures
        model.state == ResourceState::Staged ==> model.load_error(report) == Some(
            RenderError::AlreadyStaged,
        ) && model.loaded(report) == model,
        model.load_error(report) is None ==> model.loaded(report).state == ResourceState::Staged,
        model.state == ResourceState::Staged ==> model.loaded(report).state
            == ResourceState::Staged,
{
}

impl View for Model {
    type V = ModelView;

    closed spec fn view(&self) -> ModelView {
        ModelView {
            model_path: self.model_path@,
            transform: self.transform@,
            meshes: mesh_views(self.meshes@),
            textures: texture_views(self.textures@),
            fallback: self.fallback@,
            state: self.state,
        }
    }
}

/// A copy of `v`.
fn copy_vectors(v: &Vec<Vector3>) -> (r: Vec<Vector3>)
    ensures
        r@ == v@,
{
    let mut r: Vec<Vector3> = Vec::new();
    let mut i: usize = 0;
    while i < v.len()
        invariant
            i <= v.len(),
            r@ == v@.take(i as int),
        decreases v.len() - i,
    {
        r.push(v[i]);
        assert(v@.take(i + 1) =~= v@.take(i as int).push(v@[i as int]));
        i = i + 1;
    }
    assert(v@.take(i as int) =~= v@);
    r
}

/// `n` zero vectors.
fn zero_vectors(n: usize) -> (r: Vec<Vector3>)
    ensures
        r@ == Seq::new(n as nat, |i: int| Vector3::zero()),
{
    let mut r: Vec<Vector3> = Vec::new();
    let mut i: usize = 0;
    while i < n
        invariant
            i <= n,
            r@ == Seq::new(i as nat, |k: int| Vector3::zero()),
        decreases n - i,
    {
        r.push(Vector3::zero());
        assert(r@ =~= Seq::new((i + 1) as nat, |k: int| Vector3::zero()));
        i = i + 1;
    }
    r
}

/// The indices of all faces, face after face.
fn flatten_faces(faces: &Vec<Vec<u32>>) -> (r: Vec<u32>)
    ensures
        r@ == faces.deep_view().flatten(),
{
    let ghost all = faces.deep_view();
    let mut r: Vec<u32> = Vec::new();
    let mut i: usize = 0;
    assert(all.take(0) =~= Seq::<Seq<u32>>::empty());
    while i < faces.len()
        invariant
            i <= faces.len(),
            all == faces.deep_view(),
            r@ == all.take(i as int).flatten(),
        decreases faces.len() - i,
    {
        let face = &faces[i];
        let ghost before = r@;
        let mut j: usize = 0;
        while j < face.len()
            invariant
                j <= face.len(),
                r@ == before + face@.take(j as int),
            decreases face.len() - j,
        {
            r.push(face[j]);
            assert(face@.take(j + 1) =~= face@.take(j as int).push(face@[j as int]));
            assert(r@ =~= before + face@.take(j + 1));
            j = j + 1;
        }
        proof {
            assert(face@.take(j as int) =~= face@);
            assert(all[i as int] == face@);
            assert(all.take(i + 1) =~= all.take(i as int).push(all[i as int]));
            all.take(i as int).lemma_flatten_push(all[i as int]);
        }
        i = i + 1;
    }
    assert(all.take(i as int) =~= all);
    r
}

/// The mesh made of an imported mesh.
fn import_mesh(mesh: &SceneMesh) -> (r: Mesh)
    requires
        mesh@.fits(),
    ensures
        r.wf(),
        r@ == mesh_of(mesh@),
{
    let vertices = copy_vectors(&mesh.vertices);
    let indices = flatten_faces(&mesh.faces);
    match &mesh.texture_coords {
        Some(coords) => {
            let texture = if mesh.material_index == 0 {
                TextureRef::Fallback
            } else {
                TextureRef::Material(mesh.material_index - 1)
            };
            Mesh::new(texture, vertices, copy_vectors(coords), indices)
        },
        None => {
            let zeros = zero_vectors(mesh.vertices.len());
            Mesh::new(TextureRef::Fallback, vertices, zeros, indices)
        },
    }
}

/// One texture per diffuse texture of `scene`, material after material.
fn import_textures(scene: &Scene) -> (r: Vec<Texture>)
    ensures
        texture_views(r@) == scene@.texture_paths().map_values(|p: Seq<char>| texture_at(p)),
{
    let ghost all = scene@.materials;
    let mut r: Vec<Texture> = Vec::new();
    let mut i: usize = 0;
    assert(all.take(0) =~= Seq::<Seq<Seq<char>>>::empty());
    assert(texture_views(r@) =~= all.take(0).flatten().map_values(|p: Seq<char>| texture_at(p)));
    while i < scene.materials.len()
        invariant
            i <= scene.materials.len(),
            all == scene@.materials,
            texture_views(r@) == all.take(i as int).flatten().map_values(
                |p: Seq<char>| texture_at(p),
            ),
        decreases scene.materials.len() - i,
    {
        let material = &scene.materials[i];
        let ghost before = all.take(i as int).flatten();
        let mut j: usize = 0;
        assert(before + material@.take(0) =~= before);
        while j < material.diffuse.len()
            invariant
                j <= material.diffuse.len(),
                texture_views(r@) == (before + material@.take(j as int)).map_values(
                    |p: Seq<char>| texture_at(p),
                ),
            decreases material.diffuse.len() - j,
        {
            let ghost views = texture_views(r@);
            let path = material.diffuse[j].path.clone();
            let texture = Texture::new(Some(TextureInfo { path }));
            r.push(texture);
            proof {
                assert(material@.take(j + 1) =~= material@.take(j as int).push(material@[j as int]));
                assert(texture_views(r@) =~= views.push(texture@));
                assert(texture_views(r@) =~= (before + material@.take(j + 1)).map_values(
                    |p: Seq<char>| texture_at(p),
                ));
            }
            j = j + 1;
        }
        proof {
            assert(material@.take(j as int) =~= material@);
            assert(all[i as int] == material@);
            assert(all.take(i + 1) =~= all.take(i as int).push(all[i as int]));
            all.take(i as int).lemma_flatten_push(all[i as int]);
        }
        i = i + 1;
    }
    assert(all.take(i as int) =~= all);
    r
}

impl Model {
    pub open spec fn wf(&self) -> bool {
        self@.wf()
    }

    /// The model made of an imported asset: unstaged, with the identity
    /// transform, one mesh per imported mesh and one texture per diffuse
    /// texture of the materials.
    pub fn new(model_path: String, scene: &Scene) -> (model: Model)
        requires
            scene@.fits(),
        ensures
            model.wf(),
            model@ == (ModelView {
                model_path: model_path@,
                transform: Seq::empty(),
                meshes: scene@.meshes.map_values(|m: SceneMeshView| mesh_of(m)),
                textures: scene@.texture_paths().map_values(|p: Seq<char>| texture_at(p)),
                fallback: TextureView { path: None, id: None },
                state: ResourceState::Unstaged,
            }),
    {
        let textures = import_textures(scene);
        let mut meshes: Vec<Mesh> = Vec::new();
        let mut i: usize = 0;
        while i < scene.meshes.len()
            invariant
                i <= scene.meshes.len(),
                scene@.fits(),
                mesh_views(meshes@) == scene@.meshes.take(i as int).map_values(
                    |m: SceneMeshView| mesh_of(m),
                ),
                forall|k: int| 0 <= k < meshes@.len() ==> (#[trigger] meshes@[k]).wf(),
            decreases scene.meshes.len() - i,
        {
            let ghost views = mesh_views(meshes@);
            assert(scene@.meshes[i as int].fits());
            let mesh = import_mesh(&scene.meshes[i]);
            meshes.push(mesh);
            proof {
                assert(scene@.meshes.take(i + 1) =~= scene@.meshes.take(i as int).push(
                    scene@.meshes[i as int],
                ));
                assert(mesh_views(meshes@) =~= views.push(mesh@));
                assert(mesh_views(meshes@) =~= scene@.meshes.take(i + 1).map_values(
                    |m: SceneMeshView| mesh_of(m),
                ));
            }
            i = i + 1;
        }
        assert(scene@.meshes.take(i as int) =~= scene@.meshes);
        Model {
            model_path,
            transform: Transform::identity(),
            meshes,
            textures,
            fallback: Texture::new(None),
            state: ResourceState::Unstaged,
        }
    }

    /// The model, turned by `radians` around `rot` after what its transform
    /// does already.
    pub fn with_rotate(self, radians: u32, rot: &Vector3) -> (model: Self)
        ensures
            model@ == (ModelView {
                transform: self@.transform.push(TransformOp::Rotate { radians, axis: *rot }),
                ..self@
            }),
    {
        self.with(TransformOp::Rotate { radians, axis: *rot })
    }

    /// The model, scaled by `scale` after what its transform does already.
    pub fn with_scale(self, scale: &Vector3) -> (model: Self)
        ensures
            model@ == (ModelView {
                transform: self@.transform.push(TransformOp::Scale { factors: *scale }),
                ..self@
            }),
    {
        self.with(TransformOp::Scale { factors: *scale })
    }

    /// The model, moved by `translate` after what its transform does
    /// already.
    pub fn with_translate(self, translate: &Vector3) -> (model: Self)
        ensures
            model@ == (ModelView {
                transform: self@.transform.push(TransformOp::Translate { offset: *translate }),
                ..self@
            }),
    {
        self.with(TransformOp::Translate { offset: *translate })
    }

    fn with(self, op: TransformOp) -> (model: Self)
        ensures
            model@ == (ModelView { transform: self@.transform.push(op), ..self@ }),
    {
        Model {
            model_path: self.model_path,
            transform: self.transform.followed_by(op),
            meshes: self.meshes,
            textures: self.textures,
            fallback: self.fallback,
            state: self.state,
        }
    }

    /// The path of the file the model was imported from.
    pub fn model_path(&self) -> (path: &str)
        ensures
            path@ == self@.model_path,
    {
        self.model_path.as_str()
    }

    pub fn transform(&self) -> (transform: &Transform)
        ensures
            transform@ == self@.transform,
    {
        &self.transform
    }

    pub fn meshes(&self) -> (meshes: &Vec<Mesh>)
        ensures
            mesh_views(meshes@) == self@.meshes,
    {
        &self.meshes
    }

    pub fn textures(&self) -> (textures: &Vec<Texture>)
        ensures
            texture_views(textures@) == self@.textures,
    {
        &self.textures
    }

    /// The texture that stands in for those that cannot be had.
    pub fn fallback(&self) -> (fallback: &Texture)
        ensures
            fallback@ == self@.fallback,
    {
        &self.fallback
    }

    pub fn state(&self) -> (state: ResourceState)
        ensures
            state == self@.state,
    {
        self.state
    }

    pub fn is_staged(&self) -> (staged: bool)
        ensures
            staged == (self@.state == ResourceState::Staged),
    {
        match self.state {
            ResourceState::Staged => true,
            ResourceState::Unstaged => false,
        }
    }

    /// Whether, with the texture handles `textures`, some mesh is left
    /// without a texture of its own, so that the fallback texture has to be
    /// uploaded too.
    pub fn needs_fallback(&self, textures: &Vec<Option<u32>>) -> (needed: bool)
        ensures
            needed == needs_fallback(self@.meshes, textures@),
    {
        let mut i: usize = 0;
        while i < self.meshes.len()
            invariant
                i <= self.meshes.len(),
                forall|k: int| 0 <= k < i ==> resolved_by(#[trigger] self@.meshes[k].texture, textures@),
            decreases self.meshes.len() - i,
        {
            if !resolved(self.meshes[i].texture(), textures) {
                assert(!resolved_by(self@.meshes[i as int].texture, textures@));
                return true;
            }
            i = i + 1;
        }
        false
    }

    /// Stages the model: records the handles that the graphics backend
    /// reports for its meshes and textures. Staging is turned down, and the
    /// model left as it is, where it is staged already, where the report does
    /// not match the model, and where a mesh would be left without any
    /// texture to bind.
    pub fn load(&mut self, report: StageReport) -> (result: Result<(), RenderError>)
        requires
            old(self).wf(),
        ensures
            final(self).wf(),
            final(self)@ == old(self)@.loaded(report@),
            match result {
                Ok(()) => old(self)@.load_error(report@) is None,
                Err(e) => old(self)@.load_error(report@) == Some(e),
            },
    {
        if self.is_staged() {
            return Err(RenderError::AlreadyStaged);
        }
        if report.meshes.len() != self.meshes.len() || report.textures.len()
            != self.textures.len() {
            return Err(RenderError::ReportMismatch);
        }
        if report.fallback.is_none() && self.needs_fallback(&report.textures) {
            return Err(RenderError::MissingFallback);
        }
        let ghost pre = self@;
        let mut i: usize = 0;
        while i < self.meshes.len()
            invariant
                i <= self.meshes.len(),
                pre.wf(),
                pre.state == ResourceState::Unstaged,
                report.meshes@.len() == pre.meshes.len(),
                self@ == (ModelView { meshes: self@.meshes, ..pre }),
                self@.meshes.len() == pre.meshes.len(),
                forall|k: int|
                    0 <= k < i ==> #[trigger] self@.meshes[k] == (MeshView {
                        handles: Some(report.meshes@[k]),
                        ..pre.meshes[k]
                    }),
                forall|k: int| i <= k < pre.meshes.len() ==> #[trigger] self@.meshes[k] == pre.meshes[k],
            decreases self.meshes.len() - i,
        {
            let ghost before = self.meshes@;
            assert(self@.meshes[i as int] == pre.meshes[i as int]);
            assert(pre.meshes[i as int].handles is None);
            let done = self.meshes[i].load(report.meshes[i]);
            proof {
                assert(done is Ok);
                assert forall|k: int| 0 <= k < pre.meshes.len() && k != i implies #[trigger] self@.meshes[k]
                    == mesh_views(before)[k] by {
                    assert(self.meshes@[k] == before[k]);
                }
                assert(self@.meshes[i as int] == self.meshes@[i as int]@);
            }
            i = i + 1;
        }
        let ghost mid = self@;
        let mut j: usize = 0;
        while j < self.textures.len()
            invariant
                j <= self.textures.len(),
                pre.wf(),
                pre.state == ResourceState::Unstaged,
                report.textures@.len() == pre.textures.len(),
                self@ == (ModelView { textures: self@.textures, ..mid }),
                self@.textures.len() == pre.textures.len(),
                forall|k: int|
                    0 <= k < j ==> #[trigger] self@.textures[k] == (TextureView {
                        id: report.textures@[k],
                        ..pre.textures[k]
                    }),
                forall|k: int|
                    j <= k < pre.textures.len() ==> #[trigger] self@.textures[k] == pre.textures[k],
            decreases self.textures.len() - j,
        {
            let ghost before = self.textures@;
            assert(self@.textures[j as int] == pre.textures[j as int]);
            assert(pre.textures[j as int].id is None);
            let done = self.textures[j].load(report.textures[j]);
            proof {
                assert(done is Ok);
                assert forall|k: int| 0 <= k < pre.textures.len() && k != j implies #[trigger] self@.textures[k]
                    == texture_views(before)[k] by {
                    assert(self.textures@[k] == before[k]);
                }
                assert(self@.textures[j as int] == self.textures@[j as int]@);
            }
            j = j + 1;
        }
        let done = self.fallback.load(report.fallback);
        assert(done is Ok);
        self.state = ResourceState::Staged;
        proof {
            assert(self@.meshes =~= pre.staged(report@).meshes);
            assert(self@.textures =~= pre.staged(report@).textures);
            assert(self@.texture_ids() =~= report@.textures);
            if needs_fallback(self@.meshes, self@.texture_ids()) {
                let k = choose|k: int|
                    0 <= k < self@.meshes.len() && !resolved_by(
                        #[trigger] self@.meshes[k].texture,
                        self@.texture_ids(),
                    );
                assert(!resolved_by(pre.meshes[k].texture, report@.textures));
            }
        }
        Ok(())
    }

    /// The handle that `texture` is bound by.
    fn texture_handle(&self, texture: TextureRef) -> (handle: u32)
        requires
            resolved_by(texture, self@.texture_ids()) || self@.fallback.id is Some,
        ensures
            handle == self@.texture_handle(texture),
    {
        match texture {
            TextureRef::Material(i) => {
                if i < self.textures.len() {
                    match self.textures[i].id() {
                        Some(id) => {
                            return id;
                        },
                        None => {},
                    }
                }
            },
            TextureRef::Fallback => {},
        }
        self.fallback.id().unwrap()
    }

    /// The calls that draw the model with the shader program `program`, in
    /// the order in which they are to be made. A model that is not staged is
    /// not drawn: the request is turned down with `NotStaged`.
    pub fn draw(&self, program: u32) -> (result: Result<Vec<DrawCommand>, RenderError>)
        requires
            self.wf(),
        ensures
            match result {
                Ok(commands) => self@.state == ResourceState::Staged && commands@
                    == self@.draw_commands(program),
                Err(e) => self@.state == ResourceState::Unstaged && e == RenderError::NotStaged,
            },
    {
        if !self.is_staged() {
            return Err(RenderError::NotStaged);
        }
        let ghost per_mesh = Seq::new(
            self@.meshes.len(),
            |i: int| self@.mesh_commands(i, program),
        );
        let ghost head = seq![
            DrawCommand::ModelUniform { program },
            DrawCommand::UseProgram { program },
        ];
        let mut commands: Vec<DrawCommand> = Vec::new();
        commands.push(DrawCommand::ModelUniform { program });
        commands.push(DrawCommand::UseProgram { program });
        let mut i: usize = 0;
        proof {
            assert(per_mesh.take(0) =~= Seq::<Seq<DrawCommand>>::empty());
            assert(commands@ =~= head + per_mesh.take(0).flatten());
        }
        while i < self.meshes.len()
            invariant
                i <= self.meshes.len(),
                self.wf(),
                self@.state == ResourceState::Staged,
                per_mesh == Seq::new(self@.meshes.len(), |i: int| self@.mesh_commands(i, program)),
                commands@ == head + per_mesh.take(i as int).flatten(),
            decreases self.meshes.len() - i,
        {
            let mesh = &self.meshes[i];
            proof {
                assert(mesh@ == self@.meshes[i as int]);
                assert(self@.meshes[i as int].wf());
                assert(self@.meshes[i as int].handles is Some);
                if !resolved_by(mesh@.texture, self@.texture_ids()) {
                    assert(!resolved_by(self@.meshes[i as int].texture, self@.texture_ids()));
                    assert(needs_fallback(self@.meshes, self@.texture_ids()));
                }
            }
            let handle = self.texture_handle(mesh.texture());
            let mut bind = bind_commands(handle, program);
            let mut draw = mesh.draw_with(mesh.handles().unwrap());
            commands.append(&mut bind);
            commands.append(&mut draw);
            proof {
                assert(per_mesh.take(i + 1) =~= per_mesh.take(i as int).push(per_mesh[i as int]));
                per_mesh.take(i as int).lemma_flatten_push(per_mesh[i as int]);
                assert(commands@ =~= head + per_mesh.take(i + 1).flatten());
            }
            i = i + 1;
        }
        assert(per_mesh.take(i as int) =~= per_mesh);
        Ok(commands)
    }
}

/// Whether `texture` names a texture that has a handle among `ids`.
fn resolved(texture: TextureRef, ids: &Vec<Option<u32>>) -> (r: bool)
    ensures
        r == resolved_by(texture, ids@),
{
    match texture {
        TextureRef::Material(i) => i < ids.len() && ids[i].is_some(),
        TextureRef::Fallback => false,
    }
}

} // verus!
