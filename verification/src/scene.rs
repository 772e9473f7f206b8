use crate::geometry::Vector3;
use crate::resources::mesh::Mesh;
use crate::resources::texture::TextureInfo;
use vstd::prelude::*;

verus! {

/// One mesh as the importer hands it over.
pub struct SceneMesh {
    pub vertices: Vec<Vector3>,
    /// The first channel of texture coordinates, where the mesh has one.
    pub texture_coords: Option<Vec<Vector3>>,
    /// The vertex indices of each face.
    pub faces: Vec<Vec<u32>>,
    pub material_index: usize,
}

/// One material as the importer hands it over: its diffuse textures.
pub struct SceneMaterial {
    pub diffuse: Vec<TextureInfo>,
}

/// An imported asset, before anything has been made of it.
pub struct Scene {
    pub meshes: Vec<SceneMesh>,
    pub materials: Vec<SceneMaterial>,
}

pub struct SceneMeshView {
    pub vertices: Seq<Vector3>,
    pub texture_coords: Option<Seq<Vector3>>,
    pub faces: Seq<Seq<u32>>,
    pub material_index: usize,
}

pub struct SceneView {
    pub meshes: Seq<SceneMeshView>,
    /// For each material, the paths of its diffuse textures.
    pub materials: Seq<Seq<Seq<char>>>,
}

impl SceneMeshView {
    /// The texture coordinates that go into the vertex buffer: those of the
    /// mesh, or, where it has none, as many zero vectors as it has vertices.
    pub open spec fn texcoords(self) -> Seq<Vector3> {
        match self.texture_coords {
            Some(coords) => coords,
            None => Seq::new(self.vertices.len(), |i: int| Vector3::zero()),
        }
    }

    /// All indices of the mesh, face after face.
    pub open spec fn indices(self) -> Seq<u32> {
        self.faces.flatten()
    }

    pub open spec fn fits(self) -> bool {
        Mesh::fits(self.vertices.len(), self.texcoords().len(), self.indices().len())
    }
}

impl SceneView {
    /// Every mesh is of a size that its buffers can have.
    pub open spec fn fits(self) -> bool {
        forall|i: int| 0 <= i < self.meshes.len() ==> (#[trigger] self.meshes[i]).fits()
    }

    /// The paths of all diffuse textures, material after material.
    pub open spec fn texture_paths(self) -> Seq<Seq<char>> {
        self.materials.flatten()
    }
}

impl View for SceneMesh {
    type V = SceneMeshView;

    open spec fn view(&self) -> SceneMeshView {
        SceneMeshView {
            vertices: self.vertices@,
            texture_coords: match self.texture_coords {
                Some(coords) => Some(coords@),
                None => None,
            },
            faces: self.faces.deep_view(),
            material_index: self.material_index,
        }
    }
}

impl View for SceneMaterial {
    type V = Seq<Seq<char>>;

    open spec fn view(&self) -> Seq<Seq<char>> {
        Seq::new(self.diffuse@.len(), |i: int| self.diffuse@[i].path@)
    }
}

impl View for Scene {
    type V = SceneView;

    open spec fn view(&self) -> SceneView {
        SceneView {
            meshes: Seq::new(self.meshes@.len(), |i: int| self.meshes@[i]@),
            materials: Seq::new(self.materials@.len(), |i: int| self.materials@[i]@),
        }
    }
}

/// The number of indices in `faces`, where it is at most `limit`.
pub fn count_indices(faces: &Vec<Vec<u32>>, limit: usize) -> (count: Option<usize>)
    ensures
        match count {
            Some(n) => n == faces.deep_view().flatten().len() && n <= limit,
            None => faces.deep_view().flatten().len() > limit,
        },
{
    let ghost all = faces.deep_view();
    let mut total: usize = 0;
    let mut i: usize = 0;
    proof {
        assert(all.take(0) =~= Seq::<Seq<u32>>::empty());
    }
    while i < faces.len()
        invariant
            i <= faces.len(),
            all == faces.deep_view(),
            total == all.take(i as int).flatten().len(),
            total <= limit,
        decreases faces.len() - i,
    {
        let n: usize = faces[i].len();
        proof {
            assert(all.take(i + 1) =~= all.take(i as int).push(all[i as int]));
            all.take(i as int).lemma_flatten_push(all[i as int]);
            assert(all[i as int] == faces[i as int]@);
        }
        if n > limit - total {
            proof {
                lemma_flatten_prefix_len(all, i + 1);
            }
            return None;
        }
        total = total + n;
        i = i + 1;
    }
    proof {
        assert(all.take(i as int) =~= all);
    }
    Some(total)
}

/// A prefix of a sequence of sequences flattens to no more elements than
/// the whole.
pub proof fn lemma_flatten_prefix_len<A>(s: Seq<Seq<A>>, n: int)
    requires
        0 <= n <= s.len(),
    ensures
        s.take(n).flatten().len() <= s.flatten().len(),
{
    assert(s =~= s.take(n) + s.skip(n));
    vstd::seq_lib::lemma_flatten_concat(s.take(n), s.skip(n));
}

impl SceneMesh {
    /// Whether the mesh is of a size that its buffers can have.
    pub fn fits(&self) -> (ok: bool)
        ensures
            ok == self@.fits(),
    {
        let texcoords: usize = match &self.texture_coords {
            Some(coords) => coords.len(),
            None => self.vertices.len(),
        };
        match count_indices(&self.faces, usize::MAX) {
            Some(indices) => Mesh::check_fits(self.vertices.len(), texcoords, indices),
            None => false,
        }
    }
}

impl Scene {
    /// Whether every mesh is of a size that its buffers can have.
    pub fn fits(&self) -> (ok: bool)
        ensures
            ok == self@.fits(),
    {
        let mut i: usize = 0;
        while i < self.meshes.len()
            invariant
                i <= self.meshes.len(),
                forall|k: int| 0 <= k < i ==> (#[trigger] self@.meshes[k]).fits(),
            decreases self.meshes.len() - i,
        {
            if !self.meshes[i].fits() {
                assert(!self@.meshes[i as int].fits());
                return false;
            }
            i = i + 1;
        }
        true
    }
}

} // verus!
