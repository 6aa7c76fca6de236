//! The mesh data model: vertices, faces, materials.
use vstd::prelude::*;
use std::collections::HashMap;
use crate::topology::indices_in_bounds;

verus! {

/// Bits of the binary32 value `0.0`.
pub const ZERO_BITS: u32 = 0x0000_0000;

/// Bits of the binary32 value `0.2`.
pub const POINT_TWO_BITS: u32 = 0x3e4c_cccd;

/// Bits of the binary32 value `0.8`.
pub const POINT_EIGHT_BITS: u32 = 0x3f4c_cccd;

/// Bits of the binary32 value `1.0`.
pub const ONE_BITS: u32 = 0x3f80_0000;

/// Bits of the binary32 value `32.0`.
pub const THIRTY_TWO_BITS: u32 = 0x4200_0000;

/// Three binary32 components, each held as its bit pattern.
#[derive(Debug, Clone, Copy, PartialEq, Eq, Structural)]
pub struct Vec3 {
    pub x: u32,
    pub y: u32,
    pub z: u32,
}

impl Vec3 {
    /// The vector with the given component bits.
    pub fn new(x: u32, y: u32, z: u32) -> (r: Vec3)
        ensures
            r == (Vec3 { x, y, z }),
    {
        Vec3 { x, y, z }
    }

    /// The zero vector, every component `+0.0`.
    pub fn zeros() -> (r: Vec3)
        ensures
            r == (Vec3 { x: ZERO_BITS, y: ZERO_BITS, z: ZERO_BITS }),
    {
        Vec3 { x: ZERO_BITS, y: ZERO_BITS, z: ZERO_BITS }
    }
}

/// A vertex: a position, a normal (not necessarily of unit length) and
/// optional texture coordinates `(u, v)`.
#[derive(Debug, Clone, Copy, PartialEq)]
pub struct Vertex {
    pub position: Vec3,
    pub normal: Vec3,
    pub tex_coords: Option<(u32, u32)>,
}

impl Vertex {
    /// A vertex from its position, normal and texture coordinates.
    pub fn new(position: Vec3, normal: Vec3, tex_coords: Option<(u32, u32)>) -> (r: Vertex)
        ensures
            r == (Vertex { position, normal, tex_coords }),
    {
        Vertex { position, normal, tex_coords }
    }

    /// A vertex at `(x, y, z)` with a zero normal and no texture coordinates.
    pub fn with_position(x: u32, y: u32, z: u32) -> (r: Vertex)
        ensures
            r.position == (Vec3 { x, y, z }),
            r.normal == (Vec3 { x: ZERO_BITS, y: ZERO_BITS, z: ZERO_BITS }),
            r.tex_coords is None,
    {
        Vertex { position: Vec3::new(x, y, z), normal: Vec3::zeros(), tex_coords: None }
    }
}

/// A polygon given by the indices of its vertices in the owning mesh. The
/// order of the indices (the winding) decides which side faces outward.
#[derive(Debug, Clone, PartialEq, Eq)]
pub struct Face {
    pub indices: Vec<usize>,
}

impl Face {
    /// A face with the given indices, in the given order.
    pub fn new(indices: Vec<usize>) -> (r: Face)
        ensures
            r.indices@ == indices@,
    {
        Face { indices }
    }

    /// The triangle `v1, v2, v3`.
    pub fn triangle(v1: usize, v2: usize, v3: usize) -> (r: Face)
        ensures
            r.indices@ == seq![v1, v2, v3],
    {
        Face { indices: vec![v1, v2, v3] }
    }

    /// The quadrilateral `v1, v2, v3, v4`.
    pub fn quad(v1: usize, v2: usize, v3: usize, v4: usize) -> (r: Face)
        ensures
            r.indices@ == seq![v1, v2, v3, v4],
    {
        Face { indices: vec![v1, v2, v3, v4] }
    }
}

/// Kinds of texture map a material can name.
#[derive(Debug, Clone, Copy, PartialEq, Eq, Hash, Structural)]
pub enum TextureType {
    Diffuse,
    Normal,
    Specular,
    Roughness,
    Metallic,
    Emission,
    Occlusion,
}

/// Surface properties: RGBA colours, a shininess and texture file paths.
/// Every number is the bit pattern of a binary32 value.
#[derive(Debug, Clone)]
pub struct Material {
    pub name: String,
    pub ambient: [u32; 4],
    pub diffuse: [u32; 4],
    pub specular: [u32; 4],
    pub shininess: u32,
    pub textures: HashMap<TextureType, String>,
}

impl Material {
    /// A grey material: ambient `0.2`, diffuse `0.8`, specular `1.0` (alpha
    /// `1.0` throughout), shininess `32.0`, no textures.
    pub fn new(name: &str) -> (r: Material)
        ensures
            r.name@ == name@,
            r.ambient@ == seq![POINT_TWO_BITS, POINT_TWO_BITS, POINT_TWO_BITS, ONE_BITS],
            r.diffuse@ == seq![POINT_EIGHT_BITS, POINT_EIGHT_BITS, POINT_EIGHT_BITS, ONE_BITS],
            r.specular@ == seq![ONE_BITS, ONE_BITS, ONE_BITS, ONE_BITS],
            r.shininess == THIRTY_TWO_BITS,
            r.textures@ == Map::<TextureType, String>::empty(),
    {
        let r = Material {
            name: name.to_owned(),
            ambient: [POINT_TWO_BITS, POINT_TWO_BITS, POINT_TWO_BITS, ONE_BITS],
            diffuse: [POINT_EIGHT_BITS, POINT_EIGHT_BITS, POINT_EIGHT_BITS, ONE_BITS],
            specular: [ONE_BITS, ONE_BITS, ONE_BITS, ONE_BITS],
            shininess: THIRTY_TWO_BITS,
            textures: HashMap::new(),
        };
        assert(r.ambient@ =~= seq![POINT_TWO_BITS, POINT_TWO_BITS, POINT_TWO_BITS, ONE_BITS]);
        assert(r.diffuse@ =~= seq![POINT_EIGHT_BITS, POINT_EIGHT_BITS, POINT_EIGHT_BITS, ONE_BITS]);
        assert(r.specular@ =~= seq![ONE_BITS, ONE_BITS, ONE_BITS, ONE_BITS]);
        r
    }
}

/// Vertices and faces, with materials by name and the material of each face
/// (`face_materials` runs parallel to `faces`). Vertex indices are stable: a
/// vertex keeps its index for the life of the mesh.
#[derive(Debug, Clone)]
pub struct Mesh {
    pub vertices: Vec<Vertex>,
    pub faces: Vec<Face>,
    pub materials: HashMap<String, Material>,
    pub face_materials: Vec<Option<String>>,
}

impl Mesh {
    /// An empty mesh.
    pub fn new() -> (r: Mesh)
        ensures
            r.vertices@.len() == 0,
            r.faces@.len() == 0,
            r.materials@ == Map::<String, Material>::empty(),
            r.face_materials@.len() == 0,
    {
        Mesh {
            vertices: Vec::new(),
            faces: Vec::new(),
            materials: HashMap::new(),
            face_materials: Vec::new(),
        }
    }

    /// Appends `vertex` and returns its index.
    pub fn add_vertex(&mut self, vertex: Vertex) -> (r: usize)
        ensures
            r == old(self).vertices@.len(),
            final(self).vertices@ == old(self).vertices@.push(vertex),
            final(self).faces == old(self).faces,
            final(self).materials == old(self).materials,
            final(self).face_materials == old(self).face_materials,
            indices_in_bounds(*old(self)) ==> indices_in_bounds(*final(self)),
    {
        let index = self.vertices.len();
        self.vertices.push(vertex);
        index
    }

    /// Appends `face`, with the name of its material if it has one, and
    /// returns the index of the face.
    pub fn add_face(&mut self, face: Face, material_name: Option<String>) -> (r: usize)
        ensures
            r == old(self).faces@.len(),
            final(self).faces@ == old(self).faces@.push(face),
            final(self).face_materials@ == old(self).face_materials@.push(material_name),
            final(self).vertices == old(self).vertices,
            final(self).materials == old(self).materials,
            indices_in_bounds(*old(self)) && (forall|k: int|
                0 <= k < face.indices@.len() ==> #[trigger] face.indices@[k] < old(
                    self,
                ).vertices@.len()) ==> indices_in_bounds(*final(self)),
    {
        let index = self.faces.len();
        let ghost f = face;
        self.faces.push(face);
        self.face_materials.push(material_name);
        assert(self.faces@[index as int] == f);
        index
    }
}

impl Default for Mesh {
    fn default() -> (r: Mesh)
        ensures
            r.vertices@.len() == 0,
            r.faces@.len() == 0,
            r.materials@ == Map::<String, Material>::empty(),
            r.face_materials@.len() == 0,
    {
        Mesh::new()
    }
}

} // verus!
