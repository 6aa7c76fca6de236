use model_generator::{Face, Material, Mesh, Model, TextureType, Vec3, Vertex};

fn bits(x: f32) -> u32 {
    x.to_bits()
}

fn v3(x: f32, y: f32, z: f32) -> Vec3 {
    Vec3::new(bits(x), bits(y), bits(z))
}

#[test]
fn test_create_empty_model() {
    let model = Model::new("TestModel");
    assert_eq!(model.name, "TestModel");
    assert!(model.mesh.vertices.is_empty());
    assert!(model.mesh.faces.is_empty());
}

#[test]
fn test_mesh_add_vertex() {
    let mut mesh = Mesh::new();
    let v0 = Vertex::with_position(bits(0.0), bits(0.0), bits(0.0));
    let v1 = Vertex::with_position(bits(1.0), bits(0.0), bits(0.0));
    let v2 = Vertex::with_position(bits(1.0), bits(1.0), bits(0.0));

    let idx0 = mesh.add_vertex(v0);
    let idx1 = mesh.add_vertex(v1);
    let idx2 = mesh.add_vertex(v2);

    assert_eq!(idx0, 0);
    assert_eq!(idx1, 1);
    assert_eq!(idx2, 2);
    assert_eq!(mesh.vertices.len(), 3);
}

#[test]
fn test_mesh_add_face() {
    let mut mesh = Mesh::new();
    let v0 = Vertex::with_position(bits(0.0), bits(0.0), bits(0.0));
    let v1 = Vertex::with_position(bits(1.0), bits(0.0), bits(0.0));
    let v2 = Vertex::with_position(bits(1.0), bits(1.0), bits(0.0));

    let idx0 = mesh.add_vertex(v0);
    let idx1 = mesh.add_vertex(v1);
    let idx2 = mesh.add_vertex(v2);

    let face = Face::triangle(idx0, idx1, idx2);
    let face_idx = mesh.add_face(face, Some("material1".to_string()));

    assert_eq!(face_idx, 0);
    assert_eq!(mesh.faces.len(), 1);
    assert_eq!(mesh.face_materials.len(), 1);
    assert_eq!(mesh.face_materials[0], Some("material1".to_string()));
}

#[test]
fn test_vertex_creation() {
    let position = v3(1.0, 2.0, 3.0);
    let normal = v3(0.0, 1.0, 0.0);
    let tex_coords = Some((bits(0.5), bits(0.5)));

    let vertex = Vertex::new(position, normal, tex_coords);

    assert_eq!(vertex.position, position);
    assert_eq!(vertex.normal, normal);
    assert_eq!(vertex.tex_coords, tex_coords);

    let simple_vertex = Vertex::with_position(bits(1.0), bits(2.0), bits(3.0));
    assert_eq!(simple_vertex.position, position);
    assert_eq!(simple_vertex.normal, Vec3::zeros());
    assert_eq!(simple_vertex.tex_coords, None);
}

#[test]
fn test_face_creation() {
    let triangle = Face::triangle(0, 1, 2);
    assert_eq!(triangle.indices, vec![0, 1, 2]);

    let quad = Face::quad(0, 1, 2, 3);
    assert_eq!(quad.indices, vec![0, 1, 2, 3]);

    let custom = Face::new(vec![0, 1, 2, 3, 4]);
    assert_eq!(custom.indices, vec![0, 1, 2, 3, 4]);
}

#[test]
fn zero_vector_is_positive_zero() {
    let z = Vec3::zeros();
    assert_eq!(f32::from_bits(z.x), 0.0);
    assert!(f32::from_bits(z.x).is_sign_positive());
    assert_eq!(z, v3(0.0, 0.0, 0.0));
}

#[test]
fn indices_stay_stable_as_the_mesh_grows() {
    let mut mesh = Mesh::default();
    for i in 0..10 {
        let idx = mesh.add_vertex(Vertex::with_position(bits(i as f32), 0, 0));
        assert_eq!(idx, i);
    }
    mesh.add_face(Face::quad(0, 1, 2, 3), None);
    let second = mesh.add_face(Face::triangle(7, 8, 9), Some("m".to_string()));
    assert_eq!(second, 1);
    assert_eq!(mesh.face_materials, vec![None, Some("m".to_string())]);
    assert_eq!(f32::from_bits(mesh.vertices[4].position.x), 4.0);
}

#[test]
fn default_material_is_grey() {
    let m = Material::new("steel");
    assert_eq!(m.name, "steel");
    let as_f32 = |c: [u32; 4]| c.map(f32::from_bits);
    assert_eq!(as_f32(m.ambient), [0.2, 0.2, 0.2, 1.0]);
    assert_eq!(as_f32(m.diffuse), [0.8, 0.8, 0.8, 1.0]);
    assert_eq!(as_f32(m.specular), [1.0, 1.0, 1.0, 1.0]);
    assert_eq!(f32::from_bits(m.shininess), 32.0);
    assert!(m.textures.is_empty());
    assert!(!m.textures.contains_key(&TextureType::Diffuse));
}
