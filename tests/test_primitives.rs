use model_generator::gltf::{buffer_size, count_indices, gltf_buffer, has_tex_coords, triangulate};
use model_generator::obj::obj_faces;
use model_generator::topology::{add_band, add_fan, add_quad, add_side, add_sphere_faces, check_indices};
use model_generator::Error;
use model_generator::{Cube, Cylinder, Face, Mesh, SmoothNormalsPlugin, Sphere, Vec3, Vertex};

fn bits(x: f32) -> u32 {
    x.to_bits()
}

fn indices(mesh: &Mesh) -> Vec<Vec<usize>> {
    mesh.faces.iter().map(|f| f.indices.clone()).collect()
}

#[test]
fn builder_defaults() {
    let c = Cube::new();
    assert_eq!(f32::from_bits(c.size), 1.0);
    assert!(c.with_uvs);
    let s = Sphere::default();
    assert_eq!((s.segments, s.rings), (32, 16));
    assert_eq!(f32::from_bits(s.radius), 1.0);
    let cy = Cylinder::new();
    assert_eq!(f32::from_bits(cy.height), 2.0);
    assert_eq!(cy.segments, 32);
    assert!(cy.caps);
}

#[test]
fn builder_setters() {
    let c = Cube::new().size(bits(2.5)).center(bits(1.0), bits(2.0), bits(3.0)).with_uvs(false);
    assert_eq!(f32::from_bits(c.size), 2.5);
    assert_eq!(c.center, (bits(1.0), bits(2.0), bits(3.0)));
    assert!(!c.with_uvs);
    let s = Sphere::new().radius(bits(0.5)).segments(3).rings(2);
    assert_eq!((s.segments, s.rings), (3, 2));
    let cy = Cylinder::new().radius(bits(0.25)).height(bits(4.0)).segments(5).caps(false);
    assert_eq!(f32::from_bits(cy.radius), 0.25);
    assert_eq!(cy.segments, 5);
    assert!(!cy.caps);
}

#[test]
fn quad_splits_in_two() {
    let mut mesh = Mesh::new();
    add_quad(&mut mesh, 4, 5, 6, 7);
    assert_eq!(indices(&mesh), vec![vec![4, 5, 6], vec![4, 6, 7]]);
    assert_eq!(mesh.face_materials, vec![None, None]);
}

#[test]
fn fan_closes_the_ring() {
    let mut mesh = Mesh::new();
    add_fan(&mut mesh, 0, &vec![1, 2, 3], false);
    assert_eq!(indices(&mesh), vec![vec![0, 1, 2], vec![0, 2, 3], vec![0, 3, 1]]);
    let mut down = Mesh::new();
    add_fan(&mut down, 9, &vec![1, 2, 3], true);
    assert_eq!(indices(&down), vec![vec![9, 2, 1], vec![9, 3, 2], vec![9, 1, 3]]);
}

#[test]
fn band_between_rings() {
    let mut mesh = Mesh::new();
    add_band(&mut mesh, &vec![1, 2, 3], &vec![4, 5, 6]);
    assert_eq!(
        indices(&mesh),
        vec![
            vec![1, 4, 2],
            vec![2, 4, 5],
            vec![2, 5, 3],
            vec![3, 5, 6],
            vec![3, 6, 1],
            vec![1, 6, 4]
        ]
    );
}

#[test]
fn prism_side() {
    let mut mesh = Mesh::new();
    add_side(&mut mesh, &vec![1, 3, 5], &vec![0, 2, 4]);
    assert_eq!(
        indices(&mesh),
        vec![
            vec![1, 0, 2],
            vec![1, 2, 3],
            vec![3, 2, 4],
            vec![3, 4, 5],
            vec![5, 4, 0],
            vec![5, 0, 1]
        ]
    );
}

#[test]
fn sphere_face_counts() {
    // 3 segments, 3 rings of latitude give 2 rings of vertices.
    let mut mesh = Mesh::new();
    add_sphere_faces(&mut mesh, 0, 1, &vec![vec![2, 3, 4], vec![5, 6, 7]]);
    assert_eq!(mesh.faces.len(), 3 + 6 + 3);
    assert_eq!(mesh.faces[0].indices, vec![0, 2, 3]);
    assert_eq!(mesh.faces[3].indices, vec![2, 5, 3]);
    assert_eq!(mesh.faces[11].indices, vec![1, 5, 7]);
    let mut single = Mesh::new();
    add_sphere_faces(&mut single, 0, 1, &vec![vec![2, 3, 4, 5]]);
    assert_eq!(single.faces.len(), 8);
    assert_eq!(single.faces[4].indices, vec![1, 3, 2]);
}

#[test]
fn smooth_normals_plugin_names() {
    let p = SmoothNormalsPlugin::new();
    assert_eq!(p.name(), "smooth_normals");
    assert_eq!(p.description(), "Smooths vertex normals by averaging face normals");
    assert_eq!(SmoothNormalsPlugin::default().name(), "smooth_normals");
}

fn triangle_mesh() -> Mesh {
    let mut mesh = Mesh::new();
    mesh.add_vertex(Vertex::new(
        Vec3::new(bits(1.0), bits(2.0), bits(3.0)),
        Vec3::new(bits(0.0), bits(0.0), bits(1.0)),
        None,
    ));
    mesh.add_vertex(Vertex::with_position(bits(-1.0), 0, 0));
    mesh.add_vertex(Vertex::with_position(0, bits(1.0), 0));
    mesh.add_vertex(Vertex::with_position(0, 0, bits(1.0)));
    mesh.add_face(Face::triangle(0, 1, 2), None);
    mesh
}

#[test]
fn triangulation_of_polygons() {
    let faces = vec![Face::new(vec![0, 1]), Face::triangle(0, 1, 2), Face::new(vec![3, 4, 5, 6, 7])];
    assert_eq!(triangulate(&faces), vec![0, 1, 2, 3, 4, 5, 3, 5, 6, 3, 6, 7]);
    let mut mesh = triangle_mesh();
    mesh.add_face(Face::quad(0, 1, 2, 3), None);
    assert_eq!(count_indices(&mesh), 9);
}

#[test]
fn gltf_buffer_layout() {
    let mesh = triangle_mesh();
    let buf = gltf_buffer(&mesh).unwrap();
    assert_eq!(buf.len(), 4 * 24 + 3 * 2);
    assert_eq!(buffer_size(&mesh), Some(buf.len()));
    assert_eq!(&buf[0..4], &1.0f32.to_le_bytes());
    assert_eq!(&buf[4..8], &2.0f32.to_le_bytes());
    assert_eq!(&buf[12..16], &(-1.0f32).to_le_bytes());
    // Normals start after 4 positions.
    assert_eq!(&buf[48 + 8..48 + 12], &1.0f32.to_le_bytes());
    // Indices are little-endian unsigned shorts.
    assert_eq!(&buf[96..102], &[0, 0, 1, 0, 2, 0]);
    assert!(!has_tex_coords(&mesh.vertices));
}

#[test]
fn gltf_buffer_with_tex_coords() {
    let mut mesh = triangle_mesh();
    mesh.vertices[1].tex_coords = Some((bits(0.5), bits(0.25)));
    assert!(has_tex_coords(&mesh.vertices));
    let buf = gltf_buffer(&mesh).unwrap();
    assert_eq!(buf.len(), 4 * 32 + 3 * 2);
    assert_eq!(buffer_size(&mesh), Some(buf.len()));
    let uv = 96 + 6;
    assert_eq!(&buf[uv..uv + 8], &[0u8; 8]);
    assert_eq!(&buf[uv + 8..uv + 12], &0.5f32.to_le_bytes());
    assert_eq!(&buf[uv + 12..uv + 16], &0.25f32.to_le_bytes());
}

#[test]
fn gltf_refuses_indices_beyond_u16() {
    let mut mesh = Mesh::new();
    mesh.add_face(Face::triangle(65535, 2, 1), None);
    assert_eq!(gltf_buffer(&mesh).unwrap(), vec![255, 255, 2, 0, 1, 0]);
    assert_eq!(buffer_size(&mesh), Some(6));
    mesh.add_face(Face::triangle(65536, 65537, 1), None);
    assert_eq!(gltf_buffer(&mesh), None);
    assert_eq!(buffer_size(&mesh), None);
    assert_eq!(buffer_size(&Mesh::new()), Some(0));
}

#[test]
fn index_check_finds_dangling_faces() {
    let mut mesh = triangle_mesh();
    assert_eq!(check_indices(&mesh), Ok(()));
    mesh.add_face(Face::triangle(0, 1, 4), None);
    match check_indices(&mesh) {
        Err(Error::InvalidModelData(_)) => {}
        other => panic!("expected invalid model data, got {:?}", other),
    }
    assert_eq!(check_indices(&Mesh::new()), Ok(()));
}

#[test]
fn obj_records_are_one_based_and_switch_materials() {
    let mut mesh = triangle_mesh();
    mesh.face_materials[0] = Some("red".to_string());
    mesh.add_face(Face::triangle(1, 2, 3), Some("red".to_string()));
    mesh.add_face(Face::triangle(0, 2, 3), None);
    mesh.add_face(Face::quad(0, 1, 2, 3), Some("red".to_string()));
    mesh.add_face(Face::triangle(3, 2, 1), Some("blue".to_string()));
    let records = obj_faces(&mesh);
    assert_eq!(records.len(), 5);
    assert_eq!(records[0].indices, vec![1, 2, 3]);
    assert_eq!(records[3].indices, vec![1, 2, 3, 4]);
    let switches: Vec<Option<String>> = records.iter().map(|r| r.use_material.clone()).collect();
    assert_eq!(
        switches,
        vec![Some("red".to_string()), None, None, Some("red".to_string()), Some("blue".to_string())]
    );
}
