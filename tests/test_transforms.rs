use model_generator::deform::{deform_region, is_outside_region};
use model_generator::float::{float_eq, float_lt, gt_zero, is_nan, is_zero, neg};
use model_generator::scale::{normal_rule, NormalRule};
use model_generator::{Error, Face, Mirror, Model, Transform, Vec3, Vertex};

fn bits(x: f32) -> u32 {
    x.to_bits()
}

fn v3(x: f32, y: f32, z: f32) -> Vec3 {
    Vec3::new(bits(x), bits(y), bits(z))
}

fn pos(v: &Vertex) -> (f32, f32, f32) {
    (
        f32::from_bits(v.position.x),
        f32::from_bits(v.position.y),
        f32::from_bits(v.position.z),
    )
}

fn create_test_cube() -> Model {
    let mut model = Model::new("TestCube");
    let front = v3(0.0, 0.0, 1.0);
    let back = v3(0.0, 0.0, -1.0);
    let v0 = model.mesh.add_vertex(Vertex::new(v3(-0.5, -0.5, 0.5), front, None));
    let v1 = model.mesh.add_vertex(Vertex::new(v3(0.5, -0.5, 0.5), front, None));
    let v2 = model.mesh.add_vertex(Vertex::new(v3(0.5, 0.5, 0.5), front, None));
    let v3_ = model.mesh.add_vertex(Vertex::new(v3(-0.5, 0.5, 0.5), front, None));
    model.mesh.add_vertex(Vertex::new(v3(-0.5, -0.5, -0.5), back, None));
    model.mesh.add_vertex(Vertex::new(v3(0.5, -0.5, -0.5), back, None));
    model.mesh.add_vertex(Vertex::new(v3(0.5, 0.5, -0.5), back, None));
    model.mesh.add_vertex(Vertex::new(v3(-0.5, 0.5, -0.5), back, None));
    model.mesh.add_face(Face::triangle(v0, v1, v2), None);
    model.mesh.add_face(Face::triangle(v0, v2, v3_), None);
    model
}

#[test]
fn test_mirror_transform() {
    let mut model = create_test_cube();

    let mirror = Mirror::x();
    mirror.apply(&mut model).unwrap();

    for vertex in &model.mesh.vertices {
        let (x, _, _) = pos(vertex);
        assert!((x.abs() - 0.5).abs() < 0.01, "Expected x to be +/- 0.5, got {}", x);
    }

    let mirror = Mirror::new(false, true, true);
    mirror.apply(&mut model).unwrap();

    for vertex in &model.mesh.vertices {
        let (_, y, z) = pos(vertex);
        assert!((y.abs() - 0.5).abs() < 0.01, "Expected y to be +/- 0.5, got {}", y);
        assert!((z.abs() - 0.5).abs() < 0.01, "Expected z to be +/- 0.5, got {}", z);
    }
}

#[test]
fn mirror_x_negates_only_x_and_reverses_winding() {
    let untouched = create_test_cube();
    let mut model = untouched.clone();
    Mirror::x().apply(&mut model).unwrap();
    for (before, after) in untouched.mesh.vertices.iter().zip(model.mesh.vertices.iter()) {
        let (bx, by, bz) = pos(before);
        let (ax, ay, az) = pos(after);
        assert_eq!(ax, -bx);
        assert_eq!(ay, by);
        assert_eq!(az, bz);
        assert_eq!(f32::from_bits(after.normal.x), -f32::from_bits(before.normal.x));
        assert_eq!(after.normal.z, before.normal.z);
    }
    assert_eq!(model.mesh.faces[0].indices, vec![2, 1, 0]);
    assert_eq!(model.mesh.faces[1].indices, vec![3, 2, 0]);
}

#[test]
fn mirror_two_planes_keeps_winding() {
    let mut model = create_test_cube();
    Mirror::new(true, true, false).apply(&mut model).unwrap();
    assert_eq!(model.mesh.faces[0].indices, vec![0, 1, 2]);
    let (x, y, z) = pos(&model.mesh.vertices[1]);
    assert_eq!((x, y, z), (-0.5, 0.5, 0.5));
}

#[test]
fn mirror_three_planes_reverses_winding() {
    let mut model = create_test_cube();
    let m = Mirror::new(true, true, true);
    assert_eq!(m.reflection_count(), 3);
    m.apply(&mut model).unwrap();
    assert_eq!(model.mesh.faces[1].indices, vec![3, 2, 0]);
    assert_eq!(pos(&model.mesh.vertices[2]), (-0.5, -0.5, -0.5));
}

#[test]
fn mirror_twice_is_identity() {
    let untouched = create_test_cube();
    for (x, y, z) in [(true, false, false), (false, true, true), (true, true, true)] {
        let mut model = untouched.clone();
        let m = Mirror::new(x, y, z);
        model.apply(m).unwrap();
        model.apply(m).unwrap();
        assert_eq!(model.mesh.vertices, untouched.mesh.vertices);
        assert_eq!(model.mesh.faces, untouched.mesh.faces);
    }
}

#[test]
fn mirror_leaves_short_faces_alone() {
    let mut model = create_test_cube();
    model.mesh.add_face(Face::new(vec![4, 5]), None);
    Mirror::z().apply(&mut model).unwrap();
    assert_eq!(model.mesh.faces[2].indices, vec![4, 5]);
    assert_eq!(model.mesh.faces[0].indices, vec![2, 1, 0]);
}

#[test]
fn mirror_counts_axes() {
    assert_eq!(Mirror::new(false, false, false).reflection_count(), 0);
    assert_eq!(Mirror::y().reflection_count(), 1);
    assert_eq!(Mirror::new(true, false, true).reflection_count(), 2);
    let mut model = create_test_cube();
    let before = model.mesh.vertices.clone();
    Mirror::new(false, false, false).apply(&mut model).unwrap();
    assert_eq!(model.mesh.vertices, before);
}

#[test]
fn negation_flips_sign_bit_only() {
    assert_eq!(f32::from_bits(neg(bits(1.5))), -1.5);
    assert_eq!(neg(bits(0.0)), bits(-0.0));
    assert_eq!(neg(neg(bits(3.25))), bits(3.25));
    assert!(f32::from_bits(neg(f32::NAN.to_bits())).is_nan());
}

#[test]
fn ieee_predicates_on_bits() {
    assert!(is_zero(bits(0.0)));
    assert!(is_zero(bits(-0.0)));
    assert!(!is_zero(bits(1e-40)));
    assert!(is_nan(f32::NAN.to_bits()));
    assert!(!is_nan(f32::INFINITY.to_bits()));
    assert!(float_eq(bits(0.0), bits(-0.0)));
    assert!(!float_eq(f32::NAN.to_bits(), f32::NAN.to_bits()));
    assert!(float_eq(bits(2.0), bits(2.0)));
    assert!(!float_eq(bits(2.0), bits(-2.0)));
    assert!(gt_zero(bits(1e-40)));
    assert!(gt_zero(f32::INFINITY.to_bits()));
    assert!(!gt_zero(bits(0.0)));
    assert!(!gt_zero(bits(-0.0)));
    assert!(!gt_zero(bits(-1.0)));
    assert!(!gt_zero(f32::NAN.to_bits()));
}

#[test]
fn scale_non_uniform_zero_is_an_error() {
    for (x, y, z) in [(0.0, 1.0, 1.0), (1.0, 0.0, 2.0), (2.0, 2.0, -0.0), (0.0, 0.0, 1.0)] {
        match normal_rule(bits(x), bits(y), bits(z)) {
            Err(Error::TransformError(_)) => {}
            other => panic!("expected a transform error, got {:?}", other),
        }
    }
}

#[test]
fn scale_normal_rules() {
    assert_eq!(normal_rule(bits(2.0), bits(2.0), bits(2.0)), Ok(NormalRule::Renormalize));
    assert_eq!(normal_rule(bits(0.0), bits(0.0), bits(0.0)), Ok(NormalRule::Keep));
    assert_eq!(normal_rule(bits(0.0), bits(-0.0), bits(0.0)), Ok(NormalRule::Keep));
    assert_eq!(normal_rule(bits(1.0), bits(2.0), bits(3.0)), Ok(NormalRule::InverseScale));
    assert_eq!(normal_rule(bits(-1.0), bits(1.0), bits(1.0)), Ok(NormalRule::InverseScale));
}

#[test]
fn ieee_order_on_bits() {
    assert!(float_lt(bits(-1.0), bits(0.5)));
    assert!(float_lt(bits(-2.0), bits(-1.0)));
    assert!(!float_lt(bits(-1.0), bits(-2.0)));
    assert!(float_lt(bits(0.25), bits(0.5)));
    assert!(!float_lt(bits(-0.0), bits(0.0)));
    assert!(!float_lt(bits(0.0), bits(-0.0)));
    assert!(float_lt(bits(1e30), f32::INFINITY.to_bits()));
    assert!(float_lt(f32::NEG_INFINITY.to_bits(), bits(-1e30)));
    assert!(!float_lt(f32::NAN.to_bits(), bits(1.0)));
    assert!(!float_lt(bits(1.0), f32::NAN.to_bits()));
}

#[test]
fn region_bounds_are_inclusive() {
    let (s, e) = (bits(0.0), bits(0.5));
    assert!(is_outside_region(bits(-0.5), s, e));
    assert!(is_outside_region(bits(0.75), s, e));
    assert!(!is_outside_region(bits(0.0), s, e));
    assert!(!is_outside_region(bits(-0.0), s, e));
    assert!(!is_outside_region(bits(0.5), s, e));
    assert!(!is_outside_region(bits(0.25), s, e));
    assert!(!is_outside_region(f32::NAN.to_bits(), s, e));
}

#[test]
fn bend_region_leaves_vertices_below_untouched() {
    // A unit cube at the origin with the region y in [0, 0.5]: every vertex
    // with y < 0 keeps its exact bits, whatever the deformation does.
    let untouched = create_test_cube();
    let mut model = untouched.clone();
    let along: Vec<u32> = model.mesh.vertices.iter().map(|v| v.position.y).collect();
    let moved = Vertex::new(v3(9.0, 9.0, 9.0), v3(1.0, 0.0, 0.0), None);
    deform_region(&mut model.mesh, &along, bits(0.0), bits(0.5), |_| moved);
    let mut below = 0;
    for (before, after) in untouched.mesh.vertices.iter().zip(model.mesh.vertices.iter()) {
        if pos(before).1 < 0.0 {
            assert_eq!(after, before);
            below += 1;
        } else {
            assert_eq!(*after, moved);
        }
    }
    assert_eq!(below, 4);
    assert_eq!(model.mesh.faces, untouched.mesh.faces);
}
