use sloth_engine::renderer::{Color, Renderer, DEPTH_SENTINEL};
use sloth_engine::texture::{Texture, TextureManager};
use sloth_engine::model::{Model, ModelError, ModelManager};
use sloth_engine::camera::{Camera, CameraManager};
use sloth_engine::scene::{ModelData, Node, NodeType, Transform};
use sloth_engine::geometry::{Mat4Fx, QuatFx, Vec3Fx};

const S: i64 = 65536;

fn unit_transform(x: i64, y: i64, z: i64) -> Transform {
    Transform::new(Vec3Fx::new(x, y, z), QuatFx::identity(), Vec3Fx::new(S, S, S))
}

fn simple_model(front_facing: bool) -> Model {
    let verts = if front_facing {
        vec![Vec3Fx::new(0, 0, 0), Vec3Fx::new(S, 0, 0), Vec3Fx::new(0, S, 0)]
    } else {
        vec![Vec3Fx::new(0, 0, 0), Vec3Fx::new(0, S, 0), Vec3Fx::new(S, 0, 0)]
    };
    let tex_coords = vec![Vec3Fx::new(0, 0, 0)];
    let normals = vec![Vec3Fx::new(0, 0, S)];
    let faces = vec![vec![(0, 0, 0), (1, 0, 0), (2, 0, 0)]];
    Model::new(verts, tex_coords, normals, faces).unwrap()
}

#[test]
fn backface_is_culled_entirely() {
    let model = simple_model(false);
    let tex = Texture { width: 1, height: 1, pixels: vec![255, 0, 0, 255] };
    let mut r = Renderer::new(4, 4);
    r.reset_z_buffer();
    let id = Mat4Fx::identity();
    r.draw_model(&model, &tex, id, id, id, Color::new(255, 255, 255, 255));
    for i in 0..16usize {
        assert_eq!(r.get_pixel_color(i).unwrap(), Color::new(0, 0, 0, 0));
        assert_eq!(r.get_depth(i).unwrap(), DEPTH_SENTINEL);
    }
}

#[test]
fn frontface_writes_pixels() {
    let model = simple_model(true);
    let tex = Texture { width: 1, height: 1, pixels: vec![255, 0, 0, 255] };
    let mut r = Renderer::new(4, 4);
    r.reset_z_buffer();
    let id = Mat4Fx::identity();
    r.draw_model(&model, &tex, id, id, id, Color::new(255, 255, 255, 255));
    // the unit triangle lands on the pixel at (3, 3) and nowhere else
    assert_eq!(r.get_pixel_color(15).unwrap(), Color::new(255, 0, 0, 255));
    assert_eq!(r.get_depth(15).unwrap(), 0);
    for i in 0..15usize {
        assert_eq!(r.get_pixel_color(i).unwrap(), Color::new(0, 0, 0, 0));
    }
}

#[test]
fn model_rejects_out_of_range_coordinates() {
    let huge = 1 << 40;
    let verts = vec![Vec3Fx::new(huge, 0, 0)];
    let r = Model::new(verts, vec![], vec![], vec![]);
    assert_eq!(r.unwrap_err(), ModelError::CoordinateOutOfRange);
}

#[test]
fn model_rejects_short_faces() {
    let verts = vec![Vec3Fx::new(0, 0, 0)];
    let faces = vec![vec![(0, 0, 0), (0, 0, 0)]];
    let r = Model::new(verts, vec![Vec3Fx::new(0, 0, 0)], vec![Vec3Fx::new(0, 0, 0)], faces);
    assert_eq!(r.unwrap_err(), ModelError::InvalidFace);
}

#[test]
fn model_rejects_out_of_bounds_indices() {
    let verts = vec![Vec3Fx::new(0, 0, 0)];
    let faces = vec![vec![(0, 0, 0), (1, 0, 0), (0, 0, 0)]];
    let r = Model::new(verts, vec![Vec3Fx::new(0, 0, 0)], vec![Vec3Fx::new(0, 0, 0)], faces);
    assert_eq!(r.unwrap_err(), ModelError::InvalidFace);
}

#[test]
fn model_store_round_trip() {
    let mut mm = ModelManager::new();
    let id = mm.add_model(simple_model(true));
    let m = mm.get_model(id);
    assert_eq!(m.verts.len(), 3);
    assert_eq!(m.faces.len(), 1);
}

#[test]
fn texture_store_round_trip() {
    let mut tm = TextureManager::new();
    let id = tm.load_texture(1, 1, vec![1, 2, 3, 4]);
    let t = tm.get_texture(id);
    assert_eq!(t.width, 1);
    assert_eq!(t.height, 1);
    assert_eq!(t.pixels, vec![1, 2, 3, 4]);
}

#[test]
fn traversal_composes_transforms_in_order() {
    // root translated by (1,0,0), child by (0,1,0), grandchild by (0,0,1):
    // the world transform visited at the grandchild translates by (1,1,1).
    let mut root = Node::new(unit_transform(S, 0, 0), NodeType::Group);
    let mut a = Node::new(unit_transform(0, S, 0), NodeType::Group);
    let b = Node::new(unit_transform(0, 0, S), NodeType::Group);
    a.add_child(b);
    root.add_child(a);
    let visited = root.traverse(Mat4Fx::identity());
    assert_eq!(visited.len(), 3);
    assert_eq!(visited[0].0.m30, S);
    assert_eq!(visited[0].0.m31, 0);
    assert_eq!(visited[0].0.m32, 0);
    assert_eq!(visited[1].0.m30, S);
    assert_eq!(visited[1].0.m31, S);
    assert_eq!(visited[1].0.m32, 0);
    assert_eq!(visited[2].0.m30, S);
    assert_eq!(visited[2].0.m31, S);
    assert_eq!(visited[2].0.m32, S);
    // the rotation block stays the identity throughout
    assert_eq!(visited[2].0.m00, S);
    assert_eq!(visited[2].0.m11, S);
    assert_eq!(visited[2].0.m22, S);
    assert_eq!(visited[2].0.m01, 0);
}

#[test]
fn render_scene_without_camera_only_resets_depth() {
    let mut mm = ModelManager::new();
    let model_id = mm.add_model(simple_model(true));
    let mut tm = TextureManager::new();
    let texture_id = tm.load_texture(1, 1, vec![255, 0, 0, 255]);
    let cm = CameraManager::new();
    let mut root = Node::new(unit_transform(0, 0, 0), NodeType::Group);
    root.add_child(Node::new(unit_transform(0, 0, 0), NodeType::Mesh(ModelData {
        model_id,
        texture_id,
    })));
    let background = Color::new(3, 3, 3, 3);
    let mut r = Renderer::new(4, 4);
    r.clear(background);
    r.render_scene(&root, &mm, &tm, &cm);
    for i in 0..16usize {
        assert_eq!(r.get_pixel_color(i).unwrap(), background);
        assert_eq!(r.get_depth(i).unwrap(), DEPTH_SENTINEL);
    }
}

#[test]
fn render_scene_with_camera_draws_mesh_nodes() {
    let mut mm = ModelManager::new();
    let model_id = mm.add_model(simple_model(true));
    let mut tm = TextureManager::new();
    let texture_id = tm.load_texture(1, 1, vec![255, 0, 0, 255]);
    let mut cm = CameraManager::new();
    let cam = Camera::new(
        Vec3Fx::new(0, 0, 8 * S),
        Vec3Fx::new(0, 0, -5 * S),
        Vec3Fx::new(0, S, 0),
        45 * S,
        (4 * S) / 3,
        S / 10,
        100 * S,
        S / 20,
    );
    let cam_id = cm.add_camera(cam);
    cm.set_active_camera(cam_id);
    let mut root = Node::new(unit_transform(0, 0, 0), NodeType::Group);
    root.add_child(Node::new(unit_transform(0, 0, -2 * S), NodeType::Mesh(ModelData {
        model_id,
        texture_id,
    })));
    let mut r = Renderer::new(8, 8);
    r.clear(Color::new(0, 0, 0, 0));
    r.render_scene(&root, &mm, &tm, &cm);
    // the render ran to completion and the buffers are still addressable
    assert!(r.get_pixel_color(0).is_ok());
    assert!(r.get_depth(63).is_ok());
}

#[test]
fn camera_view_matrix_for_axis_aligned_look() {
    // looking down the negative z axis from the origin with y up: the
    // right-handed look-at is the identity with z negated twice over, i.e.
    // right = +x, up = +y, and the view direction mapped onto +z.
    let cam = Camera::new(
        Vec3Fx::new(0, 0, 0),
        Vec3Fx::new(0, 0, -S),
        Vec3Fx::new(0, S, 0),
        S,
        S,
        S / 10,
        100 * S,
        0,
    );
    let m = cam.get_view_matrix();
    assert_eq!(m.m00, S);
    assert_eq!(m.m01, 0);
    assert_eq!(m.m02, 0);
    assert_eq!(m.m10, 0);
    assert_eq!(m.m11, S);
    assert_eq!(m.m12, 0);
    assert_eq!(m.m20, 0);
    assert_eq!(m.m21, 0);
    assert_eq!(m.m22, S);
    assert_eq!(m.m30, 0);
    assert_eq!(m.m31, 0);
    assert_eq!(m.m32, 0);
    assert_eq!(m.m33, S);
}

#[test]
fn camera_view_matrix_translates_by_the_eye() {
    // the same look moved to (1, 2, 3): the rotation block is unchanged and
    // the last column carries the negated eye dotted with the axes
    let cam = Camera::new(
        Vec3Fx::new(S, 2 * S, 3 * S),
        Vec3Fx::new(S, 2 * S, 2 * S),
        Vec3Fx::new(0, S, 0),
        S,
        S,
        S / 10,
        100 * S,
        0,
    );
    let m = cam.get_view_matrix();
    assert_eq!(m.m00, S);
    assert_eq!(m.m11, S);
    assert_eq!(m.m22, S);
    assert_eq!(m.m30, -S);
    assert_eq!(m.m31, -2 * S);
    assert_eq!(m.m32, -3 * S);
    assert_eq!(m.m33, S);
}

#[test]
fn projection_matrix_shape() {
    let cam = Camera::new(
        Vec3Fx::new(0, 0, 0),
        Vec3Fx::new(0, 0, -S),
        Vec3Fx::new(0, S, 0),
        S,  // one radian field of view
        S,
        S / 10,
        100 * S,
        0,
    );
    let m = cam.get_projection_matrix();
    // off-diagonal structure of a perspective matrix
    assert_eq!(m.m01, 0);
    assert_eq!(m.m02, 0);
    assert_eq!(m.m03, 0);
    assert_eq!(m.m23, -S);
    assert_eq!(m.m33, 0);
    // aspect ratio one: the two focal entries agree
    assert_eq!(m.m00, m.m11);
    assert!(m.m11 > 0);
}

#[test]
fn rotate_active_camera_by_zero_snaps_target_to_unit_distance() {
    let mut cm = CameraManager::new();
    let cam = Camera::new(
        Vec3Fx::new(0, 0, 0),
        Vec3Fx::new(0, 0, -2 * S),
        Vec3Fx::new(0, S, 0),
        S,
        S,
        S / 10,
        100 * S,
        0,
    );
    let id = cm.add_camera(cam);
    cm.set_active_camera(id);
    cm.rotate_active_camera(0, Vec3Fx::new(0, 0, S));
    let active = cm.get_active_camera().unwrap();
    assert_eq!(active.target, Vec3Fx::new(0, 0, -S));
    assert_eq!(active.position, Vec3Fx::new(0, 0, 0));
}

#[test]
fn rotate_without_active_camera_is_a_no_op() {
    let mut cm = CameraManager::new();
    cm.rotate_active_camera(S, Vec3Fx::new(0, 0, S));
    assert!(cm.get_active_camera().is_none());
}
