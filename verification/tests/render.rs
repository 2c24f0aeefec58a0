use std::sync::Arc;

use engine::opengl_backend::shader::Program;
use engine::render::asset_storage::asset_storage::{MeshHandle, TextureHandle};
use engine::render::asset_storage::mesh::IndexType;
use engine::render::asset_storage::vertex::{
    process_positions, process_triangle_corners, vertex_layout, vertex_uv_layout,
    vertex_uvn_layout, GLVertexAttribute, GLVertexFormat, IndexValue, Polygon,
};
use engine::render::device::GraphicsApi;
use engine::render::ecs::components::{MaterialHandle, Renderable};
use engine::render::renderer::{RenderCommand, RenderCommandQueue};
use engine::render::shader_storage::{ShaderHandle, ShaderStorage};

fn tri(a: (usize, usize, usize), b: (usize, usize, usize), c: (usize, usize, usize)) -> Polygon {
    Polygon::PTN(vec![a, b, c])
}

#[test]
fn positions_of_triangles_in_order() {
    let polygons = vec![
        Polygon::P(vec![0, 1, 2]),
        Polygon::PT(vec![(2, 0), (3, 1), (0, 2)]),
        Polygon::PN(vec![(4, 0), (5, 0), (6, 0)]),
        Polygon::PTN(vec![(7, 0, 0), (8, 0, 0), (9, 0, 0)]),
    ];
    let ib: Vec<u32> = process_positions(&polygons);
    assert_eq!(ib, vec![0, 1, 2, 2, 3, 0, 4, 5, 6, 7, 8, 9]);
}

#[test]
fn positions_skip_non_triangles() {
    let polygons = vec![Polygon::P(vec![0, 1, 2, 3]), Polygon::P(vec![4, 5, 6]), Polygon::PT(vec![(1, 1)])];
    let ib: Vec<u16> = process_positions(&polygons);
    assert_eq!(ib, vec![4, 5, 6]);
}

#[test]
fn positions_skip_indices_too_large_for_the_type() {
    let polygons = vec![Polygon::P(vec![65535, 65536, 2])];
    let ib: Vec<u16> = process_positions(&polygons);
    assert_eq!(ib, vec![65535, 2]);
    let ib: Vec<u32> = process_positions(&polygons);
    assert_eq!(ib, vec![65535, 65536, 2]);
}

#[test]
fn index_conversion() {
    assert_eq!(<u16 as IndexValue>::from_usize(65535), Some(65535u16));
    assert_eq!(<u16 as IndexValue>::from_usize(65536), None);
    assert_eq!(<u32 as IndexValue>::from_usize(7), Some(7u32));
}

#[test]
fn corners_are_shared_between_triangles() {
    let polygons = vec![
        tri((0, 0, 0), (1, 1, 0), (2, 2, 0)),
        tri((2, 2, 0), (1, 1, 0), (3, 3, 0)),
    ];
    let (keys, ib): (Vec<(usize, usize, usize)>, Vec<u16>) = process_triangle_corners(&polygons);
    assert_eq!(keys, vec![(0, 0, 0), (1, 1, 0), (2, 2, 0), (3, 3, 0)]);
    assert_eq!(ib, vec![0, 1, 2, 2, 1, 3]);
}

#[test]
fn corners_differing_in_one_index_are_distinct() {
    let polygons = vec![tri((0, 0, 0), (0, 1, 0), (0, 0, 1))];
    let (keys, ib): (Vec<(usize, usize, usize)>, Vec<u32>) = process_triangle_corners(&polygons);
    assert_eq!(keys.len(), 3);
    assert_eq!(ib, vec![0, 1, 2]);
}

#[test]
fn corners_of_other_faces_are_ignored() {
    let polygons = vec![
        Polygon::P(vec![0, 1, 2]),
        Polygon::PT(vec![(0, 0), (1, 1), (2, 2)]),
        Polygon::PN(vec![(0, 0), (1, 1), (2, 2)]),
        Polygon::PTN(vec![(0, 0, 0), (1, 1, 1), (2, 2, 2), (3, 3, 3)]),
        tri((5, 5, 5), (6, 6, 6), (5, 5, 5)),
    ];
    let (keys, ib): (Vec<(usize, usize, usize)>, Vec<u16>) = process_triangle_corners(&polygons);
    assert_eq!(keys, vec![(5, 5, 5), (6, 6, 6)]);
    assert_eq!(ib, vec![0, 1, 0]);
}

#[test]
fn corners_beyond_the_index_type_get_no_vertex() {
    // 65536 distinct corners fill a u16 index range exactly; the next one is dropped
    let mut polygons = Vec::new();
    let mut n = 0usize;
    while n < 65538 {
        polygons.push(tri((n, 0, 0), (n + 1, 0, 0), (n + 2, 0, 0)));
        n += 3;
    }
    let (keys, ib): (Vec<(usize, usize, usize)>, Vec<u16>) = process_triangle_corners(&polygons);
    assert_eq!(keys.len(), 65536);
    assert_eq!(ib.len(), 65536);
    assert_eq!(ib[65535], 65535);
    // corner 0 is known, so a triangle reusing it still gets its index
    let mut more = polygons;
    more.push(tri((0, 0, 0), (100000, 0, 0), (1, 0, 0)));
    let (keys, ib): (Vec<(usize, usize, usize)>, Vec<u16>) = process_triangle_corners(&more);
    assert_eq!(keys.len(), 65536);
    assert_eq!(&ib[ib.len() - 2..], &[0, 1]);
}

#[test]
fn layouts() {
    let _ = vertex_layout();
    let _ = vertex_uv_layout();
    let _ = vertex_uvn_layout();
    let _ = GLVertexFormat::new(vec![GLVertexAttribute::new(0, 3, gl::FLOAT)]);
}

#[test]
fn shader_storage_read_after_insert() {
    let mut storage = ShaderStorage::new();
    let a = storage.insert_shader(Program::from_id(11));
    let b = storage.insert_shader(Program::from_id(22));
    assert_eq!(a, 0);
    assert_eq!(b, 1);
    assert_eq!(storage.get_shader(&ShaderHandle::new(a)).map(|p| p.id()), Some(11));
    assert_eq!(storage.get_shader(&ShaderHandle::new(b)).map(|p| p.id()), Some(22));
    assert!(storage.get_shader(&ShaderHandle::new(2)).is_none());
}

#[test]
fn render_queue_flush_empties() {
    let mut queue = RenderCommandQueue::default();
    assert_eq!(queue.len(), 0);
    queue.submit(RenderCommand::DrawMesh { vao: 1, count: 36 });
    queue.submit(RenderCommand::BindShader(Arc::new(Program::from_id(3))));
    queue.submit(RenderCommand::BindTexture(Arc::new(TextureHandle::new(4))));
    queue.submit(RenderCommand::SetMat4(Arc::new(glam::Mat4::IDENTITY)));
    queue.submit(RenderCommand::SetVec3(Arc::new(glam::Vec3::ONE)));
    assert_eq!(queue.len(), 5);
    queue.flush();
    assert_eq!(queue.len(), 0);
}

#[test]
fn renderable_builders() {
    let r = Renderable::new(MeshHandle::new(1));
    assert!(r.is_visible);
    assert!(r.texture.is_none() && r.material.is_none() && r.shader_to_use.is_none());
    let mut r = r
        .with_texture(TextureHandle::new(2))
        .with_material(MaterialHandle::new(3))
        .with_shader(ShaderHandle::new(4));
    assert_eq!(r.mesh.id(), 1);
    assert_eq!(r.texture.as_ref().map(|t| t.id()), Some(2));
    assert!(r.material.is_some() && r.shader_to_use.is_some());
    r.make_invisible();
    assert!(!r.is_visible);
    r.make_visible();
    assert!(r.is_visible);
}

#[test]
fn small_enums() {
    assert!(matches!(IndexType::U16(3), IndexType::U16(3)));
    assert!(GraphicsApi::OpenGL != GraphicsApi::Vulkan);
}
