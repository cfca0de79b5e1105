use gl_wrap::assets::Assets;
use gl_wrap::component::Component;
use gl_wrap::component::MeshComponent;
use gl_wrap::mesh::{buffer_slice, Mesh};
use gl_wrap::model::Model;
use gl_wrap::shader::{Projection, Shader, ShaderError};
use gl_wrap::texture::{PixelLayout, Texture};
use gl_wrap::{QuatBits, Transform, ONE_BITS, ZERO_BITS};

#[test]
fn transform_new_is_the_identity() {
    let t = Transform::new();
    assert_eq!((t.translation.x, t.translation.y, t.translation.z), (0, 0, 0));
    assert_eq!((t.scale.x, t.scale.y, t.scale.z), (ONE_BITS, ONE_BITS, ONE_BITS));
    assert_eq!(
        (t.rotation.x, t.rotation.y, t.rotation.z, t.rotation.w),
        (ZERO_BITS, ZERO_BITS, ZERO_BITS, ONE_BITS)
    );
    assert_eq!(ONE_BITS, 1.0f32.to_bits());
}

#[test]
fn mesh_builder_requires_vertices_indices_and_name() {
    let err = Mesh::new().build().unwrap_err();
    assert_eq!(err, "Error: Did not supply vertices");

    let err = Mesh::new().vertices(vec![1, 2, 3]).build().unwrap_err();
    assert_eq!(err, "Error: Did not supply indices");

    let err = Mesh::new()
        .vertices(vec![1, 2, 3])
        .indices(vec![0, 0, 1, 0])
        .build()
        .unwrap_err();
    assert_eq!(err, "Error: Did not supply name");
}

#[test]
fn mesh_builder_builds_with_two_bytes_per_index() {
    let mesh = Mesh::new()
        .name("quad")
        .vertices(vec![1, 2, 3, 4, 5, 6])
        .indices(vec![0, 0, 1, 0, 2, 0])
        .uv(vec![7, 8])
        .build()
        .unwrap();
    assert_eq!(mesh.vertices, vec![1, 2, 3, 4, 5, 6]);
    assert_eq!(mesh.indices, vec![0, 0, 1, 0, 2, 0]);
    assert_eq!(mesh.uv, vec![7, 8]);
    assert_eq!(mesh.index_count, 3);
}

#[test]
fn shader_builder_requires_vertex_then_fragment() {
    let mut b = Shader::new();
    let err = b.build().unwrap_err();
    assert_eq!(err, ShaderError::MissingVertex);
    assert_eq!(err.message(), "Vertex shader not supplied");

    let mut b = Shader::new();
    b.vertex(b"void main() {}".to_vec());
    let err = b.build().unwrap_err();
    assert_eq!(err, ShaderError::MissingFragment);
    assert_eq!(err.message(), "Fragment shader not supplied");
}

#[test]
fn shader_builder_builds_and_consumes_its_sources() {
    let mut b = Shader::new();
    b.vertex(b"vertex src".to_vec())
        .fragment(b"fragment src".to_vec())
        .perspective(800, 600);
    let shader = b.build().unwrap();
    assert_eq!(shader.vertex, b"vertex src");
    assert_eq!(shader.fragment, b"fragment src");
    assert_eq!(
        shader.perspective,
        Some(Projection::Perspective { width: 800, height: 600 })
    );
    // The sources were taken out of the builder.
    assert!(b.vertex.is_none());
    assert!(b.fragment.is_none());
    // Building again therefore fails on the vertex source.
    assert_eq!(b.build().unwrap_err(), ShaderError::MissingVertex);
}

#[test]
fn shader_builder_orthographic_projection() {
    let mut b = Shader::new();
    b.vertex(vec![1]).fragment(vec![2]).orthographic(640, 480);
    let shader = b.build().unwrap();
    assert_eq!(
        shader.perspective,
        Some(Projection::Orthographic { width: 640, height: 480 })
    );
}

#[test]
fn texture_reports_its_size_and_layout() {
    let t = Texture::new(64, 32, PixelLayout::Rgba8);
    assert_eq!(t.width(), 64);
    assert_eq!(t.height(), 32);
    assert_eq!(t.layout.bytes_per_pixel(), 4);
    assert_eq!(PixelLayout::Rgb8.bytes_per_pixel(), 3);
}

#[test]
fn buffer_slice_copies_the_accessor_window() {
    let buffer = vec![10, 11, 12, 13, 14, 15];
    assert_eq!(buffer_slice(&buffer, 2, 3), vec![12, 13, 14]);
    assert_eq!(buffer_slice(&buffer, 0, 0), Vec::<u8>::new());
    assert_eq!(buffer_slice(&buffer, 6, 0), Vec::<u8>::new());
}

#[test]
fn assets_register_and_look_up_meshes_by_name() {
    let mut assets = Assets::new();
    assert!(assets.get_mesh("quad").is_none());

    let quad = Mesh::new()
        .name("quad")
        .vertices(vec![1])
        .indices(vec![0, 0])
        .build()
        .unwrap();
    assets.insert_mesh("quad", quad);
    assert_eq!(assets.get_mesh("quad").unwrap().index_count, 1);
    assert!(assets.get_mesh("cube").is_none());

    let bigger = Mesh::new()
        .name("quad")
        .vertices(vec![1, 2])
        .indices(vec![0, 0, 1, 0])
        .build()
        .unwrap();
    assets.insert_mesh("quad", bigger);
    assert_eq!(assets.get_mesh("quad").unwrap().index_count, 2);
    assert_eq!(assets.meshes.len(), 1);
}

#[test]
fn model_draws_its_components_in_order() {
    let mut model = Model::from_mesh(4, 9);
    assert_eq!(model.meshes.len(), 1);
    // No texture on the component yet, so nothing is drawn.
    assert!(model.draw().is_empty());

    let mut with_texture = MeshComponent::create(0);
    with_texture.add_mstm(5, 9, Some(2), None);
    model.meshes.push(with_texture);
    let calls = model.draw();
    assert_eq!(calls.len(), 1);
    assert_eq!((calls[0].mesh, calls[0].shader, calls[0].texture), (5, 9, 2));
}

#[test]
fn model_setters_touch_every_component() {
    let mut model = Model::from_mesh(4, 9);
    let mut second = MeshComponent::create(0);
    second.add_mstm(5, 9, Some(2), None);
    model.meshes.push(second);

    model.set_translate(1, 2, 3);
    model.set_scale(4, 5, 6);
    model.set_rotation(QuatBits { x: 7, y: 8, z: 9, w: 10 });
    for comp in &model.meshes {
        for t in &comp.transforms {
            assert_eq!((t.translation.x, t.translation.y, t.translation.z), (1, 2, 3));
            assert_eq!((t.scale.x, t.scale.y, t.scale.z), (4, 5, 6));
            assert_eq!((t.rotation.x, t.rotation.y, t.rotation.z, t.rotation.w), (7, 8, 9, 10));
        }
    }
}
