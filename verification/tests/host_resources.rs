use yuga::resources::{AssetError, AudioError, GraphicsError, Renderable, Texture, VertexBuffer};

#[test]
fn texture_records_handle_and_dimensions() {
    let t = Texture::from_handle(17, 640, 480);
    assert_eq!(t.id(), 17);
    assert_eq!(t.dimensions(), (640, 480));
}

#[test]
fn vertex_buffer_records_handle_and_count() {
    let v = VertexBuffer::from_handle(5, 36);
    assert_eq!(v.id(), 5);
    assert_eq!(v.count(), 36);
}

#[test]
fn renderable_is_plain_data() {
    let a = Renderable { mesh_id: 1, material_id: 2 };
    let b = Renderable { mesh_id: 1, material_id: 2 };
    assert_eq!(a, b);
    assert_ne!(a, Renderable { mesh_id: 1, material_id: 3 });
}

#[test]
fn error_taxonomies_carry_their_messages() {
    let e = AssetError::NotFound("hero.mesh".to_string());
    match e {
        AssetError::NotFound(path) => assert_eq!(path, "hero.mesh"),
        _ => panic!("wrong variant"),
    }
    let e = AudioError::PlaybackError("device lost".to_string());
    match e {
        AudioError::PlaybackError(msg) => assert_eq!(msg, "device lost"),
        _ => panic!("wrong variant"),
    }
    let e = GraphicsError::ShaderCompilation("syntax".to_string());
    match e {
        GraphicsError::ShaderCompilation(msg) => assert_eq!(msg, "syntax"),
        _ => panic!("wrong variant"),
    }
}
