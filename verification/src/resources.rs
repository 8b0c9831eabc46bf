//! Plain descriptors and error taxonomies for host-side resources: what the
//! engine core records about graphics objects, assets and audio. The device
//! work itself (GPU calls, file loading, audio streams) belongs to the host;
//! the core only stores and reports these values.

use vstd::prelude::*;

verus! {

/// Why an asset could not be provided.
#[derive(Clone, Debug)]
pub enum AssetError {
    LoadError(String),
    InvalidFormat(String),
    NotFound(String),
}

/// Why an audio clip could not be played.
#[derive(Clone, Debug)]
pub enum AudioError {
    FileNotFound(String),
    InvalidFormat(String),
    PlaybackError(String),
}

/// Why a graphics object could not be created or used.
#[derive(Clone, Debug)]
pub enum GraphicsError {
    /// Context creation failed
    ContextCreation(String),
    /// Shader compilation failed
    ShaderCompilation(String),
    /// Program linking failed
    ProgramLinking(String),
    /// Buffer creation failed
    BufferCreation(String),
    /// Texture creation failed
    TextureCreation(String),
    /// Resource not found
    ResourceNotFound(String),
}

/// What an entity draws: references into the host's mesh and material
/// stores.
#[derive(Clone, Copy, PartialEq, Eq, Structural, Debug)]
pub struct Renderable {
    pub mesh_id: u32,
    pub material_id: u32,
}

/// A texture the host has created, recorded by its handle and size.
pub struct Texture {
    texture_id: u32,
    width: u32,
    height: u32,
}

impl Texture {
    pub closed spec fn spec_id(&self) -> u32 {
        self.texture_id
    }

    pub closed spec fn spec_width(&self) -> u32 {
        self.width
    }

    pub closed spec fn spec_height(&self) -> u32 {
        self.height
    }

    /// Records a texture the host created under `texture_id`, of the given
    /// pixel size.
    pub fn from_handle(texture_id: u32, width: u32, height: u32) -> (r: Texture)
        ensures
            r.spec_id() == texture_id,
            r.spec_width() == width,
            r.spec_height() == height,
    {
        Texture { texture_id, width, height }
    }

    /// The texture handle the host assigned.
    pub fn id(&self) -> (r: u32)
        ensures
            r == self.spec_id(),
    {
        self.texture_id
    }

    /// Get the texture dimensions
    pub fn dimensions(&self) -> (r: (u32, u32))
        ensures
            r.0 == self.spec_width(),
            r.1 == self.spec_height(),
    {
        (self.width, self.height)
    }
}

/// A vertex buffer the host has filled, recorded by its handle and the
/// number of vertices it holds.
pub struct VertexBuffer {
    vbo_id: u32,
    count: usize,
}

impl VertexBuffer {
    pub closed spec fn spec_id(&self) -> u32 {
        self.vbo_id
    }

    pub closed spec fn spec_count(&self) -> usize {
        self.count
    }

    /// Records a vertex buffer the host created under `vbo_id`, holding
    /// `count` vertices.
    pub fn from_handle(vbo_id: u32, count: usize) -> (r: VertexBuffer)
        ensures
            r.spec_id() == vbo_id,
            r.spec_count() == count,
    {
        VertexBuffer { vbo_id, count }
    }

    /// The buffer handle the host assigned.
    pub fn id(&self) -> (r: u32)
        ensures
            r == self.spec_id(),
    {
        self.vbo_id
    }

    /// How many vertices the buffer holds.
    pub fn count(&self) -> (r: usize)
        ensures
            r == self.spec_count(),
    {
        self.count
    }
}

} // verus!
