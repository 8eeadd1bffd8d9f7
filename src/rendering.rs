use vstd::prelude::*;

pub mod render_queue;
pub mod sprites;
pub mod tilemap;

pub use render_queue::{render_queue_items, try_render_queue_items, RenderError, RenderQueue, RenderRequest};
pub use sprites::{AssetError, DirectionalAnimation, SpriteHolder, SpriteSheet};

verus! {

pub const WINDOW_WIDTH: u32 = 1008;

pub const WINDOW_HEIGHT: u32 = 1008;

/// Width in pixels of the area an entity may stand in.
pub const MAP_WIDTH: u32 = WINDOW_WIDTH / 16 * 63;

/// Height in pixels of the area an entity may stand in.
pub const MAP_HEIGHT: u32 = WINDOW_HEIGHT / 16 * 63;

/// Identifies a texture held by the graphics backend.
#[derive(Clone, Copy, Debug, PartialEq, Eq, Structural)]
pub struct TextureId(pub u32);

/// A texture as the backend loaded it: its handle and its size in pixels.
#[derive(Clone, Copy, Debug, PartialEq, Eq, Structural)]
pub struct LoadedTexture {
    pub id: TextureId,
    pub width: u32,
    pub height: u32,
}

/// A rectangle of a texture, with its top-left corner at (x, y).
#[derive(Clone, Copy, Debug, PartialEq, Eq, Structural)]
pub struct SourceRect {
    pub x: u32,
    pub y: u32,
    pub w: u32,
    pub h: u32,
}

/// A rectangle of the screen, with its top-left corner at (x, y).
#[derive(Clone, Copy, Debug, PartialEq, Eq, Structural)]
pub struct DestRect {
    pub x: i32,
    pub y: i32,
    pub w: u32,
    pub h: u32,
}

/// "Copy the `src` rectangle of `texture` to the `dst` rectangle of the screen."
#[derive(Clone, Copy, Debug, PartialEq, Eq, Structural)]
pub struct DrawCommand {
    pub texture: TextureId,
    pub src: SourceRect,
    pub dst: DestRect,
}

} // verus!
