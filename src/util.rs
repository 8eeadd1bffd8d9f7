use vstd::prelude::*;

verus! {

/// Window and tile sizes, and where the assets live.
#[derive(Debug, PartialEq, Eq)]
pub struct Config {
    pub window_dimensions: (u32, u32),
    pub default_tile_dimensions: (u32, u32),
    pub asset_dir: String,
}

/// An animation with directional variants: the directory holding the "Up",
/// "Down", "Left" and "Right" sub-directories, the catalog name, and for each
/// activity its file name and the sprite size of each direction in the order
/// Up, Down, Left, Right.
#[derive(Debug, PartialEq, Eq)]
pub struct DirectionalSpriteInfo {
    pub path: String,
    pub name: String,
    pub sprite_dimensions: Vec<(String, Vec<(u32, u32)>)>,
}

/// A single sprite sheet: its file, catalog name and sprite size.
#[derive(Debug, PartialEq, Eq)]
pub struct SpriteSheetInfo {
    pub path: String,
    pub name: String,
    pub sprite_dimensions: (u32, u32),
}

/// The asset manifest: every sprite sheet and directional animation to load.
#[derive(Debug, PartialEq, Eq)]
pub struct SpriteInfo {
    pub directional_sprites: Vec<DirectionalSpriteInfo>,
    pub sprites: Vec<SpriteSheetInfo>,
}

/// A tile sheet: its tile size and where it lies relative to the assets.
#[derive(Debug, PartialEq, Eq)]
pub struct TileSheet {
    pub tile_dimensions: (u32, u32),
    pub relative_path: String,
}

/// Whether a list of per-direction sprite sizes can cut a directional
/// animation: four sizes, none with a zero side.
pub fn directional_dimensions_valid(dims: &Vec<(u32, u32)>) -> (r: bool)
    ensures
        r == (dims@.len() == 4 && forall|i: int| 0 <= i < 4 ==> (#[trigger] dims@[i]).0 > 0 && dims@[i].1 > 0),
{
    if dims.len() != 4 {
        return false;
    }
    let mut i: usize = 0;
    while i < 4
        invariant
            dims@.len() == 4,
            i <= 4,
            forall|k: int| 0 <= k < i ==> (#[trigger] dims@[k]).0 > 0 && dims@[k].1 > 0,
        decreases 4 - i,
    {
        if dims[i].0 == 0 || dims[i].1 == 0 {
            return false;
        }
        i = i + 1;
    }
    true
}

} // verus!
