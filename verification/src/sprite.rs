//! Sprites: images drawn in the scene, and tiles of sprite sheets.

use vstd::prelude::*;
use crate::utf8_lines::to_owned_string;

verus! {

/// Marks the camera the scene is drawn with.
pub struct ActiveSceneCamera;

/// An image drawn as a sprite.
#[derive(Clone, PartialEq, Eq, Hash)]
pub struct Image {
    image_path: String,
    smooth_sampling: bool,
}

impl Image {
    pub closed spec fn path(&self) -> Seq<char> {
        self.image_path@
    }

    pub closed spec fn smooth(&self) -> bool {
        self.smooth_sampling
    }

    pub fn new(image_path: &str, smooth_sampling: bool) -> (r: Self)
        ensures
            r.path() == image_path@,
            r.smooth() == smooth_sampling,
    {
        Self { image_path: to_owned_string(image_path), smooth_sampling }
    }

    pub fn image_path(&self) -> (r: &str)
        ensures
            r@ == self.path(),
    {
        self.image_path.as_str()
    }

    /// Whether the image is sampled smoothly rather than by nearest texel.
    pub fn smooth_sampling(&self) -> (r: bool)
        ensures
            r == self.smooth(),
    {
        self.smooth_sampling
    }
}

/// A sprite drawn from one tile of a sprite sheet of `width` by `height` tiles.
#[derive(Hash, Clone, PartialEq, Eq, Structural)]
pub struct SpriteSheetSprite {
    pub width: u32,
    pub height: u32,
    pub tile_x: u32,
    pub tile_y: u32,
}

impl SpriteSheetSprite {
    /// A sprite of a sheet of the given size, showing its first tile.
    pub fn from_sprite_sheet_dimensions(width: u32, height: u32) -> (r: Self)
        ensures
            r == (SpriteSheetSprite { width, height, tile_x: 0, tile_y: 0 }),
    {
        Self { width, height, tile_x: 0, tile_y: 0 }
    }

    /// Shows the tile at column `tile_x` and row `tile_y`.
    pub fn set_tile(&mut self, tile_x: u32, tile_y: u32)
        ensures
            *final(self) == (SpriteSheetSprite { tile_x, tile_y, ..*old(self) }),
    {
        self.tile_x = tile_x;
        self.tile_y = tile_y;
    }

    /// The tile drawn: the sprite's tile, each coordinate at most the sheet's last.
    pub fn clamped_tile(&self) -> (r: (u32, u32))
        requires
            self.width > 0,
            self.height > 0,
        ensures
            r.0 == if self.tile_x < self.width { self.tile_x } else { (self.width - 1) as u32 },
            r.1 == if self.tile_y < self.height { self.tile_y } else { (self.height - 1) as u32 },
    {
        let x = if self.tile_x < self.width - 1 { self.tile_x } else { self.width - 1 };
        let y = if self.tile_y < self.height - 1 { self.tile_y } else { self.height - 1 };
        (x, y)
    }
}

} // verus!
