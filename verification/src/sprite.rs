//! Sprite sheets: one texture that holds several sprites, and where each of them lies.

use vstd::prelude::*;
use crate::scalar::{Scalar, ZERO};

verus! {

/// A handle to the metadata of a sprite sheet.
#[derive(Clone, Copy, Debug, PartialEq, Eq)]
pub struct SpriteSheetHandle {
    /// The identifier under which the asset table knows the sheet.
    pub id: usize,
}

/// Dimensions and texture coordinates of one sprite of a sprite sheet.
///
/// The texture coordinates are normalized to the range from zero to one. On the X axis
/// zero is the left side and one the right side; on the Y axis zero is the top and one
/// the bottom.
#[derive(Clone, Copy, Debug, PartialEq, Eq)]
pub struct Sprite {
    /// Pixel width of the sprite.
    pub width: Scalar,
    /// Pixel height of the sprite.
    pub height: Scalar,
    /// Normalized left x coordinate.
    pub left: Scalar,
    /// Normalized right x coordinate.
    pub right: Scalar,
    /// Normalized top y coordinate.
    pub top: Scalar,
    /// Normalized bottom y coordinate.
    pub bottom: Scalar,
    /// Pixels by which the sprite is shifted to the left and down from the position of
    /// its entity.
    pub offsets: [Scalar; 2],
}

impl Sprite {
    /// The sprite of the given size and texture coordinates, not shifted.
    pub open spec fn of(
        width: Scalar,
        height: Scalar,
        left: Scalar,
        right: Scalar,
        top: Scalar,
        bottom: Scalar,
    ) -> Sprite {
        Sprite { width, height, left, right, top, bottom, offsets: [ZERO, ZERO] }
    }
}

impl From<((Scalar, Scalar), (Scalar, Scalar), (Scalar, Scalar))> for Sprite {
    /// Builds a sprite from the nested form `((width, height), (left, right), (top, bottom))`.
    fn from(v: ((Scalar, Scalar), (Scalar, Scalar), (Scalar, Scalar))) -> (r: Self) {
        let ((width, height), (left, right), (top, bottom)) = v;
        Sprite { width, height, left, right, top, bottom, offsets: [ZERO, ZERO] }
    }
}

impl vstd::std_specs::convert::FromSpecImpl<((Scalar, Scalar), (Scalar, Scalar), (Scalar, Scalar))> for Sprite {
    open spec fn obeys_from_spec() -> bool {
        true
    }

    open spec fn from_spec(v: ((Scalar, Scalar), (Scalar, Scalar), (Scalar, Scalar))) -> Self {
        Sprite::of(v.0.0, v.0.1, v.1.0, v.1.1, v.2.0, v.2.1)
    }
}

impl From<[Scalar; 6]> for Sprite {
    /// Builds a sprite from the flat form `[width, height, left, right, top, bottom]`.
    fn from(uv: [Scalar; 6]) -> (r: Self) {
        Sprite {
            width: uv[0],
            height: uv[1],
            left: uv[2],
            right: uv[3],
            top: uv[4],
            bottom: uv[5],
            offsets: [ZERO, ZERO],
        }
    }
}

impl vstd::std_specs::convert::FromSpecImpl<[Scalar; 6]> for Sprite {
    open spec fn obeys_from_spec() -> bool {
        true
    }

    open spec fn from_spec(uv: [Scalar; 6]) -> Self {
        Sprite::of(uv[0], uv[1], uv[2], uv[3], uv[4], uv[5])
    }
}

/// The two constructions agree: the flat form and the nested form of the same six
/// scalars give the same sprite, field by field.
pub proof fn lemma_flat_and_nested_agree(
    width: Scalar,
    height: Scalar,
    left: Scalar,
    right: Scalar,
    top: Scalar,
    bottom: Scalar,
    flat: [Scalar; 6],
)
    requires
        flat@ == seq![width, height, left, right, top, bottom],
    ensures
        <Sprite as vstd::std_specs::convert::FromSpec<[Scalar; 6]>>::from_spec(flat) == <Sprite as vstd::std_specs::convert::FromSpec<
            ((Scalar, Scalar), (Scalar, Scalar), (Scalar, Scalar)),
        >>::from_spec(((width, height), (left, right), (top, bottom))),
        <Sprite as vstd::std_specs::convert::FromSpec<[Scalar; 6]>>::from_spec(flat) == Sprite::of(
            width,
            height,
            left,
            right,
            top,
            bottom,
        ),
{
}

/// Metadata of a sprite sheet texture: which texture it is, and where its sprites lie.
#[derive(Clone, Debug, PartialEq, Eq)]
pub struct SpriteSheet {
    /// Identifier of the texture of this sprite sheet.
    pub texture_id: u64,
    /// The sprites of this sprite sheet, in order.
    pub sprites: Vec<Sprite>,
}

impl SpriteSheet {
    /// The sprite with the given number, if the sheet has that many.
    pub open spec fn spec_sprite(&self, number: int) -> Option<Sprite> {
        if 0 <= number < self.sprites@.len() {
            Some(self.sprites@[number])
        } else {
            None
        }
    }

    /// The sprite with the given number, or `None` where the sheet has fewer sprites.
    pub fn sprite(&self, number: usize) -> (r: Option<Sprite>)
        ensures
            r == self.spec_sprite(number as int),
    {
        if number < self.sprites.len() {
            Some(self.sprites[number])
        } else {
            None
        }
    }
}

/// Information for rendering a sprite: the sheet it is on, and which sprite of the sheet
/// it is.
#[derive(Clone, Copy, Debug, PartialEq, Eq)]
pub struct SpriteRenderInfo {
    /// Handle to the sprite sheet of the sprite.
    pub sprite_sheet: SpriteSheetHandle,
    /// Index of the sprite on the sprite sheet.
    pub sprite_number: usize,
}

} // verus!
