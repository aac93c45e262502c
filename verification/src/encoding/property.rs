//! Properties: the named output attributes that encoders write.

use vstd::prelude::*;

verus! {

/// A named output attribute of four scalars per entity. Each property has one buffer in
/// the instance data of a frame.
#[derive(Clone, Copy, Debug, PartialEq, Eq, Structural)]
pub enum Property {
    /// The tint of an instance: `vec4 tint`.
    Tint,
    /// The position of an instance: `vec4 pos`.
    Pos2D,
    /// The direction and length of the local X axis of an instance: `vec4 dir_x`.
    DirX,
    /// The direction and length of the local Y axis of an instance: `vec4 dir_y`.
    DirY,
    /// A property that an encoder outside this crate declares, told apart by its number.
    Custom(u32),
}

} // verus!
