//! The per-entity source data that the reference encoders read.

use vstd::prelude::*;
use crate::scalar::{Scalar, Vec4, ONE};

verus! {

/// A tint: red, green, blue and alpha.
#[derive(Clone, Copy, Debug, PartialEq, Eq)]
pub struct Rgba(pub Scalar, pub Scalar, pub Scalar, pub Scalar);

impl Rgba {
    /// Fully opaque white: every channel is one.
    pub open spec fn spec_white() -> Rgba {
        Rgba(ONE, ONE, ONE, ONE)
    }

    /// Fully opaque white, the tint of an entity that has none of its own.
    pub fn white() -> (r: Rgba)
        ensures
            r == Rgba::spec_white(),
    {
        Rgba(ONE, ONE, ONE, ONE)
    }

    /// The channels as one four-scalar value.
    pub fn to_vec4(&self) -> (r: Vec4)
        ensures
            r == [self.0, self.1, self.2, self.3],
    {
        [self.0, self.1, self.2, self.3]
    }
}

/// The resolved world transform of an entity: a four by four matrix stored by columns,
/// so `self.0[c]` is column `c` and `self.0[c][r]` the scalar in row `r` of it.
#[derive(Clone, Copy, Debug, PartialEq, Eq)]
pub struct GlobalTransform(pub [Vec4; 4]);

impl GlobalTransform {
    /// The local X basis vector: the first column of the matrix.
    pub fn basis_x(&self) -> (r: Vec4)
        ensures
            r == self.0[0],
    {
        self.0[0]
    }

    /// The local Y basis vector: the second column of the matrix.
    pub fn basis_y(&self) -> (r: Vec4)
        ensures
            r == self.0[1],
    {
        self.0[1]
    }
}

} // verus!
