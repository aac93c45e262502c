//! Instance-data encoding for batched sprite rendering.
//!
//! Every frame the renderer packs the per-object attributes of many sprites into flat,
//! row-aligned buffers, one buffer per output property, so that a single draw call can
//! render all of them. This crate holds the verified core of that step: the component
//! bindings, the entity join, the encode loop, the reference encoders, and the system
//! that assembles the buffers of a frame, together with the sprite-sheet data and the
//! helpers that attach a sprite's mesh and material to entities.
//!
//! Scalars are carried as the bit patterns of single-precision numbers. The library moves
//! them, compares them and flips their sign; arithmetic on them is handed in by the
//! caller as function values.
//!
//! The components of the entities live in the storages of a `specs` world. For a frame
//! they are gathered into bindings, in which an entity is known by its index. Row `i` of
//! every buffer of a frame belongs to the `i`-th entity of that frame, whichever encoder
//! wrote it.
//!
//! The skip policy of the buffers is zero-fill: a frame begins with zeros in every row,
//! and "no value" from an encoder leaves the row of that entity as it is.

pub mod assets;
pub mod components;
pub mod encoding;
pub mod render;
pub mod scalar;
pub mod sprite;
pub mod world;

pub use encoding::encoders::{RgbaTintEncoder, SpriteTransformEncoder};
pub use render::{SpriteRenderData, WithSpriteRender};
pub use world::ComponentStorages;
pub use sprite::{Sprite, SpriteRenderInfo, SpriteSheet, SpriteSheetHandle};
