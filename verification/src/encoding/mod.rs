//! The encoding pipeline: properties, component bindings, the entity join and the encode
//! loop, the reference encoders, and the system that assembles the buffers of a frame.

pub mod binding;
pub mod encode_loop;
pub mod encoders;
pub mod frame;
pub mod property;
pub mod system;
