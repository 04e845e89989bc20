//! A command-list encoder and a tiled-memory address translator for the VideoCore IV
//! GPU, with the texture and model containers that feed them.

pub mod card;
pub mod cl;
pub mod encoder;
pub mod pack_textures;
pub mod relocation;
pub mod shaders;
pub mod texture;
pub mod vc4_image;

pub use encoder::{Buffer, CommandEncoder, ShaderAttribute, ShaderUniform, TextureUniform};
