//! Decoder for `.cg` sprite-sheet containers.
//!
//! A container is one byte buffer that holds a global palette, a table of
//! sprite records and a table of alignment entries. Each sprite is painted
//! onto an RGBA canvas from its own value stream or from tiles that earlier
//! alignment entries left in a cache shared by the whole container.
//!
//! Every executable function here carries a contract that Verus proves.

pub mod align;
pub mod backref;
pub mod canvas;
pub mod cli;
pub mod color;
pub mod draw;
pub mod dump;
pub mod error;
pub mod fresh;
pub mod le;
pub mod paint;
pub mod sprite;
pub mod store;
pub mod tilemap;

pub use align::Align;
pub use canvas::Canvas;
pub use cli::{Operation, TileWidth};
pub use color::{palette_color, Rgba};
pub use draw::{draw_sprite, DecodedSprite};
pub use dump::{decode_sprites, dump_cg, palette_sidecar, Container, Dump};
pub use error::{DecodeError, Failure};
pub use le::b2u32;
pub use sprite::Sprite;
pub use tilemap::TileMap;
