//! Verified reader for the PlayStation `tim` / `tis` image formats used by
//! Digimon Digital Card Battle, together with the pure state of the game tools.

pub mod bpp;
pub mod clut;
pub mod color;
pub mod header;
pub mod img;
pub mod le;
pub mod tim;
pub mod tis;
pub mod tools;

pub use bpp::BitsPerPixel;
pub use clut::Clut;
pub use color::Color;
pub use header::Header;
pub use img::Img;
pub use tim::Tim;
pub use tis::Tis;
