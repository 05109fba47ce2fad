//! Decoder library for a legacy game's on-disk asset formats: packed-pixel
//! sprite sheets in two historical display-adapter encodings, fixed-layout
//! dungeon room records, and fixed-layout monster records.
pub mod cga;
pub mod crumb;
pub mod ega;
pub mod error;
pub mod img;
pub mod monster;
pub mod pascal;
pub mod rms;
