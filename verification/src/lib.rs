//! The core of an interpreter for the game *Another World*: the bytecode
//! virtual machine, the resource manager with its bank decompressor, the
//! polygon rasterizer and the four-channel mixer with its music sequencer.
//!
//! The library computes on plain values only. Reading files, opening a
//! window, playing audio and keeping time are left to the program that
//! embeds it.
pub mod bank;
pub mod buffer;
pub mod engine;
pub mod error;
pub mod font;
pub mod frame;
pub mod input;
pub mod invariants;
pub mod mirror;
pub mod mixer;
pub mod opcode;
pub mod ops;
pub mod ops_media;
pub mod pack;
pub mod parts;
pub mod player;
pub mod polygon;
pub mod raster;
pub mod resource;
pub mod sfxplayer;
pub mod strings;
pub mod text;
pub mod util;
pub mod video;
pub mod vm;
