//! An endless world of tiles, streamed around a moving viewpoint.
//!
//! The heart of the crate is a texture cache over three tiers (device
//! memory, host memory, backing store) and the streaming policy that decides
//! which chunk needs its texture at which priority. Each operation comes with
//! a contract over a mathematical model, and the laws of the cache are proved
//! of every state it can reach. Three small functions call code that is not
//! verified here; each says what it takes on trust.
//!
//! The crate does no input or output. Uploads, readbacks, loads and the clock
//! belong to the program around it, which carries out the steps that the
//! texture manager asks for and reports their outcome.

pub mod cache_laws;
pub mod cache_model;
pub mod camera;
pub mod chunk;
pub mod config;
pub mod grid;
pub mod procedural;
pub mod str_map;
pub mod texture;
pub mod types;
pub mod world;
