//! Queue, library and bookkeeping logic of the Fluyer music player, with
//! its behaviour stated in contracts and proved.
//!
//! The audio engine, the file system, decoders and the user interface stay
//! outside: the functions here take what they report as plain values and
//! say what they have to do next.

pub mod canvas;
pub mod collection;
pub mod engine;
pub mod filename;
pub mod image_cache;
pub mod json;
pub mod library;
pub mod logger;
pub mod lyric;
pub mod media;
pub mod metadata;
pub mod metrics;
pub mod paths;
pub mod player;
pub mod probe;
pub mod renderer;
pub mod screenshot;
pub mod tags;
pub mod text;
pub mod tools;
pub mod version;
