//! Extraction of building footprints and attributes from CityGML building files.
//!
//! A file is read as a stream of XML events ([`xml`]). A state machine
//! ([`context`]) gathers from them, building by building, the rings of the roof edge
//! ([`coords`]) and the named properties ([`feature`]) that the elements it knows
//! ([`tags`]) carry; [`extract`] runs it over the events of a file and hands out one
//! feature for each building. [`archive`] tells which entries of an archive are
//! building files, and [`ndjson`] frames serialised features as lines.
//!
//! Numbers are kept as the decimal text they were written in ([`number`]); nothing
//! here computes with floating point. [`laws`] states what holds of every
//! extraction.

pub mod archive;
pub mod context;
pub mod coords;
pub mod error;
pub mod extract;
pub mod feature;
pub mod laws;
pub mod ndjson;
pub mod number;
pub mod tags;
pub mod text;
pub mod xml;
