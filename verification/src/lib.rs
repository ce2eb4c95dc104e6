//! Decoder for the OSM PBF container format: length-prefixed blob framing,
//! zlib payload decompression, wire-format message decoding, and delta-coded
//! dense node reconstruction, exposed as lazy pull iterators.
use vstd::prelude::*;

pub mod blob;
pub mod block;
pub mod delta;
pub mod dense;
pub mod elements;
pub mod error;
pub mod proto;
pub mod reader;
pub mod text;
pub mod wire;

verus! {

} // verus!
