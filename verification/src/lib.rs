//! Decoder for the FLV media container: the file header, the length-framed
//! tags, the audio and video payload headers, and the AMF0 metadata values
//! carried by script tags.
//!
//! Every decoder is a pure function from a byte slice to a value (and, where
//! parsing continues, the unconsumed rest of the slice). Each one is specified
//! by a spec function over `Seq<u8>` that gives the result for every input.

pub mod bytes;
pub mod error;
pub mod header;
pub mod stream;
pub mod tag;
