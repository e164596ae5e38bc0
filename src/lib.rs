//! Conversion of DSD audio (DSF, DSDIFF, raw or multi-mono) into the WSD
//! container, and a reader for the ID3 tag embedded in DSF files.
pub mod bytes;
pub mod container;
pub mod convert;
pub mod error;
pub mod id3;
pub mod interleave;
pub mod layout;
pub mod params;
pub mod wsd;
