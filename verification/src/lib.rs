//! Fluxi: packs a set of files into a single self-extracting image and reads
//! such images back.
//!
//! The library holds the logic of the packer and the extractor: the container
//! layout, the password digest, the payload cipher, the launcher text, the
//! metadata record and the bookkeeping of the packing run.  Reading and
//! writing files, walking directories and (de)compressing the ZIP payload are
//! left to the caller.

pub mod container;
pub mod extraction;
pub mod extractor;
pub mod hash;
pub mod metadata;
pub mod packer;
pub mod roundtrip;
pub mod text;
