//! Read-only decoder for VDFS4 filesystem images.
//!
//! The image is handled as an in-memory byte buffer. Everything that decodes
//! it (snapshot tables, B+trees, extents, compressed containers) is verified.

pub mod data_source;
pub mod vdfs_crc;
pub mod layout;
pub mod btree;
pub mod vdfs;
pub mod unpack;
