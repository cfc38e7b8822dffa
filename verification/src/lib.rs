//! Transactional root filesystem updates from OCI images: the slot layout,
//! the layer materializer and the activation protocol, as verified logic
//! that decides which filesystem operations a driver has to perform.

pub mod error;
pub mod text;
pub mod files;
pub mod bconf;
pub mod ociman;
