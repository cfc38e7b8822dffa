//! The slots and what fills them: metadata records, the registry client,
//! the layer materializer and the manager of the system directory.

pub mod ocistate;
pub mod ocidata;
pub mod installer;
pub mod slots;
pub mod probe;
pub mod ocisys;
pub mod safety;
