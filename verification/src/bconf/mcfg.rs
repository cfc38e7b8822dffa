//! The central configuration: which image to install, how to reach its
//! registry, and how the system is kept up to date.

use vstd::prelude::*;
use indexmap::IndexMap;
use crate::error::BootrError;
use crate::files::FileProbe;

verus! {

/// An insertion-ordered map. Nothing is stated of what it holds: the
/// library carries such a map and does not look into it.
#[verifier::external_type_specification]
#[verifier::external_body]
#[verifier::reject_recursive_types(K)]
#[verifier::reject_recursive_types(V)]
#[verifier::reject_recursive_types(S)]
pub struct ExIndexMap<K, V, S>(IndexMap<K, V, S>);

/// The image and the way to log in to its registry.
#[derive(Debug)]
pub struct CnfOciRegistry {
    /// The reference of the image: a registry, a repository and a tag or a
    /// digest.
    pub image: String,
    /// The credentials, by name.
    pub login: IndexMap<String, String>,
}

/// How the system is kept up to date.
#[derive(Debug)]
pub struct CnfSystem {
    pub autoupdate: bool,
    /// The interval between two checks for an update.
    pub check: String,
    /// The paths that are kept across updates.
    pub keep_data: Vec<String>,
}

/// The central configuration.
#[derive(Debug)]
pub struct BootrConfig {
    pub oci_registry: CnfOciRegistry,
    pub system: CnfSystem,
}

/// The configuration that was found, or why there is none: `NotFound`
/// for a file that is missing, `Io` for one that cannot be read,
/// `InvalidData` for one that holds no configuration.
pub fn get_bootr_config(found: FileProbe<BootrConfig>) -> (r: Result<BootrConfig, BootrError>)
    ensures
        r == match found {
            FileProbe::Missing => Err::<BootrConfig, BootrError>(BootrError::NotFound),
            FileProbe::Unreadable => Err::<BootrConfig, BootrError>(BootrError::Io),
            FileProbe::Invalid => Err::<BootrConfig, BootrError>(BootrError::InvalidData),
            FileProbe::Loaded(record) => Ok::<BootrConfig, BootrError>(record),
        },
{
    found.loaded()
}

} // verus!
