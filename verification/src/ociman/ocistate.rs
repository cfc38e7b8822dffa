//! The metadata record of a slot: what is kept of an image manifest.

use vstd::prelude::*;
use oci_distribution::manifest::OciDescriptor;
use oci_distribution::manifest::OciImageManifest;
use crate::bconf::defaults::C_BOOTR_SECT_OCI_META;
use crate::error::BootrError;
use crate::files::write_plan;
use crate::files::writes;
use crate::files::FileProbe;
use crate::files::WritePlan;
use crate::text::same;

verus! {

/// A content descriptor of an image manifest, with its public fields.
#[verifier::external_type_specification]
pub struct ExOciDescriptor(OciDescriptor);

/// An image manifest, with its public fields.
#[verifier::external_type_specification]
pub struct ExOciImageManifest(OciImageManifest);

/// A blob of the image: its media type, its digest and its size.
#[derive(Debug, PartialEq, Eq)]
pub struct OCIStateArtefact {
    pub media_type: String,
    pub digest: String,
    pub size: i64,
}

/// What an artefact holds.
pub struct ArtefactView {
    pub media_type: Seq<char>,
    pub digest: Seq<char>,
    pub size: int,
}

impl View for OCIStateArtefact {
    type V = ArtefactView;

    open spec fn view(&self) -> ArtefactView {
        ArtefactView { media_type: self.media_type@, digest: self.digest@, size: self.size as int }
    }
}

impl Clone for OCIStateArtefact {
    fn clone(&self) -> (r: Self)
        ensures
            r@ == self@,
    {
        OCIStateArtefact {
            media_type: self.media_type.clone(),
            digest: self.digest.clone(),
            size: self.size,
        }
    }
}

/// The metadata record: the schema version of the manifest, its
/// configuration object and its layers, the base layer first.
#[derive(Debug, PartialEq, Eq)]
pub struct OCIMeta {
    pub schema_version: u8,
    pub config: OCIStateArtefact,
    pub layers: Vec<OCIStateArtefact>,
}

/// What a metadata record holds.
pub struct MetaView {
    pub schema_version: int,
    pub config: ArtefactView,
    pub layers: Seq<ArtefactView>,
}

impl MetaView {
    /// The digests of the layers, the base layer first.
    pub open spec fn digests(self) -> Seq<Seq<char>> {
        self.layers.map_values(|l: ArtefactView| l.digest)
    }
}

impl View for OCIMeta {
    type V = MetaView;

    open spec fn view(&self) -> MetaView {
        MetaView {
            schema_version: self.schema_version as int,
            config: self.config@,
            layers: self.layers@.map_values(|l: OCIStateArtefact| l@),
        }
    }
}

/// What a descriptor of a manifest says of its blob.
pub open spec fn descriptor_view(d: OciDescriptor) -> ArtefactView {
    ArtefactView { media_type: d.media_type@, digest: d.digest@, size: d.size as int }
}

/// The record that a manifest is cut down to.
pub open spec fn manifest_view(m: OciImageManifest) -> MetaView {
    MetaView {
        schema_version: m.schema_version as int,
        config: descriptor_view(m.config),
        layers: m.layers@.map_values(|d: OciDescriptor| descriptor_view(d)),
    }
}

/// A way to build a value from another that may fail, for the types from
/// which a metadata record can be loaded.
pub trait OCIMetaTryFrom<T>: Sized {
    /// What is returned where the conversion fails.
    type Error;

    /// What the conversion of `value` gives.
    spec fn converted(value: T) -> Result<Self, Self::Error>;

    /// Converts `value`.
    fn try_from(value: T) -> (r: Result<Self, Self::Error>)
        ensures
            r == Self::converted(value),
    ;
}

fn artefact_of(d: &OciDescriptor) -> (r: OCIStateArtefact)
    ensures
        r@ == descriptor_view(*d),
{
    OCIStateArtefact { media_type: d.media_type.clone(), digest: d.digest.clone(), size: d.size }
}

impl Clone for OCIMeta {
    fn clone(&self) -> (r: Self)
        ensures
            r@ == self@,
    {
        let mut layers: Vec<OCIStateArtefact> = Vec::new();
        let mut i: usize = 0;
        while i < self.layers.len()
            invariant
                i <= self.layers.len(),
                layers@.len() == i,
                forall|j: int| 0 <= j < i ==> layers@[j]@ == self.layers@[j]@,
            decreases self.layers.len() - i,
        {
            layers.push(self.layers[i].clone());
            i += 1;
        }
        let r = OCIMeta {
            schema_version: self.schema_version,
            config: self.config.clone(),
            layers,
        };
        proof {
            assert(r@.layers =~= self@.layers);
        }
        r
    }
}

impl OCIMetaTryFrom<FileProbe<OCIMeta>> for OCIMeta {
    type Error = BootrError;

    /// The record that was found, or why there is none: `NotFound` for a
    /// file that is missing, `Io` for one that cannot be read,
    /// `InvalidData` for one that holds no record.
    open spec fn converted(value: FileProbe<OCIMeta>) -> Result<OCIMeta, BootrError> {
        match value {
            FileProbe::Missing => Err(BootrError::NotFound),
            FileProbe::Unreadable => Err(BootrError::Io),
            FileProbe::Invalid => Err(BootrError::InvalidData),
            FileProbe::Loaded(record) => Ok(record),
        }
    }

    /// The record that was found at a path, or why there is none.
    fn try_from(value: FileProbe<OCIMeta>) -> Result<OCIMeta, BootrError> {
        OCIMeta::load(value)
    }
}

impl OCIMeta {
    /// The record that was found, or why there is none: `NotFound` for a
    /// file that is missing, `Io` for one that cannot be read,
    /// `InvalidData` for one that holds no record.
    pub fn load(found: FileProbe<OCIMeta>) -> (r: Result<OCIMeta, BootrError>)
        ensures
            r == match found {
                FileProbe::Missing => Err::<OCIMeta, BootrError>(BootrError::NotFound),
                FileProbe::Unreadable => Err::<OCIMeta, BootrError>(BootrError::Io),
                FileProbe::Invalid => Err::<OCIMeta, BootrError>(BootrError::InvalidData),
                FileProbe::Loaded(record) => Ok::<OCIMeta, BootrError>(record),
            },
    {
        found.loaded()
    }

    /// How a record is written into the slot at `pth`: to its file
    /// `oci-meta`, by way of a file beside it that is renamed. Fails with
    /// `NotFound` where `present` says that `pth` does not exist.
    pub fn save(pth: &str, present: bool) -> (r: Result<WritePlan, BootrError>)
        ensures
            !present ==> r == Err::<WritePlan, BootrError>(BootrError::NotFound),
            present ==> r is Ok && writes(r->Ok_0, pth@, C_BOOTR_SECT_OCI_META@),
    {
        write_plan(pth, C_BOOTR_SECT_OCI_META, present)
    }

    /// The record of the manifest `mfst`: its schema version, its
    /// configuration descriptor and its layers in their order, each cut
    /// down to media type, digest and size.
    pub fn from_manifest(mfst: &OciImageManifest) -> (r: OCIMeta)
        ensures
            r@ == manifest_view(*mfst),
    {
        let mut layers: Vec<OCIStateArtefact> = Vec::new();
        let mut i: usize = 0;
        while i < mfst.layers.len()
            invariant
                i <= mfst.layers.len(),
                layers@.len() == i,
                forall|j: int| 0 <= j < i ==> layers@[j]@ == descriptor_view(mfst.layers@[j]),
            decreases mfst.layers.len() - i,
        {
            layers.push(artefact_of(&mfst.layers[i]));
            i += 1;
        }
        let r = OCIMeta {
            schema_version: mfst.schema_version,
            config: artefact_of(&mfst.config),
            layers,
        };
        proof {
            assert(r@.layers =~= manifest_view(*mfst).layers);
        }
        r
    }

    /// Whether one of the layers has the digest `digest`.
    pub fn has_layer(&self, digest: &str) -> (r: bool)
        ensures
            r == self@.digests().contains(digest@),
    {
        let mut i: usize = 0;
        while i < self.layers.len()
            invariant
                i <= self.layers.len(),
                forall|j: int| 0 <= j < i ==> self@.digests()[j] != digest@,
            decreases self.layers.len() - i,
        {
            if same(self.layers[i].digest.as_str(), digest) {
                proof {
                    assert(self@.digests()[i as int] == digest@);
                }
                return true;
            }
            i += 1;
        }
        false
    }

    /// The digests of the layers, from the base layer to the newest.
    pub fn get_layers_as_digests(&self) -> (r: Vec<String>)
        ensures
            r.deep_view() == self@.digests(),
    {
        let mut out: Vec<String> = Vec::new();
        let mut i: usize = 0;
        while i < self.layers.len()
            invariant
                i <= self.layers.len(),
                out@.len() == i,
                forall|j: int| 0 <= j < i ==> out@[j]@ == self.layers@[j].digest@,
            decreases self.layers.len() - i,
        {
            out.push(self.layers[i].digest.clone());
            i += 1;
        }
        proof {
            assert(out.deep_view() =~= self@.digests());
        }
        out
    }
}

} // verus!
