//! The registry client: what it decides while an image is pulled. The
//! requests to the registry themselves are the driver's.

use vstd::prelude::*;
use vstd::string::StringExecFns;
use vstd::string::StrSliceExecFns;
use oci_distribution::client::Config;
use oci_distribution::client::ImageData;
use oci_distribution::client::ImageLayer;
use oci_distribution::manifest::OciDescriptor;
use oci_distribution::manifest::OciImageManifest;
use oci_distribution::secrets::RegistryAuth;
use oci_distribution::Reference;
use crate::error::BootrError;
use vstd::utf8::encode_utf8;
use crate::text::holds_text;
use crate::text::same;

verus! {

/// The way to authenticate to a registry, with its variants.
#[verifier::external_type_specification]
pub struct ExRegistryAuth(RegistryAuth);

/// A layer as it was fetched, with its public fields.
#[verifier::external_type_specification]
pub struct ExImageLayer(ImageLayer);

/// A configuration object as it was fetched, with its public fields.
#[verifier::external_type_specification]
pub struct ExConfig(Config);

/// An image as it was pulled, with its public fields.
#[verifier::external_type_specification]
pub struct ExImageData(ImageData);

/// The reference of an image: a registry, a repository and a tag or a
/// digest.
#[verifier::external_type_specification]
#[verifier::external_body]
pub struct ExReference(Reference);

/// Why a text is no reference of an image.
#[verifier::external_type_specification]
#[verifier::external_body]
pub struct ExParseError(oci_distribution::ParseError);

/// The reference that the text gives; `None` where it gives none.
pub uninterp spec fn reference_of(uri: Seq<char>) -> Option<Reference>;

/// The digest of the bytes: `sha256:` and the SHA-256 hash in lower-case
/// hexadecimal digits.
pub uninterp spec fn sha256_digest_of(data: Seq<u8>) -> Seq<char>;

/// `Reference::try_from` for a string slice: the same text gives the same
/// outcome, which `reference_of` names.
#[verifier::external_body]
fn parse_reference(uri: &str) -> (r: Result<Reference, oci_distribution::ParseError>)
    ensures
        match r {
            Ok(image) => reference_of(uri@) == Some(image),
            Err(_) => reference_of(uri@) is None,
        },
{
    Reference::try_from(uri)
}

/// `ImageLayer::sha256_digest`: the digest of the data of the layer,
/// which `sha256_digest_of` names.
#[verifier::external_body]
pub(crate) fn layer_digest(layer: &ImageLayer) -> (r: String)
    ensures
        r@ == sha256_digest_of(layer.data@),
{
    layer.sha256_digest()
}

/// The client takes the layers: it was told of no media types, or each
/// layer has one of those it was told of.
pub open spec fn accepts(mtypes: Seq<Seq<char>>, layers: Seq<OciDescriptor>) -> bool {
    mtypes.len() == 0 || forall|i: int|
        0 <= i < layers.len() ==> mtypes.contains((#[trigger] layers[i]).media_type@)
}

/// The places of the layers to fetch among the first `n`: those whose
/// digest is not known, in the order of the manifest.
pub open spec fn wanted_upto(layers: Seq<OciDescriptor>, known: Seq<Seq<char>>, n: int) -> Seq<usize>
    decreases n,
{
    if n <= 0 {
        Seq::<usize>::empty()
    } else if known.contains(layers[n - 1].digest@) {
        wanted_upto(layers, known, n - 1)
    } else {
        wanted_upto(layers, known, n - 1).push((n - 1) as usize)
    }
}

/// The places of the layers to fetch.
pub open spec fn wanted(layers: Seq<OciDescriptor>, known: Seq<Seq<char>>) -> Seq<usize> {
    wanted_upto(layers, known, layers.len() as int)
}

/// The digest `digest` is that of one of the layers at `places`.
pub open spec fn asked(layers: Seq<OciDescriptor>, places: Seq<usize>, digest: Seq<char>) -> bool {
    exists|k: int|
        0 <= k < places.len() && 0 <= #[trigger] places[k] < layers.len()
            && layers[places[k] as int].digest@ == digest
}

/// What was fetched is what was asked for: as many layers as were asked
/// for, each with data whose digest is that of a layer asked for.
pub open spec fn fetched_ok(layers: Seq<OciDescriptor>, places: Seq<usize>, fetched: Seq<ImageLayer>) -> bool {
    &&& fetched.len() == places.len()
    &&& forall|j: int|
        0 <= j < fetched.len() ==> asked(
            layers,
            places,
            sha256_digest_of((#[trigger] fetched[j]).data@),
        )
}

/// The manifest of an image as the registry gave it, with the digest of
/// the image and its configuration, which is JSON.
pub struct ManifestData {
    pub manifest: OciImageManifest,
    pub digest: String,
    pub config: String,
}

/// What the driver reports to `pull`.
pub enum PullEvent {
    /// Nothing yet.
    Start,
    /// The manifest that was asked for; `None` where the registry could
    /// not be reached or refused.
    Manifest(Option<ManifestData>),
    /// The manifest, and the layers that were asked for, in any order;
    /// `None` where one of them could not be fetched.
    Layers(ManifestData, Option<Vec<ImageLayer>>),
}

/// What `pull` asks the driver to do next.
pub enum PullAction {
    /// Fetch the manifest and the configuration of the image.
    FetchManifest(Reference),
    /// Fetch the layers at these places of the manifest, at most 16 at a
    /// time.
    FetchLayers(ManifestData, Vec<usize>),
    /// Nothing: the image is pulled.
    Done(ImageData),
}

/// How many layers are fetched at a time.
pub const FAN_OUT: usize = 16;

/// The client of a registry: how it authenticates, and the media types
/// of the layers that it takes.
pub struct OciClient {
    pub auth: RegistryAuth,
    pub mtypes: Vec<String>,
}

impl OciClient {
    /// A client that authenticates as `auth` says, anonymously where it
    /// says nothing, and takes layers of every media type.
    pub fn new(auth: Option<RegistryAuth>) -> (r: OciClient)
        ensures
            r.auth == match auth {
                Some(a) => a,
                None => RegistryAuth::Anonymous,
            },
            r.mtypes@.len() == 0,
    {
        OciClient {
            auth: match auth {
                Some(a) => a,
                None => RegistryAuth::Anonymous,
            },
            mtypes: Vec::new(),
        }
    }

    /// From now on the client authenticates with this name and password.
    pub fn auth_basic(&mut self, usr: &str, pwd: &str) -> (r: &mut Self)
        ensures
            r.auth matches RegistryAuth::Basic(u, p) && u@ == usr@ && p@ == pwd@,
            r.mtypes == old(self).mtypes,
            *final(self) == *final(r),
    {
        self.auth = RegistryAuth::Basic(String::from_str(usr), String::from_str(pwd));
        self
    }

    /// From now on the client takes layers of the media type `mtype`, and
    /// no longer those of a type it was not told of.
    pub fn add_media_type(&mut self, mtype: &str) -> (r: &mut Self)
        ensures
            r.auth == old(self).auth,
            r.mtypes.deep_view() == old(self).mtypes.deep_view().push(mtype@),
            *final(self) == *final(r),
    {
        self.mtypes.push(String::from_str(mtype));
        proof {
            assert(self.mtypes.deep_view() =~= old(self).mtypes.deep_view().push(mtype@));
        }
        self
    }

    /// Whether the client takes the layers of the manifest.
    pub fn takes(&self, manifest: &OciImageManifest) -> (r: bool)
        ensures
            r == accepts(self.mtypes.deep_view(), manifest.layers@),
    {
        if self.mtypes.len() == 0 {
            return true;
        }
        let mut i: usize = 0;
        while i < manifest.layers.len()
            invariant
                i <= manifest.layers.len(),
                self.mtypes.deep_view().len() > 0,
                forall|j: int|
                    0 <= j < i ==> self.mtypes.deep_view().contains(
                        (#[trigger] manifest.layers@[j]).media_type@,
                    ),
            decreases manifest.layers.len() - i,
        {
            if !holds_text(&self.mtypes, manifest.layers[i].media_type.as_str()) {
                return false;
            }
            i += 1;
        }
        true
    }
}

/// The places of the layers of the manifest whose digest is not among
/// `known`, in the order of the manifest.
pub fn wanted_layers(manifest: &OciImageManifest, known: &Vec<String>) -> (r: Vec<usize>)
    ensures
        r@ == wanted(manifest.layers@, known.deep_view()),
{
    let mut r: Vec<usize> = Vec::new();
    let mut i: usize = 0;
    while i < manifest.layers.len()
        invariant
            i <= manifest.layers.len(),
            r@ == wanted_upto(manifest.layers@, known.deep_view(), i as int),
        decreases manifest.layers.len() - i,
    {
        if !holds_text(known, manifest.layers[i].digest.as_str()) {
            r.push(i);
        }
        i += 1;
    }
    r
}

/// Whether the digest `digest` is that of one of the layers at `places`.
pub fn asked_for(manifest: &OciImageManifest, places: &Vec<usize>, digest: &str) -> (r: bool)
    ensures
        r == asked(manifest.layers@, places@, digest@),
{
    let mut k: usize = 0;
    while k < places.len()
        invariant
            k <= places.len(),
            forall|j: int|
                0 <= j < k ==> !(0 <= #[trigger] places@[j] < manifest.layers@.len()
                    && manifest.layers@[places@[j] as int].digest@ == digest@),
        decreases places.len() - k,
    {
        let at = places[k];
        if at < manifest.layers.len() && same(manifest.layers[at].digest.as_str(), digest) {
            return true;
        }
        k += 1;
    }
    false
}

/// Whether what was fetched is what was asked for.
pub fn check_layers(manifest: &OciImageManifest, places: &Vec<usize>, fetched: &Vec<ImageLayer>) -> (r:
    bool)
    ensures
        r == fetched_ok(manifest.layers@, places@, fetched@),
{
    if fetched.len() != places.len() {
        return false;
    }
    let mut j: usize = 0;
    while j < fetched.len()
        invariant
            j <= fetched.len(),
            fetched.len() == places.len(),
            forall|i: int|
                0 <= i < j ==> asked(
                    manifest.layers@,
                    places@,
                    sha256_digest_of((#[trigger] fetched@[i]).data@),
                ),
        decreases fetched.len() - j,
    {
        let digest = layer_digest(&fetched[j]);
        if !asked_for(manifest, places, digest.as_str()) {
            return false;
        }
        j += 1;
    }
    true
}

/// The image `img` is made of the manifest `m` and the layers `fetched`:
/// it holds the layers as they were fetched, the manifest, the digest of
/// the image, and as its configuration object the bytes of the
/// configuration with the media type and the annotations of the
/// manifest.
pub open spec fn pulled(img: ImageData, m: ManifestData, fetched: Vec<ImageLayer>) -> bool {
    &&& img.layers == fetched
    &&& img.manifest == Some(m.manifest)
    &&& img.digest == Some(m.digest)
    &&& img.config.data@ == encode_utf8(m.config@)
    &&& m.manifest.media_type == Some(img.config.media_type)
    &&& img.config.annotations is Some <==> m.manifest.annotations is Some
    &&& img.config.annotations is Some ==> img.config.annotations->0@ == m.manifest.annotations->0@
}

/// The first step of a pull: the manifest of the image that the text
/// names is to be fetched. `InvalidArgument` where the text names none.
pub fn begin_pull(parsed: Result<Reference, oci_distribution::ParseError>) -> (r: Result<
    PullAction,
    BootrError,
>)
    ensures
        r == match parsed {
            Ok(image) => Ok::<PullAction, BootrError>(PullAction::FetchManifest(image)),
            Err(_) => Err::<PullAction, BootrError>(BootrError::InvalidArgument),
        },
{
    match parsed {
        Ok(image) => Ok(PullAction::FetchManifest(image)),
        Err(_) => Err(BootrError::InvalidArgument),
    }
}

impl OciClient {
    /// One step of pulling the image that `uri` names, of which the
    /// layers with the digests `known` are there already: given what the
    /// driver reports, what it has to do next.
    ///
    /// At the start the manifest is asked for: `InvalidArgument` where
    /// `uri` is no reference of an image. When the manifest is there, the
    /// layers that are not known are asked for: `Unavailable` where the
    /// registry gave no manifest, `InvalidArgument` where a layer has a
    /// media type that the client does not take. When the layers are
    /// there, the image is put together: `Unavailable` where the registry
    /// did not give them, `InvalidData` where they are not the layers
    /// asked for, by number and by digest, or where the manifest names no
    /// media type.
    pub fn pull(&self, uri: &str, known: &Vec<String>, event: PullEvent) -> (r: Result<
        PullAction,
        BootrError,
    >)
        ensures
            match event {
                PullEvent::Start => match reference_of(uri@) {
                    Some(image) => r == Ok::<PullAction, BootrError>(
                        PullAction::FetchManifest(image),
                    ),
                    None => r == Err::<PullAction, BootrError>(BootrError::InvalidArgument),
                },
                PullEvent::Manifest(None) => r == Err::<PullAction, BootrError>(
                    BootrError::Unavailable,
                ),
                PullEvent::Manifest(Some(m)) => if accepts(
                    self.mtypes.deep_view(),
                    m.manifest.layers@,
                ) {
                    r matches Ok(PullAction::FetchLayers(again, places)) && again == m && places@
                        == wanted(m.manifest.layers@, known.deep_view())
                } else {
                    r == Err::<PullAction, BootrError>(BootrError::InvalidArgument)
                },
                PullEvent::Layers(m, None) => r == Err::<PullAction, BootrError>(
                    BootrError::Unavailable,
                ),
                PullEvent::Layers(m, Some(fetched)) => if m.manifest.media_type is Some
                    && fetched_ok(
                    m.manifest.layers@,
                    wanted(m.manifest.layers@, known.deep_view()),
                    fetched@,
                ) {
                    r matches Ok(PullAction::Done(img)) && pulled(img, m, fetched)
                } else {
                    r == Err::<PullAction, BootrError>(BootrError::InvalidData)
                },
            },
    {
        match event {
            PullEvent::Start => begin_pull(parse_reference(uri)),
            PullEvent::Manifest(None) => Err(BootrError::Unavailable),
            PullEvent::Manifest(Some(m)) => {
                if !self.takes(&m.manifest) {
                    return Err(BootrError::InvalidArgument);
                }
                let places = wanted_layers(&m.manifest, known);
                Ok(PullAction::FetchLayers(m, places))
            },
            PullEvent::Layers(_, None) => Err(BootrError::Unavailable),
            PullEvent::Layers(m, Some(fetched)) => {
                let places = wanted_layers(&m.manifest, known);
                if !check_layers(&m.manifest, &places, &fetched) {
                    return Err(BootrError::InvalidData);
                }
                let media_type = match &m.manifest.media_type {
                    Some(t) => t.clone(),
                    None => {
                        return Err(BootrError::InvalidData);
                    },
                };
                let annotations = match &m.manifest.annotations {
                    Some(a) => Some(a.clone()),
                    None => None,
                };
                let data = m.config.as_str().as_bytes_vec();
                let ManifestData { manifest, digest, config: _ } = m;
                Ok(
                    PullAction::Done(
                        ImageData {
                            layers: fetched,
                            digest: Some(digest),
                            config: Config { data, media_type, annotations },
                            manifest: Some(manifest),
                        },
                    ),
                )
            },
        }
    }
}

} // verus!
