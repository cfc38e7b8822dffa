//! The status record of a slot: the part of the image configuration that
//! is kept beside the root filesystem.

use vstd::prelude::*;
use chrono::NaiveDateTime;
use indexmap::IndexMap;
use crate::error::BootrError;
use crate::files::plan_for;
use crate::files::writes_to;
use crate::files::FileProbe;
use crate::files::WritePlan;
use crate::text::same;

verus! {

/// The form of the time at which an image was created.
pub const CREATED_FORMAT: &'static str = "%Y-%m-%dT%H:%M:%SZ";

/// Why a text is no time of the form asked for.
#[verifier::external_type_specification]
#[verifier::external_body]
pub struct ExParseError(chrono::ParseError);

/// A JSON document.
#[verifier::external_type_specification]
#[verifier::external_body]
pub struct ExJsonValue(serde_json::Value);

/// Why some bytes are no JSON document.
#[verifier::external_type_specification]
#[verifier::external_body]
pub struct ExJsonError(serde_json::Error);

/// Why a document cannot be written as YAML.
#[verifier::external_type_specification]
#[verifier::external_body]
pub struct ExYamlError(serde_yaml::Error);

/// The execution parameters that a container of the image starts from.
#[derive(Debug)]
pub struct StatusConfigCfg {
    /// The default arguments to the entry point.
    pub cmd: Option<String>,
    /// Metadata of the container, by name.
    pub labels: Option<IndexMap<String, String>>,
}

/// The layers of the image, by the hashes of their content.
#[derive(Debug)]
pub struct StatusConfigRootfs {
    /// The kind of the root filesystem, which is `layers`.
    pub rootfs_type: String,
    /// The hashes of the layers, from the first to the last.
    pub diff_ids: Vec<String>,
}

/// How one layer came to be.
#[derive(Debug)]
pub struct StatusConfigHistory {
    pub created: Option<String>,
    pub author: Option<String>,
    pub created_by: Option<String>,
    pub comment: Option<String>,
    /// Whether this step left the filesystem as it was.
    pub empty_layer: Option<bool>,
}

/// The status record.
#[derive(Debug)]
pub struct StatusConfig {
    /// The time at which the image was created, as it was written down.
    pub created: Option<String>,
    pub author: Option<String>,
    pub architecture: String,
    pub os: String,
    pub os_version: Option<String>,
    pub config: Option<StatusConfigCfg>,
    pub rootfs: StatusConfigRootfs,
    pub history: Option<Vec<StatusConfigHistory>>,
}

/// The seconds from the start of 1970, in UTC, to the time that `text`
/// gives in the form `format`; `None` where it gives none.
pub uninterp spec fn timestamp_of(text: Seq<char>, format: Seq<char>) -> Option<i64>;

/// The JSON document that the bytes encode; `None` where they encode none.
pub uninterp spec fn json_document(bytes: Seq<u8>) -> Option<serde_json::Value>;

/// The document written as YAML; `None` where it cannot be written.
pub uninterp spec fn yaml_text(doc: serde_json::Value) -> Option<Seq<char>>;

/// `chrono::NaiveDateTime::parse_from_str`, the time read as UTC and
/// counted in seconds by `timestamp`: the same text and form give the same
/// outcome, which `timestamp_of` names.
#[verifier::external_body]
fn parse_timestamp(text: &str, format: &str) -> (r: Result<i64, chrono::ParseError>)
    ensures
        match r {
            Ok(t) => timestamp_of(text@, format@) == Some(t),
            Err(_) => timestamp_of(text@, format@) is None,
        },
{
    match NaiveDateTime::parse_from_str(text, format) {
        Ok(t) => Ok(t.and_utc().timestamp()),
        Err(e) => Err(e),
    }
}

/// `serde_json::from_slice` for a whole document: the same bytes give the
/// same outcome, which `json_document` names.
#[verifier::external_body]
fn parse_json(bytes: &[u8]) -> (r: Result<serde_json::Value, serde_json::Error>)
    ensures
        match r {
            Ok(doc) => json_document(bytes@) == Some(doc),
            Err(_) => json_document(bytes@) is None,
        },
{
    serde_json::from_slice::<serde_json::Value>(bytes)
}

/// `serde_yaml::to_string` for a JSON document: the same document gives
/// the same outcome, which `yaml_text` names.
#[verifier::external_body]
fn render_yaml(doc: &serde_json::Value) -> (r: Result<String, serde_yaml::Error>)
    ensures
        match r {
            Ok(text) => yaml_text(*doc) == Some(text@),
            Err(_) => yaml_text(*doc) is None,
        },
{
    serde_yaml::to_string(doc)
}

/// What came of turning an image configuration into the text of a status
/// file.
#[derive(Debug)]
pub enum Rendered {
    /// The configuration is no JSON document.
    NoDocument,
    /// The document cannot be written as YAML.
    NoText,
    /// The text of the status file.
    Text(String),
}

/// What the bytes `cfg` render to.
pub open spec fn rendered(cfg: Seq<u8>) -> Option<Seq<char>> {
    match json_document(cfg) {
        Some(doc) => yaml_text(doc),
        None => None,
    }
}

/// Reads the image configuration `cfg`, which is JSON, and writes it as
/// YAML.
pub fn render_config(cfg: &[u8]) -> (r: Rendered)
    ensures
        r is NoDocument <==> json_document(cfg@) is None,
        r is NoText <==> json_document(cfg@) is Some && yaml_text(json_document(cfg@)->0) is None,
        r is Text ==> rendered(cfg@) == Some(r->Text_0@),
{
    match parse_json(cfg) {
        Err(_) => Rendered::NoDocument,
        Ok(doc) => match render_yaml(&doc) {
            Err(_) => Rendered::NoText,
            Ok(text) => Rendered::Text(text),
        },
    }
}

/// What is to be written to a status file, or why nothing is: `NotFound`
/// where the directory of the file does not exist, else `InvalidData`
/// where the configuration gave no text, else the text.
pub fn status_text(parent_exists: bool, rendered: Rendered) -> (r: Result<String, BootrError>)
    ensures
        !parent_exists ==> r == Err::<String, BootrError>(BootrError::NotFound),
        parent_exists && !(rendered is Text) ==> r == Err::<String, BootrError>(
            BootrError::InvalidData,
        ),
        parent_exists && rendered is Text ==> r == Ok::<String, BootrError>(rendered->Text_0),
{
    if !parent_exists {
        return Err(BootrError::NotFound);
    }
    match rendered {
        Rendered::Text(text) => Ok(text),
        _ => Err(BootrError::InvalidData),
    }
}

/// What is to be written to the status file `pth` for the image
/// configuration `cfg`, and how: the configuration, which is JSON, as
/// YAML. Fails with `NotFound` where `parent_exists` says that the
/// directory of the file does not exist, and with `InvalidData` where the
/// configuration cannot be read or written.
pub fn ociconf_to_file(cfg: Vec<u8>, pth: &str, parent_exists: bool) -> (r: Result<
    (WritePlan, String),
    BootrError,
>)
    ensures
        !parent_exists ==> r == Err::<(WritePlan, String), BootrError>(BootrError::NotFound),
        parent_exists && rendered(cfg@) is None ==> r == Err::<(WritePlan, String), BootrError>(
            BootrError::InvalidData,
        ),
        parent_exists && rendered(cfg@) is Some ==> r is Ok && writes_to(r->Ok_0.0, pth@)
            && r->Ok_0.1@ == rendered(cfg@)->0,
{
    if !parent_exists {
        return Err(BootrError::NotFound);
    }
    match status_text(parent_exists, render_config(cfg.as_slice())) {
        Ok(text) => Ok((plan_for(pth), text)),
        Err(e) => Err(e),
    }
}

/// The kind of root filesystem that a status record must name.
pub const ROOTFS_LAYERS: &'static str = "layers";

/// The record is of the kind that this library handles: its root
/// filesystem is made of layers.
pub open spec fn layered(record: StatusConfig) -> bool {
    record.rootfs.rootfs_type@ == ROOTFS_LAYERS@
}

/// The status record that was found, or why there is none: `NotFound`
/// for a file that is missing, `Io` for one that cannot be read,
/// `InvalidData` for one that holds no status record, or one whose root
/// filesystem is not made of layers.
pub fn get_status_config(found: FileProbe<StatusConfig>) -> (r: Result<StatusConfig, BootrError>)
    ensures
        r == match found {
            FileProbe::Missing => Err::<StatusConfig, BootrError>(BootrError::NotFound),
            FileProbe::Unreadable => Err::<StatusConfig, BootrError>(BootrError::Io),
            FileProbe::Invalid => Err::<StatusConfig, BootrError>(BootrError::InvalidData),
            FileProbe::Loaded(record) => if layered(record) {
                Ok::<StatusConfig, BootrError>(record)
            } else {
                Err::<StatusConfig, BootrError>(BootrError::InvalidData)
            },
        },
{
    match found.loaded() {
        Ok(record) => if record.is_layered() {
            Ok(record)
        } else {
            Err(BootrError::InvalidData)
        },
        Err(e) => Err(e),
    }
}

impl StatusConfig {
    /// The time at which the image was created, in seconds from the start
    /// of 1970 in UTC: `None` where the record gives none, and
    /// `InvalidData` where what it gives is not of the form
    /// `YYYY-MM-DDTHH:MM:SSZ`.
    pub fn created(&self) -> (r: Option<Result<i64, BootrError>>)
        ensures
            self.created is None ==> r is None,
            self.created is Some ==> r == Some(
                created_at(timestamp_of(self.created->0@, CREATED_FORMAT@)),
            ),
    {
        match &self.created {
            None => None,
            Some(text) => Some(created_from(parse_timestamp(text.as_str(), CREATED_FORMAT))),
        }
    }

    /// Whether the record is of the kind that this library handles: one
    /// whose root filesystem is made of layers.
    pub fn is_layered(&self) -> (r: bool)
        ensures
            r == layered(*self),
    {
        same(self.rootfs.rootfs_type.as_str(), ROOTFS_LAYERS)
    }
}

/// What `created` returns for a time read as `parsed`.
pub open spec fn created_at(parsed: Option<i64>) -> Result<i64, BootrError> {
    match parsed {
        Some(t) => Ok(t),
        None => Err(BootrError::InvalidData),
    }
}

/// The time that was read, or `InvalidData` where none could be read.
pub fn created_from(parsed: Result<i64, chrono::ParseError>) -> (r: Result<i64, BootrError>)
    ensures
        r == created_at(parsed.ok()),
{
    match parsed {
        Ok(t) => Ok(t),
        Err(_) => Err(BootrError::InvalidData),
    }
}

impl Default for StatusConfigRootfs {
    fn default() -> (r: Self)
        ensures
            r.rootfs_type@.len() == 0,
            r.diff_ids@.len() == 0,
    {
        StatusConfigRootfs { rootfs_type: String::new(), diff_ids: Vec::new() }
    }
}

impl Default for StatusConfig {
    fn default() -> (r: Self)
        ensures
            r.is_blank(),
    {
        StatusConfig {
            created: None,
            author: None,
            architecture: String::new(),
            os: String::new(),
            os_version: None,
            config: None,
            rootfs: StatusConfigRootfs { rootfs_type: String::new(), diff_ids: Vec::new() },
            history: None,
        }
    }
}

impl StatusConfig {
    /// The record says nothing: what stands for the status of an empty
    /// slot.
    pub open spec fn is_blank(&self) -> bool {
        &&& self.created is None
        &&& self.author is None
        &&& self.architecture@.len() == 0
        &&& self.os@.len() == 0
        &&& self.os_version is None
        &&& self.config is None
        &&& self.rootfs.rootfs_type@.len() == 0
        &&& self.rootfs.diff_ids@.len() == 0
        &&& self.history is None
    }
}

} // verus!
