use bootr::bconf::mcfg::get_bootr_config;
use bootr::bconf::mcfg::BootrConfig;
use bootr::bconf::mcfg::CnfOciRegistry;
use bootr::bconf::mcfg::CnfSystem;
use bootr::bconf::scfg::created_from;
use bootr::bconf::scfg::get_status_config;
use bootr::bconf::scfg::ociconf_to_file;
use bootr::bconf::scfg::render_config;
use bootr::bconf::scfg::status_text;
use bootr::bconf::scfg::Rendered;
use bootr::bconf::scfg::StatusConfig;
use bootr::bconf::scfg::StatusConfigCfg;
use bootr::bconf::scfg::StatusConfigHistory;
use bootr::bconf::scfg::StatusConfigRootfs;
use bootr::error::BootrError;
use bootr::files::FileProbe;
use bootr::ociman::ocistate::OCIMeta;
use bootr::ociman::ocistate::OCIMetaTryFrom;
use bootr::ociman::ocistate::OCIStateArtefact;
use oci_distribution::manifest::OciDescriptor;
use oci_distribution::manifest::OciImageManifest;

fn artefact(media_type: &str, digest: &str, size: i64) -> OCIStateArtefact {
    OCIStateArtefact {
        media_type: String::from(media_type),
        digest: String::from(digest),
        size,
    }
}

fn sample_meta() -> OCIMeta {
    OCIMeta {
        schema_version: 2,
        config: artefact("application/vnd.oci.image.config.v1+json", "sha256:cfg", 10),
        layers: vec![
            artefact("application/vnd.oci.image.layer.v1.tar+gzip", "sha256:base", 100),
            artefact("application/vnd.oci.image.layer.v1.tar+gzip", "sha256:diff", 20),
        ],
    }
}

fn descriptor(media_type: &str, digest: &str, size: i64) -> OciDescriptor {
    OciDescriptor {
        media_type: String::from(media_type),
        digest: String::from(digest),
        size,
        urls: Some(vec![String::from("https://example.com/blob")]),
        annotations: None,
    }
}

fn status(created: Option<&str>) -> StatusConfig {
    StatusConfig {
        created: created.map(String::from),
        author: None,
        architecture: String::from("amd64"),
        os: String::from("linux"),
        os_version: None,
        config: Some(StatusConfigCfg { cmd: Some(String::from("/bin/sh")), labels: None }),
        rootfs: StatusConfigRootfs {
            rootfs_type: String::from("layers"),
            diff_ids: vec![String::from("sha256:one")],
        },
        history: Some(vec![StatusConfigHistory {
            created: None,
            author: None,
            created_by: Some(String::from("ADD rootfs")),
            comment: None,
            empty_layer: Some(false),
        }]),
    }
}

#[test]
fn has_layer_finds_each_digest() {
    let meta = sample_meta();
    assert!(meta.has_layer("sha256:base"));
    assert!(meta.has_layer("sha256:diff"));
    assert!(!meta.has_layer("sha256:cfg"));
    assert!(!meta.has_layer("base"));
    assert!(!meta.has_layer(""));
}

#[test]
fn has_layer_of_no_layers() {
    let meta = OCIMeta { schema_version: 2, config: artefact("c", "sha256:cfg", 1), layers: vec![] };
    assert!(!meta.has_layer("sha256:cfg"));
}

#[test]
fn layer_digests_in_manifest_order() {
    let meta = sample_meta();
    assert_eq!(
        meta.get_layers_as_digests(),
        vec![String::from("sha256:base"), String::from("sha256:diff")]
    );
    let none = OCIMeta { schema_version: 2, config: artefact("c", "d", 1), layers: vec![] };
    assert_eq!(none.get_layers_as_digests(), Vec::<String>::new());
}

#[test]
fn from_manifest_truncates_and_keeps_order() {
    let manifest = OciImageManifest {
        schema_version: 2,
        media_type: Some(String::from("application/vnd.oci.image.manifest.v1+json")),
        config: descriptor("application/vnd.oci.image.config.v1+json", "sha256:cfg", 10),
        layers: vec![
            descriptor("application/vnd.oci.image.layer.v1.tar+gzip", "sha256:base", 100),
            descriptor("application/vnd.oci.image.layer.v1.tar+gzip", "sha256:diff", 20),
        ],
        artifact_type: None,
        annotations: None,
    };
    assert_eq!(OCIMeta::from_manifest(&manifest), sample_meta());
}

#[test]
fn meta_clone_is_equal() {
    let meta = sample_meta();
    assert_eq!(meta.clone(), meta);
}

#[test]
fn meta_save_plan() {
    let plan = OCIMeta::save("/bootr/system/.temp", true).unwrap();
    assert_eq!(plan.dest, "/bootr/system/.temp/oci-meta");
    assert_eq!(plan.temp, "/bootr/system/.temp/oci-meta.tmp");
    assert_eq!(OCIMeta::save("/bootr/system/.temp", false), Err(BootrError::NotFound));
}

#[test]
fn meta_load_errors() {
    assert_eq!(OCIMeta::load(FileProbe::Missing), Err(BootrError::NotFound));
    assert_eq!(OCIMeta::load(FileProbe::Invalid), Err(BootrError::InvalidData));
    assert_eq!(OCIMeta::load(FileProbe::Unreadable), Err(BootrError::Io));
    assert_eq!(OCIMeta::load(FileProbe::Loaded(sample_meta())), Ok(sample_meta()));
    let r = <OCIMeta as OCIMetaTryFrom<FileProbe<OCIMeta>>>::try_from(FileProbe::Missing);
    assert_eq!(r, Err(BootrError::NotFound));
    let r = <OCIMeta as OCIMetaTryFrom<FileProbe<OCIMeta>>>::try_from(FileProbe::Loaded(
        sample_meta(),
    ));
    assert_eq!(r, Ok(sample_meta()));
}

#[test]
fn created_reads_the_timestamp() {
    assert_eq!(status(Some("2024-01-02T03:04:05Z")).created(), Some(Ok(1704164645)));
    assert_eq!(status(Some("1970-01-01T00:00:00Z")).created(), Some(Ok(0)));
    assert_eq!(status(None).created(), None);
}

#[test]
fn created_surfaces_a_malformed_timestamp() {
    assert_eq!(status(Some("yesterday")).created(), Some(Err(BootrError::InvalidData)));
    assert_eq!(status(Some("2024-01-02 03:04:05")).created(), Some(Err(BootrError::InvalidData)));
    assert_eq!(status(Some("2024-13-02T03:04:05Z")).created(), Some(Err(BootrError::InvalidData)));
    assert_eq!(status(Some("")).created(), Some(Err(BootrError::InvalidData)));
}

#[test]
fn created_from_keeps_the_time() {
    assert_eq!(created_from(Ok(42)), Ok(42));
}

#[test]
fn status_kind_is_layers() {
    assert!(status(None).is_layered());
    let mut other = status(None);
    other.rootfs.rootfs_type = String::from("blocks");
    assert!(!other.is_layered());
}

#[test]
fn default_status_is_blank() {
    let s = StatusConfig::default();
    assert_eq!(s.created, None);
    assert_eq!(s.architecture, "");
    assert_eq!(s.os, "");
    assert!(s.config.is_none());
    assert_eq!(s.rootfs.rootfs_type, "");
    assert!(s.rootfs.diff_ids.is_empty());
    assert!(s.history.is_none());
    let r = StatusConfigRootfs::default();
    assert_eq!(r.rootfs_type, "");
    assert!(r.diff_ids.is_empty());
}

#[test]
fn image_config_becomes_yaml() {
    let cfg = Vec::from(&b"{\"architecture\":\"amd64\",\"os\":\"linux\"}"[..]);
    let (plan, text) = ociconf_to_file(cfg, "/bootr/system/.temp/status", true).unwrap();
    assert_eq!(text, "architecture: amd64\nos: linux\n");
    assert_eq!(plan.dest, "/bootr/system/.temp/status");
    assert_eq!(plan.temp, "/bootr/system/.temp/status.tmp");
}

#[test]
fn image_config_nested_becomes_yaml() {
    let cfg = Vec::from(&b"{\"rootfs\":{\"diff_ids\":[\"sha256:a\",\"sha256:b\"],\"type\":\"layers\"}}"[..]);
    let (_, text) = ociconf_to_file(cfg, "/s/status", true).unwrap();
    assert_eq!(text, "rootfs:\n  diff_ids:\n  - sha256:a\n  - sha256:b\n  type: layers\n");
}

#[test]
fn image_config_needs_the_directory() {
    let cfg = Vec::from(&b"{}"[..]);
    assert_eq!(ociconf_to_file(cfg, "/s/status", false), Err(BootrError::NotFound));
    let bad = Vec::from(&b"{"[..]);
    assert_eq!(ociconf_to_file(bad, "/s/status", false), Err(BootrError::NotFound));
}

#[test]
fn image_config_that_is_no_json() {
    let bad = Vec::from(&b"{\"architecture\": "[..]);
    assert_eq!(ociconf_to_file(bad, "/s/status", true), Err(BootrError::InvalidData));
    assert_eq!(ociconf_to_file(Vec::new(), "/s/status", true), Err(BootrError::InvalidData));
}

#[test]
fn render_config_tells_the_cases_apart() {
    assert!(matches!(render_config(b"not json"), Rendered::NoDocument));
    match render_config(b"[1, 2]") {
        Rendered::Text(text) => assert_eq!(text, "- 1\n- 2\n"),
        other => panic!("unexpected: {:?}", other),
    }
}

#[test]
fn status_text_maps_each_outcome() {
    assert_eq!(status_text(false, Rendered::Text(String::from("a: 1\n"))), Err(BootrError::NotFound));
    assert_eq!(status_text(true, Rendered::NoDocument), Err(BootrError::InvalidData));
    assert_eq!(status_text(true, Rendered::NoText), Err(BootrError::InvalidData));
    assert_eq!(status_text(true, Rendered::Text(String::from("a: 1\n"))), Ok(String::from("a: 1\n")));
}

#[test]
fn status_config_from_probe() {
    assert!(matches!(get_status_config(FileProbe::Missing), Err(BootrError::NotFound)));
    assert!(matches!(get_status_config(FileProbe::Invalid), Err(BootrError::InvalidData)));
    assert!(matches!(get_status_config(FileProbe::Unreadable), Err(BootrError::Io)));
    let got = get_status_config(FileProbe::Loaded(status(Some("2024-01-02T03:04:05Z")))).unwrap();
    assert_eq!(got.architecture, "amd64");
    assert_eq!(got.created, Some(String::from("2024-01-02T03:04:05Z")));
    let mut blocks = status(None);
    blocks.rootfs.rootfs_type = String::from("blocks");
    assert!(matches!(get_status_config(FileProbe::Loaded(blocks)), Err(BootrError::InvalidData)));
}

#[test]
fn bootr_config_from_probe() {
    assert!(matches!(get_bootr_config(FileProbe::Missing), Err(BootrError::NotFound)));
    assert!(matches!(get_bootr_config(FileProbe::Invalid), Err(BootrError::InvalidData)));
    assert!(matches!(get_bootr_config(FileProbe::Unreadable), Err(BootrError::Io)));
    let mut login = indexmap::IndexMap::new();
    login.insert(String::from("username"), String::from("u"));
    let cfg = BootrConfig {
        oci_registry: CnfOciRegistry { image: String::from("reg/x:1"), login },
        system: CnfSystem {
            autoupdate: false,
            check: String::from("24h"),
            keep_data: vec![String::from("/home")],
        },
    };
    let got = get_bootr_config(FileProbe::Loaded(cfg)).unwrap();
    assert_eq!(got.oci_registry.image, "reg/x:1");
    assert_eq!(got.oci_registry.login.get("username"), Some(&String::from("u")));
    assert_eq!(got.system.keep_data, vec![String::from("/home")]);
}
