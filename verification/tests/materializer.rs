use std::collections::BTreeMap;

use bootr::error::BootrError;
use bootr::ociman::installer::blob_file_name;
use bootr::ociman::installer::is_layer_archive;
use bootr::ociman::installer::BuildAction;
use bootr::ociman::installer::BuildEvent;
use bootr::ociman::installer::BuildOp;
use bootr::ociman::installer::BuildStage;
use bootr::ociman::installer::choose_clear;
use bootr::ociman::installer::ClearChoice;
use bootr::ociman::installer::LayerJob;
use bootr::ociman::installer::OCIInstaller;
use bootr::ociman::installer::OPAQUE_WHITEOUT;
use bootr::ociman::installer::WHITEOUT;
use bootr::ociman::ocistate::OCIMeta;
use bootr::ociman::ocistate::OCIStateArtefact;

const GZ: &str = "application/vnd.oci.image.layer.v1.tar+gzip";
const SLOT: &str = "/bootr/system/.temp";
const ROOT: &str = "/bootr/system/.temp/rootfs";

fn s(text: &str) -> String {
    String::from(text)
}

fn meta(layers: &[(&str, &str)]) -> OCIMeta {
    OCIMeta {
        schema_version: 2,
        config: OCIStateArtefact { media_type: s("cfg"), digest: s("sha256:cfg"), size: 1 },
        layers: layers
            .iter()
            .map(|(media_type, digest)| OCIStateArtefact {
                media_type: s(media_type),
                digest: s(digest),
                size: 1,
            })
            .collect(),
    }
}

/// What a path holds in the filesystem of a test.
#[derive(Clone, Debug, PartialEq, Eq)]
enum Node {
    Dir,
    File(String),
}

/// A filesystem in memory, and the archives that the blobs in it hold.
struct Disk {
    nodes: BTreeMap<String, Node>,
    archives: BTreeMap<String, Vec<(String, Node)>>,
}

impl Disk {
    fn new() -> Disk {
        let mut nodes = BTreeMap::new();
        nodes.insert(s(SLOT), Node::Dir);
        Disk { nodes, archives: BTreeMap::new() }
    }

    fn blob(&mut self, name: &str, entries: &[(&str, Option<&str>)]) {
        let path = format!("{}/{}", SLOT, name);
        self.nodes.insert(path.clone(), Node::File(s("blob")));
        let entries = entries
            .iter()
            .map(|(rel, content)| {
                (s(rel), match content {
                    Some(text) => Node::File(s(text)),
                    None => Node::Dir,
                })
            })
            .collect();
        self.archives.insert(path, entries);
    }

    fn has(&self, path: &str) -> bool {
        self.nodes.contains_key(path.trim_end_matches('/'))
    }

    fn file(&self, path: &str) -> Option<&str> {
        match self.nodes.get(path) {
            Some(Node::File(text)) => Some(text.as_str()),
            _ => None,
        }
    }

    fn below(&self, path: &str) -> Vec<String> {
        let front = format!("{}/", path.trim_end_matches('/'));
        self.nodes.keys().filter(|k| k.starts_with(&front)).cloned().collect()
    }

    fn make_dirs(&mut self, path: &str) {
        let mut at = String::new();
        for part in path.split('/').filter(|p| !p.is_empty()) {
            at = format!("{}/{}", at, part);
            self.nodes.entry(at.clone()).or_insert(Node::Dir);
        }
    }

    fn remove_tree(&mut self, path: &str) {
        let path = path.trim_end_matches('/');
        for k in self.below(path) {
            self.nodes.remove(&k);
        }
        self.nodes.remove(path);
    }

    /// Clears the directory `dir` as the library chooses for each entry.
    fn clear(&mut self, dir: &str, keep: &Vec<String>) {
        let front = format!("{}/", dir.trim_end_matches('/'));
        let entries: Vec<String> = self
            .nodes
            .keys()
            .filter(|k| k.starts_with(&front) && !k[front.len()..].contains('/'))
            .cloned()
            .collect();
        for entry in entries {
            match choose_clear(keep, &entry) {
                ClearChoice::Keep => {},
                ClearChoice::Descend => self.clear(&entry, keep),
                ClearChoice::Remove => self.remove_tree(&entry),
            }
        }
    }

    fn perform(&mut self, op: &BuildOp) -> Result<(), BootrError> {
        match op {
            BuildOp::RemoveTree { path } => self.remove_tree(path),
            BuildOp::CreateDirs { path } => self.make_dirs(path),
            BuildOp::Unpack { archive, into } => {
                let entries = match self.archives.get(archive) {
                    Some(entries) if self.has(archive) => entries.clone(),
                    _ => return Err(BootrError::NotFound),
                };
                self.make_dirs(into);
                for (rel, node) in entries {
                    let rel = rel.trim_start_matches("./");
                    let path = format!("{}/{}", into, rel);
                    if let Some((dir, _)) = path.rsplit_once('/') {
                        self.make_dirs(dir);
                    }
                    self.nodes.insert(path, node);
                }
            },
            BuildOp::RemoveFile { path } => {
                if self.file(path).is_none() {
                    return Err(BootrError::Io);
                }
                self.nodes.remove(path);
            },
            BuildOp::RemoveTarget { path } => {
                if !self.has(path) {
                    return Err(BootrError::NotFound);
                }
                self.remove_tree(path);
            },
            BuildOp::ClearDir { path, keep } => self.clear(path, keep),
            BuildOp::CopyOver { from, to, failure } => {
                if !self.has(from) {
                    return Err(*failure);
                }
                let front = format!("{}/", from);
                for k in self.below(from) {
                    let node = self.nodes[&k].clone();
                    let dest = format!("{}/{}", to, &k[front.len()..]);
                    self.nodes.insert(dest, node);
                }
            },
            BuildOp::RemoveDirIfEmpty { path } => {
                if self.below(path).is_empty() {
                    self.nodes.remove(path);
                }
            },
        }
        Ok(())
    }

    /// Drives the installer to the end, as a driver would.
    fn materialize(&mut self, inst: &OCIInstaller, meta: &OCIMeta) -> Result<Vec<BuildOp>, BootrError> {
        let mut done = Vec::new();
        let mut stage = BuildStage::Prepare;
        let mut event = BuildEvent::Ready;
        for _ in 0..1000 {
            let (next, action) = inst.install(meta, stage, event);
            stage = next;
            match action {
                BuildAction::Perform { ops } => {
                    for op in ops {
                        self.perform(&op)?;
                        done.push(op);
                    }
                    event = BuildEvent::Ready;
                },
                BuildAction::Probe { path } => {
                    event = BuildEvent::Exists(self.has(&path));
                },
                BuildAction::List { ops, path } => {
                    for op in ops {
                        self.perform(&op)?;
                        done.push(op);
                    }
                    event = BuildEvent::Entries(self.below(&path));
                },
                BuildAction::Finished => {
                    assert_eq!(stage, BuildStage::Done);
                    return Ok(done);
                },
            }
        }
        panic!("the installer did not finish");
    }
}

#[test]
fn archive_media_types() {
    assert!(is_layer_archive("application/vnd.oci.image.layer.v1.tar+gzip"));
    assert!(is_layer_archive("application/vnd.docker.image.rootfs.diff.tar.gzip"));
    assert!(is_layer_archive("tar.gzip"));
    assert!(!is_layer_archive("application/vnd.oci.image.layer.v1.tar"));
    assert!(!is_layer_archive("application/vnd.oci.image.layer.v1.tar+zstd"));
    assert!(!is_layer_archive(""));
}

#[test]
fn blob_names_drop_the_algorithm() {
    assert_eq!(blob_file_name("sha256:0123abcd"), "0123abcd");
    assert_eq!(blob_file_name("0123abcd"), "0123abcd");
    assert_eq!(blob_file_name("sha256:sha256:ab"), "ab");
    assert_eq!(blob_file_name("sha512:ab"), "sha512:ab");
}

#[test]
fn whiteout_names() {
    assert_eq!(WHITEOUT, ".wh.");
    assert_eq!(OPAQUE_WHITEOUT, ".wh..wh..opq");
}

#[test]
fn new_installer_leaves_the_kernel() {
    let inst = OCIInstaller::new(ROOT);
    assert_eq!(inst.buildroot(), ROOT);
    assert_eq!(inst.maybe_keep_kernel(), Vec::<BuildOp>::new());
}

#[test]
fn kernel_is_copied_when_asked() {
    let inst = OCIInstaller::new(ROOT).keep_kernel(true);
    assert_eq!(
        inst.maybe_keep_kernel(),
        vec![
            BuildOp::CreateDirs { path: format!("{}/boot", ROOT) },
            BuildOp::CopyOver {
                from: s("/boot"),
                to: format!("{}/boot", ROOT),
                failure: BootrError::InvalidData,
            },
            BuildOp::CreateDirs { path: format!("{}/lib/modules", ROOT) },
            BuildOp::CopyOver {
                from: s("/lib/modules"),
                to: format!("{}/lib/modules", ROOT),
                failure: BootrError::InvalidData,
            },
        ]
    );
}

#[test]
fn dirtree_is_emptied_and_gets_mount_points() {
    let inst = OCIInstaller::new(ROOT);
    assert_eq!(
        inst.populate_dirtree(),
        vec![
            BuildOp::RemoveTree { path: s(ROOT) },
            BuildOp::CreateDirs { path: s(ROOT) },
            BuildOp::CreateDirs { path: format!("{}/dev", ROOT) },
            BuildOp::CreateDirs { path: format!("{}/proc", ROOT) },
            BuildOp::CreateDirs { path: format!("{}/sys", ROOT) },
            BuildOp::CreateDirs { path: format!("{}/run", ROOT) },
        ]
    );
}

#[test]
fn jobs_follow_the_manifest() {
    let inst = OCIInstaller::new(ROOT);
    let m = meta(&[(GZ, "sha256:aa"), ("text/plain", "sha256:bb"), (GZ, "sha256:cc")]);
    assert_eq!(
        inst.populate_oci_data(&m),
        vec![
            LayerJob { is_base: true, name: s("aa"), archive: format!("{}/aa", SLOT) },
            LayerJob { is_base: false, name: s("cc"), archive: format!("{}/cc", SLOT) },
        ]
    );
}

#[test]
fn jobs_without_a_base() {
    let inst = OCIInstaller::new(ROOT);
    let m = meta(&[("text/plain", "sha256:aa"), (GZ, "sha256:bb")]);
    assert_eq!(
        inst.populate_oci_data(&m),
        vec![LayerJob { is_base: false, name: s("bb"), archive: format!("{}/bb", SLOT) }]
    );
    assert_eq!(inst.populate_oci_data(&meta(&[])), Vec::<LayerJob>::new());
}

#[test]
fn base_layer_is_unpacked_in_place() {
    let inst = OCIInstaller::new(ROOT);
    assert_eq!(
        inst.apply_layer(true, "/s/aa", "aa", true),
        vec![
            BuildOp::Unpack { archive: s("/s/aa"), into: s(ROOT) },
            BuildOp::RemoveFile { path: s("/s/aa") },
        ]
    );
}

#[test]
fn diff_layer_is_unpacked_into_scratch() {
    let inst = OCIInstaller::new(ROOT);
    let scratch = format!("{}/tmp/bb", ROOT);
    assert_eq!(
        inst.apply_layer(false, "/s/bb", "bb", true),
        vec![
            BuildOp::CreateDirs { path: format!("{}/tmp", ROOT) },
            BuildOp::RemoveTree { path: scratch.clone() },
            BuildOp::CreateDirs { path: scratch.clone() },
            BuildOp::Unpack { archive: s("/s/bb"), into: scratch.clone() },
        ]
    );
    assert_eq!(
        inst.apply_layer(false, "/s/bb", "bb", false),
        vec![
            BuildOp::RemoveTree { path: scratch.clone() },
            BuildOp::CreateDirs { path: scratch.clone() },
            BuildOp::Unpack { archive: s("/s/bb"), into: scratch },
        ]
    );
}

#[test]
fn merge_resolves_whiteouts_first_and_removes_the_blob_last() {
    let inst = OCIInstaller::new(ROOT);
    let scratch = format!("{}/tmp/bb", ROOT);
    let entries = vec![
        scratch.clone(),
        format!("{}/opt", scratch),
        format!("{}/opt/svc", scratch),
        format!("{}/opt/svc/.wh.x", scratch),
        format!("{}/opt/svc/z", scratch),
        format!("{}/.wh.top", scratch),
        format!("{}/var/.wh..wh..opq", scratch),
        s("/elsewhere/.wh.y"),
    ];
    assert_eq!(
        inst.merge_layer("/s/bb", "bb", true, &entries),
        vec![
            BuildOp::RemoveTarget { path: format!("{}/opt/svc/x", ROOT) },
            BuildOp::RemoveFile { path: format!("{}/opt/svc/.wh.x", scratch) },
            BuildOp::RemoveTarget { path: format!("{}/top", ROOT) },
            BuildOp::RemoveFile { path: format!("{}/.wh.top", scratch) },
            BuildOp::ClearDir {
                path: format!("{}/var/", ROOT),
                keep: vec![
                    scratch.clone(),
                    format!("{}/dev", ROOT),
                    format!("{}/proc", ROOT),
                    format!("{}/sys", ROOT),
                    format!("{}/run", ROOT),
                ],
            },
            BuildOp::RemoveFile { path: format!("{}/var/.wh..wh..opq", scratch) },
            BuildOp::CopyOver { from: scratch.clone(), to: s(ROOT), failure: BootrError::Io },
            BuildOp::RemoveTree { path: scratch },
            BuildOp::RemoveDirIfEmpty { path: format!("{}/tmp", ROOT) },
            BuildOp::RemoveFile { path: s("/s/bb") },
        ]
    );
}

#[test]
fn merge_keeps_a_scratch_root_that_was_there() {
    let inst = OCIInstaller::new(ROOT);
    let scratch = format!("{}/tmp/bb", ROOT);
    assert_eq!(
        inst.merge_layer("/s/bb", "bb", false, &Vec::new()),
        vec![
            BuildOp::CopyOver { from: scratch.clone(), to: s(ROOT), failure: BootrError::Io },
            BuildOp::RemoveTree { path: scratch },
            BuildOp::RemoveFile { path: s("/s/bb") },
        ]
    );
}

#[test]
fn whiteout_only_in_the_last_component() {
    let inst = OCIInstaller::new(ROOT);
    let scratch = format!("{}/tmp/bb", ROOT);
    let entries = vec![format!("{}/.wh.dir/file", scratch), format!("{}/a.wh.b", scratch)];
    let ops = inst.merge_layer("/s/bb", "bb", false, &entries);
    assert_eq!(ops.len(), 3);
    assert!(matches!(ops[0], BuildOp::CopyOver { .. }));
}

#[test]
fn steps_ask_again_for_what_was_not_answered() {
    let inst = OCIInstaller::new(ROOT);
    let m = meta(&[(GZ, "sha256:aa"), (GZ, "sha256:bb")]);
    let (stage, action) = inst.install(&m, BuildStage::Layer(1), BuildEvent::Ready);
    assert_eq!(stage, BuildStage::Probing(1));
    assert_eq!(action, BuildAction::Probe { path: format!("{}/tmp", ROOT) });
    let (stage, action) = inst.install(&m, BuildStage::Probing(1), BuildEvent::Ready);
    assert_eq!(stage, BuildStage::Probing(1));
    assert_eq!(action, BuildAction::Probe { path: format!("{}/tmp", ROOT) });
    let (stage, action) = inst.install(&m, BuildStage::Listing(1, true), BuildEvent::Exists(true));
    assert_eq!(stage, BuildStage::Listing(1, true));
    assert_eq!(
        action,
        BuildAction::List { ops: Vec::new(), path: format!("{}/tmp/bb", ROOT) }
    );
}

#[test]
fn steps_past_the_last_layer_end_the_run() {
    let inst = OCIInstaller::new(ROOT);
    let m = meta(&[(GZ, "sha256:aa")]);
    for stage in [BuildStage::Layer(1), BuildStage::Probing(7), BuildStage::Listing(1, false)] {
        let (next, action) = inst.install(&m, stage, BuildEvent::Ready);
        assert_eq!(next, BuildStage::Done);
        assert_eq!(action, BuildAction::Perform { ops: Vec::new() });
    }
    let (next, action) = inst.install(&m, BuildStage::Done, BuildEvent::Ready);
    assert_eq!(next, BuildStage::Done);
    assert_eq!(action, BuildAction::Finished);
}

#[test]
fn fresh_install_one_layer_image() {
    let mut disk = Disk::new();
    disk.blob("aa", &[("./usr/bin/hello", Some("#!hello")), ("./etc/os-release", Some("ID=x"))]);
    let inst = OCIInstaller::new(ROOT);
    let m = meta(&[(GZ, "sha256:aa")]);
    disk.materialize(&inst, &m).unwrap();
    assert_eq!(disk.file(&format!("{}/usr/bin/hello", ROOT)), Some("#!hello"));
    assert_eq!(disk.file(&format!("{}/etc/os-release", ROOT)), Some("ID=x"));
    for dir in ["dev", "proc", "sys", "run"] {
        let path = format!("{}/{}", ROOT, dir);
        assert_eq!(disk.nodes.get(&path), Some(&Node::Dir));
        assert!(disk.below(&path).is_empty());
    }
    assert!(!disk.has(&format!("{}/aa", SLOT)));
}

#[test]
fn two_layer_diff_with_file_replacement() {
    let mut disk = Disk::new();
    disk.blob("base", &[("./a", Some("v1")), ("./b", Some("v1"))]);
    disk.blob("diff", &[("./a", Some("v2"))]);
    let inst = OCIInstaller::new(ROOT);
    let m = meta(&[(GZ, "sha256:base"), (GZ, "sha256:diff")]);
    assert_eq!(m.get_layers_as_digests(), vec![s("sha256:base"), s("sha256:diff")]);
    disk.materialize(&inst, &m).unwrap();
    assert_eq!(disk.file(&format!("{}/a", ROOT)), Some("v2"));
    assert_eq!(disk.file(&format!("{}/b", ROOT)), Some("v1"));
    assert!(!disk.has(&format!("{}/base", SLOT)));
    assert!(!disk.has(&format!("{}/diff", SLOT)));
    assert!(!disk.has(&format!("{}/tmp", ROOT)));
}

#[test]
fn whiteout_removal() {
    let mut disk = Disk::new();
    disk.blob("base", &[("./opt/svc", None), ("./opt/svc/x", Some("x")), ("./opt/svc/y", Some("y"))]);
    disk.blob("diff", &[("./opt/svc/.wh.x", Some(""))]);
    let inst = OCIInstaller::new(ROOT);
    let m = meta(&[(GZ, "sha256:base"), (GZ, "sha256:diff")]);
    disk.materialize(&inst, &m).unwrap();
    assert!(disk.has(&format!("{}/opt/svc/y", ROOT)));
    assert!(!disk.has(&format!("{}/opt/svc/x", ROOT)));
    assert!(!disk.has(&format!("{}/opt/svc/.wh.x", ROOT)));
    assert!(disk.nodes.keys().all(|k| !k.contains(".wh.")));
}

#[test]
fn whiteout_against_missing_target() {
    let mut disk = Disk::new();
    disk.blob("base", &[("./opt", None)]);
    disk.blob("diff", &[("./opt/.wh.nothing", Some(""))]);
    let inst = OCIInstaller::new(ROOT);
    let m = meta(&[(GZ, "sha256:base"), (GZ, "sha256:diff")]);
    assert_eq!(disk.materialize(&inst, &m), Err(BootrError::NotFound));
    // the blob of the layer that failed is still there for another try
    assert!(disk.has(&format!("{}/diff", SLOT)));
}

#[test]
fn opaque_whiteout_empties_the_directory() {
    let mut disk = Disk::new();
    disk.blob("base", &[("./var/a", Some("1")), ("./var/b/c", Some("2")), ("./keep", Some("k"))]);
    disk.blob("diff", &[("./var/.wh..wh..opq", Some("")), ("./var/new", Some("n"))]);
    let inst = OCIInstaller::new(ROOT);
    let m = meta(&[(GZ, "sha256:base"), (GZ, "sha256:diff")]);
    disk.materialize(&inst, &m).unwrap();
    assert!(!disk.has(&format!("{}/var/a", ROOT)));
    assert!(!disk.has(&format!("{}/var/b", ROOT)));
    assert_eq!(disk.file(&format!("{}/var/new", ROOT)), Some("n"));
    assert_eq!(disk.file(&format!("{}/keep", ROOT)), Some("k"));
    assert!(disk.nodes.keys().all(|k| !k.contains(".wh.")));
}

#[test]
fn opaque_whiteout_at_the_root_spares_scratch_and_mount_points() {
    let mut disk = Disk::new();
    disk.blob("base", &[("./a", Some("1")), ("./etc/b", Some("2")), ("./tmp/old", Some("3")), ("./run/x", Some("4"))]);
    disk.blob("diff", &[("./.wh..wh..opq", Some("")), ("./new", Some("n"))]);
    let inst = OCIInstaller::new(ROOT);
    let m = meta(&[(GZ, "sha256:base"), (GZ, "sha256:diff")]);
    disk.materialize(&inst, &m).unwrap();
    assert!(!disk.has(&format!("{}/a", ROOT)));
    assert!(!disk.has(&format!("{}/etc", ROOT)));
    assert!(!disk.has(&format!("{}/tmp/old", ROOT)));
    assert_eq!(disk.file(&format!("{}/new", ROOT)), Some("n"));
    for dir in ["dev", "proc", "sys", "run"] {
        assert_eq!(disk.nodes.get(&format!("{}/{}", ROOT, dir)), Some(&Node::Dir));
    }
    // what a reserved directory held is kept with it
    assert_eq!(disk.file(&format!("{}/run/x", ROOT)), Some("4"));
    assert!(!disk.has(&format!("{}/diff", SLOT)));
    assert!(disk.nodes.keys().all(|k| !k.contains(".wh.")));
}

#[test]
fn clearing_chooses_for_each_entry() {
    let keep = vec![s("/r/tmp/d1"), s("/r/dev"), s("/r/proc")];
    assert_eq!(choose_clear(&keep, "/r/dev"), ClearChoice::Keep);
    assert_eq!(choose_clear(&keep, "/r/tmp/d1"), ClearChoice::Keep);
    assert_eq!(choose_clear(&keep, "/r/tmp"), ClearChoice::Descend);
    assert_eq!(choose_clear(&keep, "/r"), ClearChoice::Descend);
    assert_eq!(choose_clear(&keep, "/r/tmp/d2"), ClearChoice::Remove);
    assert_eq!(choose_clear(&keep, "/r/de"), ClearChoice::Remove);
    assert_eq!(choose_clear(&keep, "/r/devices"), ClearChoice::Remove);
    assert_eq!(choose_clear(&keep, "/r/tmp/d1/x"), ClearChoice::Remove);
    assert_eq!(choose_clear(&Vec::new(), "/r/dev"), ClearChoice::Remove);
}

#[test]
fn missing_blob_stops_the_run() {
    let mut disk = Disk::new();
    disk.blob("base", &[("./a", Some("v1"))]);
    let inst = OCIInstaller::new(ROOT);
    let m = meta(&[(GZ, "sha256:base"), (GZ, "sha256:gone")]);
    assert_eq!(disk.materialize(&inst, &m), Err(BootrError::NotFound));
}

#[test]
fn blobs_of_applied_layers_are_consumed() {
    let mut disk = Disk::new();
    disk.blob("l0", &[("./tmp/keep", Some("t")), ("./a", Some("0"))]);
    disk.blob("l1", &[("./a", Some("1"))]);
    disk.blob("l2", &[("./b", Some("2"))]);
    disk.blob("note", &[]);
    let inst = OCIInstaller::new(ROOT);
    let m = meta(&[(GZ, "sha256:l0"), (GZ, "sha256:l1"), ("text/plain", "sha256:note"), (GZ, "sha256:l2")]);
    let done = disk.materialize(&inst, &m).unwrap();
    for name in ["l0", "l1", "l2"] {
        let path = format!("{}/{}", SLOT, name);
        assert!(!disk.has(&path));
        assert!(done.contains(&BuildOp::RemoveFile { path }));
    }
    // a layer that is no archive is passed over
    assert!(disk.has(&format!("{}/note", SLOT)));
    // the scratch root was there before the diff layers: it stays
    assert_eq!(disk.file(&format!("{}/tmp/keep", ROOT)), Some("t"));
    assert_eq!(disk.file(&format!("{}/a", ROOT)), Some("1"));
    assert_eq!(disk.file(&format!("{}/b", ROOT)), Some("2"));
}

#[test]
fn rerun_empties_a_stale_build_directory() {
    let mut disk = Disk::new();
    disk.make_dirs(&format!("{}/tmp/aa", ROOT));
    disk.nodes.insert(format!("{}/stale", ROOT), Node::File(s("old")));
    disk.blob("aa", &[("./a", Some("v1"))]);
    let inst = OCIInstaller::new(ROOT);
    disk.materialize(&inst, &meta(&[(GZ, "sha256:aa")])).unwrap();
    assert!(!disk.has(&format!("{}/stale", ROOT)));
    assert!(!disk.has(&format!("{}/tmp", ROOT)));
    assert_eq!(disk.file(&format!("{}/a", ROOT)), Some("v1"));
}
