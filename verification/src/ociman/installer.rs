//! The layer materializer: which filesystem operations turn the layers of
//! an image, in the order of its manifest, into a root filesystem.

use vstd::prelude::*;
use vstd::string::StringExecFns;
use crate::bconf::defaults::kerneldir_names;
use crate::bconf::defaults::kerneldirs;
use crate::bconf::defaults::sysdir_names;
use crate::bconf::defaults::sysdirs;
use crate::bconf::defaults::C_BOOTR_SCRATCH_DIR;
use crate::error::BootrError;
use crate::ociman::ocistate::ArtefactView;
use crate::ociman::ocistate::OCIMeta;
use crate::text::base_name;
use crate::text::child;
use crate::text::joined;
use crate::text::dir_part;
use crate::text::ends_with;
use crate::text::holds_text;
use crate::text::is_prefix;
use crate::text::is_suffix;
use crate::text::join;
use crate::text::lemma_base_start_bounds;
use crate::text::same;
use crate::text::split_path;
use crate::text::starts_with;
use crate::text::strip_prefix;
use crate::text::trim_prefix;
use crate::text::trim_start_matches;

verus! {

/// One operation on the filesystem, for the driver to perform. An
/// operation that fails ends the run.
#[derive(Debug, PartialEq, Eq)]
pub enum BuildOp {
    /// Remove the directory `path` with all that is below it; nothing to
    /// do where it does not exist.
    RemoveTree { path: String },
    /// Create the directory `path` and the parents it lacks.
    CreateDirs { path: String },
    /// Unpack the gzip-compressed tar archive `archive` into the directory
    /// `into`. Fails with `NotFound` where the archive is missing.
    Unpack { archive: String, into: String },
    /// Remove the file `path`.
    RemoveFile { path: String },
    /// Remove what a whiteout names: the file `path`, or the directory
    /// `path` with all that is below it. Fails with `NotFound` where
    /// nothing is there.
    RemoveTarget { path: String },
    /// Remove every entry of the directory `path`, and all that is below
    /// it, but for the paths in `keep` and what leads to them; nothing to
    /// do where the directory does not exist.
    ClearDir { path: String, keep: Vec<String> },
    /// Copy the tree `from` over the tree `to`: files that exist are
    /// overwritten, symbolic links and file modes are kept. Where it
    /// fails, the run ends with `failure`.
    CopyOver { from: String, to: String, failure: BootrError },
    /// Remove the directory `path` where it is empty.
    RemoveDirIfEmpty { path: String },
}

/// What an operation holds.
pub enum OpView {
    RemoveTree { path: Seq<char> },
    CreateDirs { path: Seq<char> },
    Unpack { archive: Seq<char>, into: Seq<char> },
    RemoveFile { path: Seq<char> },
    RemoveTarget { path: Seq<char> },
    ClearDir { path: Seq<char>, keep: Seq<Seq<char>> },
    CopyOver { from: Seq<char>, to: Seq<char>, failure: BootrError },
    RemoveDirIfEmpty { path: Seq<char> },
}

impl DeepView for BuildOp {
    type V = OpView;

    open spec fn deep_view(&self) -> OpView {
        match self {
            BuildOp::RemoveTree { path } => OpView::RemoveTree { path: path@ },
            BuildOp::CreateDirs { path } => OpView::CreateDirs { path: path@ },
            BuildOp::Unpack { archive, into } => OpView::Unpack { archive: archive@, into: into@ },
            BuildOp::RemoveFile { path } => OpView::RemoveFile { path: path@ },
            BuildOp::RemoveTarget { path } => OpView::RemoveTarget { path: path@ },
            BuildOp::ClearDir { path, keep } => OpView::ClearDir {
                path: path@,
                keep: keep.deep_view(),
            },
            BuildOp::CopyOver { from, to, failure } => OpView::CopyOver {
                from: from@,
                to: to@,
                failure: *failure,
            },
            BuildOp::RemoveDirIfEmpty { path } => OpView::RemoveDirIfEmpty { path: path@ },
        }
    }
}

/// The prefix of a file name that makes it a whiteout.
pub const WHITEOUT: &'static str = ".wh.";

/// The file name that makes its directory opaque.
pub const OPAQUE_WHITEOUT: &'static str = ".wh..wh..opq";

/// What is cut from the front of a digest to get the name of its blob.
pub const DIGEST_PREFIX: &'static str = "sha256:";

/// Whether a layer of this media type is a gzip-compressed tar archive,
/// which the materializer applies. Layers of other types are passed over.
pub open spec fn is_archive(media_type: Seq<char>) -> bool {
    is_suffix("tar.gzip"@, media_type) || is_suffix(".tar+gzip"@, media_type)
}

/// The name of the file that holds the blob with the digest `digest`.
pub open spec fn blob_name(digest: Seq<char>) -> Seq<char> {
    trim_prefix(digest, DIGEST_PREFIX@)
}

/// Whether a layer of this media type is a gzip-compressed tar archive.
pub fn is_layer_archive(media_type: &str) -> (r: bool)
    ensures
        r == is_archive(media_type@),
{
    ends_with(media_type, "tar.gzip") || ends_with(media_type, ".tar+gzip")
}

/// The name of the file that holds the blob with the digest `digest`: the
/// digest without its leading `sha256:`.
pub fn blob_file_name(digest: &str) -> (r: String)
    ensures
        r@ == blob_name(digest@),
{
    trim_start_matches(digest, DIGEST_PREFIX)
}

/// The operations that create the directories `names` in the build
/// directory `br`.
pub open spec fn mount_ops(br: Seq<char>, names: Seq<Seq<char>>) -> Seq<OpView> {
    Seq::new(names.len(), |i: int| OpView::CreateDirs { path: child(br, names[i]) })
}

/// The operations that leave an empty build directory `br` with the
/// reserved host directories in it.
pub open spec fn dirtree_ops(br: Seq<char>) -> Seq<OpView> {
    seq![OpView::RemoveTree { path: br }, OpView::CreateDirs { path: br }] + mount_ops(
        br,
        sysdir_names(),
    )
}

/// The operations that copy the directories `names` of the running
/// system, which lie below `/`, into the build directory `br`.
pub open spec fn copy_ops(br: Seq<char>, names: Seq<Seq<char>>) -> Seq<OpView>
    decreases names.len(),
{
    if names.len() == 0 {
        Seq::<OpView>::empty()
    } else {
        copy_ops(br, names.drop_last()) + seq![
            OpView::CreateDirs { path: child(br, names.last()) },
            OpView::CopyOver {
                from: child(Seq::<char>::empty(), names.last()),
                to: child(br, names.last()),
                failure: BootrError::InvalidData,
            },
        ]
    }
}

/// The operations that copy the kernel, the boot files and the kernel
/// modules of the running system into the build directory `br`.
pub open spec fn kernel_ops(br: Seq<char>) -> Seq<OpView> {
    copy_ops(br, kerneldir_names())
}

/// What no whiteout removes: the scratch directory of the layer that is
/// merged, and the reserved host directories.
pub open spec fn spared(br: Seq<char>, scratch: Seq<char>) -> Seq<Seq<char>> {
    seq![scratch] + Seq::new(sysdir_names().len(), |i: int| child(br, sysdir_names()[i]))
}

/// What is done with an entry of a directory that is cleared.
#[derive(Clone, Copy, Debug, PartialEq, Eq, Structural)]
pub enum ClearChoice {
    /// It stays as it is.
    Keep,
    /// It stays, and what it holds is cleared in the same way.
    Descend,
    /// It is removed with all that is below it.
    Remove,
}

/// The path `entry` leads to the path `to`: `to` lies below it.
pub open spec fn leads_below(entry: Seq<char>, to: Seq<char>) -> bool {
    is_prefix(entry + seq!['/'], to)
}

/// What is done with the entry at `entry` of a directory that is cleared
/// but for `keep`: it stays where it is kept; it is gone into where it
/// leads to something kept; else it is removed.
pub open spec fn clear_choice(keep: Seq<Seq<char>>, entry: Seq<char>) -> ClearChoice {
    if keep.contains(entry) {
        ClearChoice::Keep
    } else if exists|i: int| 0 <= i < keep.len() && leads_below(entry, #[trigger] keep[i]) {
        ClearChoice::Descend
    } else {
        ClearChoice::Remove
    }
}

/// What is done with the entry at `entry` of a directory that is cleared
/// but for `keep`.
pub fn choose_clear(keep: &Vec<String>, entry: &str) -> (r: ClearChoice)
    ensures
        r == clear_choice(keep.deep_view(), entry@),
{
    if holds_text(keep, entry) {
        return ClearChoice::Keep;
    }
    let front = joined(entry, "/");
    proof {
        reveal_strlit("/");
        assert("/"@ =~= seq!['/']);
    }
    let mut i: usize = 0;
    while i < keep.len()
        invariant
            i <= keep.len(),
            front@ == entry@ + seq!['/'],
            !keep.deep_view().contains(entry@),
            forall|j: int| 0 <= j < i ==> !leads_below(entry@, #[trigger] keep.deep_view()[j]),
        decreases keep.len() - i,
    {
        if starts_with(keep[i].as_str(), front.as_str()) {
            proof {
                assert(keep.deep_view()[i as int] == keep[i as int]@);
                assert(leads_below(entry@, keep.deep_view()[i as int]));
            }
            return ClearChoice::Descend;
        }
        proof {
            assert(keep.deep_view()[i as int] == keep[i as int]@);
        }
        i += 1;
    }
    ClearChoice::Remove
}

/// The operations that apply the base layer: unpack its blob into the
/// build directory, then remove the blob.
pub open spec fn base_ops(br: Seq<char>, blob: Seq<char>) -> Seq<OpView> {
    seq![OpView::Unpack { archive: blob, into: br }, OpView::RemoveFile { path: blob }]
}

/// The scratch directory of the build directory `br`.
pub open spec fn scratch_root(br: Seq<char>) -> Seq<char> {
    child(br, C_BOOTR_SCRATCH_DIR@)
}

/// The directory into which the diff layer with the blob name `name` is
/// unpacked.
pub open spec fn scratch_of(br: Seq<char>, name: Seq<char>) -> Seq<char> {
    child(scratch_root(br), name)
}

/// The operations that unpack a diff layer into its scratch directory,
/// which is emptied first. `fresh` says that the scratch root has to be
/// created.
pub open spec fn unpack_ops(br: Seq<char>, blob: Seq<char>, name: Seq<char>, fresh: bool) -> Seq<
    OpView,
> {
    let head = if fresh {
        seq![OpView::CreateDirs { path: scratch_root(br) }]
    } else {
        Seq::<OpView>::empty()
    };
    head + seq![
        OpView::RemoveTree { path: scratch_of(br, name) },
        OpView::CreateDirs { path: scratch_of(br, name) },
        OpView::Unpack { archive: blob, into: scratch_of(br, name) },
    ]
}

/// What an entry of a scratch directory asks for.
pub enum Whiteout {
    /// Nothing: the entry is no whiteout.
    Keep,
    /// Remove the entry of the build directory with this path, relative to
    /// the build directory.
    Remove(Seq<char>),
    /// Remove all entries of the directory of the build directory with
    /// this path, relative to the build directory.
    Opaque(Seq<char>),
}

/// What the entry with the path `rel`, relative to its scratch directory,
/// asks for.
pub open spec fn whiteout_of(rel: Seq<char>) -> Whiteout {
    let name = base_name(rel);
    if name == OPAQUE_WHITEOUT@ {
        Whiteout::Opaque(dir_part(rel))
    } else if is_prefix(WHITEOUT@, name) {
        Whiteout::Remove(dir_part(rel) + name.skip(WHITEOUT@.len() as int))
    } else {
        Whiteout::Keep
    }
}

/// The operations for one entry `entry` found below the scratch directory
/// `scratch`, given by its full path: for a whiteout, remove what it names
/// from the build directory `br`, then remove the whiteout itself. A
/// whiteout that makes its directory opaque clears that directory, but
/// for the scratch directory and the reserved host directories. An entry
/// that is not below `scratch` asks for nothing.
pub open spec fn entry_ops(br: Seq<char>, scratch: Seq<char>, entry: Seq<char>) -> Seq<OpView> {
    let front = scratch + seq!['/'];
    if !is_prefix(front, entry) {
        Seq::<OpView>::empty()
    } else {
        match whiteout_of(entry.skip(front.len() as int)) {
            Whiteout::Keep => Seq::<OpView>::empty(),
            Whiteout::Remove(target) => seq![
                OpView::RemoveTarget { path: child(br, target) },
                OpView::RemoveFile { path: entry },
            ],
            Whiteout::Opaque(dir) => seq![
                OpView::ClearDir { path: child(br, dir), keep: spared(br, scratch) },
                OpView::RemoveFile { path: entry },
            ],
        }
    }
}

/// The operations for the entries `entries`, in their order.
pub open spec fn whiteout_ops(br: Seq<char>, scratch: Seq<char>, entries: Seq<Seq<char>>) -> Seq<
    OpView,
>
    decreases entries.len(),
{
    if entries.len() == 0 {
        Seq::<OpView>::empty()
    } else {
        whiteout_ops(br, scratch, entries.drop_last()) + entry_ops(br, scratch, entries.last())
    }
}

/// The operations that end a diff layer, after its whiteouts: copy the
/// scratch directory over the build directory, remove it, remove the
/// scratch root where this layer created it and nothing is left in it,
/// and only then remove the blob.
pub open spec fn merge_ops(br: Seq<char>, blob: Seq<char>, name: Seq<char>, fresh: bool) -> Seq<
    OpView,
> {
    let tail = if fresh {
        seq![
            OpView::RemoveDirIfEmpty { path: scratch_root(br) },
            OpView::RemoveFile { path: blob },
        ]
    } else {
        seq![OpView::RemoveFile { path: blob }]
    };
    seq![
        OpView::CopyOver { from: scratch_of(br, name), to: br, failure: BootrError::Io },
        OpView::RemoveTree { path: scratch_of(br, name) },
    ] + tail
}

/// One layer to apply: a layer of the manifest that is an archive.
#[derive(Debug, PartialEq, Eq)]
pub struct LayerJob {
    /// Whether the layer is the first of the manifest, which is unpacked
    /// as it is. Every other layer is a diff.
    pub is_base: bool,
    /// The name of the layer's blob.
    pub name: String,
    /// The path of the file that holds the blob.
    pub archive: String,
}

/// What a job holds.
pub struct JobView {
    pub is_base: bool,
    pub name: Seq<char>,
    pub archive: Seq<char>,
}

impl DeepView for LayerJob {
    type V = JobView;

    open spec fn deep_view(&self) -> JobView {
        JobView { is_base: self.is_base, name: self.name@, archive: self.archive@ }
    }
}

/// The job for the layer at `index`, whose blob lies in the directory
/// whose path, with its final `/`, is `blob_dir`.
pub open spec fn job_at(blob_dir: Seq<char>, layers: Seq<ArtefactView>, index: int) -> JobView {
    JobView {
        is_base: index == 0,
        name: blob_name(layers[index].digest),
        archive: blob_dir + blob_name(layers[index].digest),
    }
}

/// The jobs for the first `n` layers: one for each layer that is an
/// archive, in the order of the manifest.
pub open spec fn jobs_upto(blob_dir: Seq<char>, layers: Seq<ArtefactView>, n: int) -> Seq<JobView>
    decreases n,
{
    if n <= 0 {
        Seq::<JobView>::empty()
    } else if is_archive(layers[n - 1].media_type) {
        jobs_upto(blob_dir, layers, n - 1).push(job_at(blob_dir, layers, n - 1))
    } else {
        jobs_upto(blob_dir, layers, n - 1)
    }
}

/// The jobs for all layers.
pub open spec fn jobs_of(blob_dir: Seq<char>, layers: Seq<ArtefactView>) -> Seq<JobView> {
    jobs_upto(blob_dir, layers, layers.len() as int)
}

/// The operations that begin the job `job`.
pub open spec fn begin_ops(br: Seq<char>, job: JobView, fresh: bool) -> Seq<OpView> {
    if job.is_base {
        base_ops(br, job.archive)
    } else {
        unpack_ops(br, job.archive, job.name, fresh)
    }
}

/// The operations that end the diff layer `job`, whose scratch directory
/// holds the entries `entries`.
pub open spec fn finish_ops(br: Seq<char>, job: JobView, fresh: bool, entries: Seq<Seq<char>>) -> Seq<
    OpView,
> {
    whiteout_ops(br, scratch_of(br, job.name), entries) + merge_ops(
        br,
        job.archive,
        job.name,
        fresh,
    )
}

/// Turns the layers of an image into a root filesystem in a build
/// directory.
#[derive(Debug)]
pub struct OCIInstaller {
    keep_kernel: bool,
    buildroot: String,
}

/// What an installer holds.
pub struct InstallerView {
    /// Whether the kernel of the running system is copied into the new
    /// root filesystem.
    pub keep_kernel: bool,
    /// The build directory.
    pub buildroot: Seq<char>,
}

impl InstallerView {
    /// The directory that holds the blobs, with its final `/`: the one
    /// that holds the build directory.
    pub open spec fn blob_dir(self) -> Seq<char> {
        dir_part(self.buildroot)
    }
}

impl View for OCIInstaller {
    type V = InstallerView;

    closed spec fn view(&self) -> InstallerView {
        InstallerView { keep_kernel: self.keep_kernel, buildroot: self.buildroot@ }
    }
}

fn push_op(ops: &mut Vec<BuildOp>, op: BuildOp)
    ensures
        final(ops).deep_view() == old(ops).deep_view().push(op.deep_view()),
{
    ops.push(op);
    proof {
        assert(ops.deep_view() =~= old(ops).deep_view().push(op.deep_view()));
    }
}

impl OCIInstaller {
    /// An installer for the build directory `pth`, which leaves the kernel
    /// of the running system alone.
    pub fn new(pth: &str) -> (r: OCIInstaller)
        ensures
            r@ == (InstallerView { keep_kernel: false, buildroot: pth@ }),
    {
        OCIInstaller { keep_kernel: false, buildroot: String::from_str(pth) }
    }

    /// The same installer, which copies the kernel of the running system
    /// into the new root filesystem if `keep` is set.
    pub fn keep_kernel(self, keep: bool) -> (r: OCIInstaller)
        ensures
            r@ == (InstallerView { keep_kernel: keep, buildroot: self@.buildroot }),
    {
        OCIInstaller { keep_kernel: keep, buildroot: self.buildroot }
    }

    /// The build directory.
    pub fn buildroot(&self) -> (r: &str)
        ensures
            r@ == self@.buildroot,
    {
        self.buildroot.as_str()
    }

    /// The operations that empty the build directory and create the
    /// reserved host directories in it.
    pub fn populate_dirtree(&self) -> (ops: Vec<BuildOp>)
        ensures
            ops.deep_view() == dirtree_ops(self@.buildroot),
    {
        let br = self.buildroot.as_str();
        let mut ops: Vec<BuildOp> = Vec::new();
        push_op(&mut ops, BuildOp::RemoveTree { path: String::from_str(br) });
        push_op(&mut ops, BuildOp::CreateDirs { path: String::from_str(br) });
        let names = sysdirs();
        let mut i: usize = 0;
        while i < names.len()
            invariant
                i <= names.len(),
                br@ == self@.buildroot,
                names@.len() == sysdir_names().len(),
                forall|j: int| 0 <= j < names@.len() ==> (#[trigger] names@[j])@ == sysdir_names()[j],
                ops.deep_view().len() == 2 + i,
                ops.deep_view()[0] == (OpView::RemoveTree { path: br@ }),
                ops.deep_view()[1] == (OpView::CreateDirs { path: br@ }),
                forall|j: int|
                    0 <= j < i ==> #[trigger] ops.deep_view()[2 + j] == (OpView::CreateDirs {
                        path: child(br@, sysdir_names()[j]),
                    }),
            decreases names.len() - i,
        {
            let ghost before = ops.deep_view();
            push_op(&mut ops, BuildOp::CreateDirs { path: join(br, names[i]) });
            proof {
                assert forall|j: int| 0 <= j < i + 1 implies #[trigger] ops.deep_view()[2 + j] == (
                OpView::CreateDirs { path: child(br@, sysdir_names()[j]) }) by {
                    if j < i {
                        assert(ops.deep_view()[2 + j] == before[2 + j]);
                    }
                }
            }
            i += 1;
        }
        proof {
            let want = dirtree_ops(self@.buildroot);
            let head = seq![OpView::RemoveTree { path: br@ }, OpView::CreateDirs { path: br@ }];
            assert(want.len() == ops.deep_view().len());
            assert forall|k: int| 0 <= k < want.len() implies ops.deep_view()[k] == want[k] by {
                if k >= 2 {
                    assert(ops.deep_view()[2 + (k - 2)] == want[k]);
                } else {
                    assert(want[k] == head[k]);
                }
            }
            assert(ops.deep_view() =~= want);
        }
        ops
    }

    /// The paths that no whiteout of the layer unpacked in `scratch`
    /// removes.
    fn spared_paths(&self, scratch: &str) -> (keep: Vec<String>)
        ensures
            keep.deep_view() == spared(self@.buildroot, scratch@),
    {
        let br = self.buildroot.as_str();
        let mut keep: Vec<String> = Vec::new();
        keep.push(String::from_str(scratch));
        let names = sysdirs();
        let mut i: usize = 0;
        while i < names.len()
            invariant
                i <= names.len(),
                br@ == self@.buildroot,
                names@.len() == sysdir_names().len(),
                forall|j: int| 0 <= j < names@.len() ==> (#[trigger] names@[j])@ == sysdir_names()[j],
                keep@.len() == 1 + i,
                keep@[0]@ == scratch@,
                forall|j: int|
                    0 <= j < i ==> (#[trigger] keep@[1 + j])@ == child(br@, sysdir_names()[j]),
            decreases names.len() - i,
        {
            keep.push(join(br, names[i]));
            i += 1;
        }
        proof {
            let want = spared(self@.buildroot, scratch@);
            assert(want.len() == keep.deep_view().len());
            assert forall|k: int| 0 <= k < want.len() implies keep.deep_view()[k] == want[k] by {
                if k >= 1 {
                    assert(keep@[1 + (k - 1)]@ == want[k]);
                }
            }
            assert(keep.deep_view() =~= want);
        }
        keep
    }

    /// The operations that keep the kernel: none, unless the installer
    /// was told to keep it.
    pub fn maybe_keep_kernel(&self) -> (ops: Vec<BuildOp>)
        ensures
            ops.deep_view() == if self@.keep_kernel {
                kernel_ops(self@.buildroot)
            } else {
                Seq::<OpView>::empty()
            },
    {
        let br = self.buildroot.as_str();
        let mut ops: Vec<BuildOp> = Vec::new();
        if !self.keep_kernel {
            proof {
                assert(ops.deep_view() =~= Seq::<OpView>::empty());
            }
            return ops;
        }
        let names = kerneldirs();
        let ghost all = kerneldir_names();
        let mut i: usize = 0;
        proof {
            assert(all.take(0) =~= Seq::<Seq<char>>::empty());
            assert(ops.deep_view() =~= copy_ops(br@, all.take(0)));
        }
        while i < names.len()
            invariant
                i <= names.len(),
                br@ == self@.buildroot,
                all == kerneldir_names(),
                names@.len() == all.len(),
                forall|j: int| 0 <= j < names@.len() ==> (#[trigger] names@[j])@ == all[j],
                ops.deep_view() == copy_ops(br@, all.take(i as int)),
            decreases names.len() - i,
        {
            let ghost before = ops.deep_view();
            proof {
                assert(all.take(i + 1).drop_last() =~= all.take(i as int));
                assert(all.take(i + 1).last() == names@[i as int]@);
            }
            push_op(&mut ops, BuildOp::CreateDirs { path: join(br, names[i]) });
            push_op(
                &mut ops,
                BuildOp::CopyOver {
                    from: join("", names[i]),
                    to: join(br, names[i]),
                    failure: BootrError::InvalidData,
                },
            );
            proof {
                reveal_strlit("");
                assert(""@ =~= Seq::<char>::empty());
                assert(ops.deep_view() =~= copy_ops(br@, all.take(i + 1)));
            }
            i += 1;
        }
        proof {
            assert(all.take(i as int) =~= all);
            assert(ops.deep_view() =~= kernel_ops(self@.buildroot));
        }
        ops
    }

    /// The layers to apply: those of `meta` that are archives, in the
    /// order of the manifest, each with the file that holds its blob
    /// beside the build directory. Only the first layer of the manifest is
    /// a base layer.
    pub fn populate_oci_data(&self, meta: &OCIMeta) -> (jobs: Vec<LayerJob>)
        ensures
            jobs.deep_view() == jobs_of(self@.blob_dir(), meta@.layers),
    {
        let (dir, _) = split_path(self.buildroot.as_str());
        let mut jobs: Vec<LayerJob> = Vec::new();
        let mut i: usize = 0;
        proof {
            assert(jobs.deep_view() =~= jobs_upto(self@.blob_dir(), meta@.layers, 0));
        }
        while i < meta.layers.len()
            invariant
                i <= meta.layers.len(),
                dir@ == self@.blob_dir(),
                jobs.deep_view() == jobs_upto(self@.blob_dir(), meta@.layers, i as int),
            decreases meta.layers.len() - i,
        {
            let layer = &meta.layers[i];
            proof {
                assert(meta@.layers[i as int] == layer@);
            }
            if is_layer_archive(layer.media_type.as_str()) {
                let name = blob_file_name(layer.digest.as_str());
                let archive = joined(dir.as_str(), name.as_str());
                let job = LayerJob { is_base: i == 0, name, archive };
                let ghost before = jobs.deep_view();
                jobs.push(job);
                proof {
                    assert(jobs.deep_view() =~= before.push(
                        job_at(self@.blob_dir(), meta@.layers, i as int),
                    ));
                }
            }
            i += 1;
        }
        jobs
    }

    /// The operations that begin a layer. The base layer is unpacked into
    /// the build directory and its blob removed. A diff layer is
    /// unpacked into a scratch directory of its own below `tmp`, which is
    /// emptied first; `fresh` says that `tmp` is not there yet.
    pub fn apply_layer(&self, is_base: bool, layer_arc_pth: &str, digest: &str, fresh: bool) -> (ops:
        Vec<BuildOp>)
        ensures
            ops.deep_view() == if is_base {
                base_ops(self@.buildroot, layer_arc_pth@)
            } else {
                unpack_ops(self@.buildroot, layer_arc_pth@, digest@, fresh)
            },
    {
        let br = self.buildroot.as_str();
        let mut ops: Vec<BuildOp> = Vec::new();
        if is_base {
            push_op(
                &mut ops,
                BuildOp::Unpack {
                    archive: String::from_str(layer_arc_pth),
                    into: String::from_str(br),
                },
            );
            push_op(&mut ops, BuildOp::RemoveFile { path: String::from_str(layer_arc_pth) });
            proof {
                assert(ops.deep_view() =~= base_ops(self@.buildroot, layer_arc_pth@));
            }
        } else {
            let tmp = join(br, C_BOOTR_SCRATCH_DIR);
            let scratch = join(tmp.as_str(), digest);
            if fresh {
                push_op(&mut ops, BuildOp::CreateDirs { path: tmp });
            }
            push_op(&mut ops, BuildOp::RemoveTree { path: scratch.clone() });
            push_op(&mut ops, BuildOp::CreateDirs { path: scratch.clone() });
            push_op(
                &mut ops,
                BuildOp::Unpack { archive: String::from_str(layer_arc_pth), into: scratch },
            );
            proof {
                assert(ops.deep_view() =~= unpack_ops(
                    self@.buildroot,
                    layer_arc_pth@,
                    digest@,
                    fresh,
                ));
            }
        }
        ops
    }

    /// The operations that end a diff layer, given the entries found
    /// below its scratch directory, each by its full path, in the order
    /// in which they were found: for each whiteout, remove what it names
    /// from the build directory and then the whiteout; copy the scratch
    /// directory over the build directory; remove it; remove `tmp` where
    /// this layer created it and it is empty; remove the blob.
    pub fn merge_layer(&self, layer_arc_pth: &str, digest: &str, fresh: bool, entries: &Vec<String>) -> (ops:
        Vec<BuildOp>)
        ensures
            ops.deep_view() == whiteout_ops(
                self@.buildroot,
                scratch_of(self@.buildroot, digest@),
                entries.deep_view(),
            ) + merge_ops(self@.buildroot, layer_arc_pth@, digest@, fresh),
    {
        let br = self.buildroot.as_str();
        let tmp = join(br, C_BOOTR_SCRATCH_DIR);
        let scratch = join(tmp.as_str(), digest);
        let front = joined(scratch.as_str(), "/");
        proof {
            reveal_strlit("/");
            assert("/"@ =~= seq!['/']);
        }
        let ghost all = entries.deep_view();
        let mut ops: Vec<BuildOp> = Vec::new();
        let mut i: usize = 0;
        proof {
            assert(all.take(0) =~= Seq::<Seq<char>>::empty());
            assert(ops.deep_view() =~= Seq::<OpView>::empty());
        }
        while i < entries.len()
            invariant
                i <= entries.len(),
                all == entries.deep_view(),
                br@ == self@.buildroot,
                scratch@ == scratch_of(self@.buildroot, digest@),
                front@ == scratch@ + seq!['/'],
                ops.deep_view() == whiteout_ops(self@.buildroot, scratch@, all.take(i as int)),
            decreases entries.len() - i,
        {
            let entry = entries[i].as_str();
            proof {
                assert(all[i as int] == entry@);
                assert(all.take(i + 1).drop_last() =~= all.take(i as int));
                assert(all.take(i + 1).last() == entry@);
            }
            let ghost before = ops.deep_view();
            match strip_prefix(entry, front.as_str()) {
                None => {},
                Some(rel) => {
                    let (dir, name) = split_path(rel.as_str());
                    if same(name.as_str(), OPAQUE_WHITEOUT) {
                        push_op(
                            &mut ops,
                            BuildOp::ClearDir {
                                path: join(br, dir.as_str()),
                                keep: self.spared_paths(scratch.as_str()),
                            },
                        );
                        push_op(&mut ops, BuildOp::RemoveFile { path: String::from_str(entry) });
                    } else {
                        match strip_prefix(name.as_str(), WHITEOUT) {
                            None => {},
                            Some(target) => {
                                let rel_target = joined(dir.as_str(), target.as_str());
                                push_op(
                                    &mut ops,
                                    BuildOp::RemoveTarget { path: join(br, rel_target.as_str()) },
                                );
                                push_op(
                                    &mut ops,
                                    BuildOp::RemoveFile { path: String::from_str(entry) },
                                );
                            },
                        }
                    }
                },
            }
            proof {
                assert(ops.deep_view() =~= before + entry_ops(self@.buildroot, scratch@, entry@));
            }
            i += 1;
        }
        proof {
            assert(all.take(i as int) =~= all);
        }
        let ghost marks = ops.deep_view();
        push_op(
            &mut ops,
            BuildOp::CopyOver {
                from: scratch.clone(),
                to: String::from_str(br),
                failure: BootrError::Io,
            },
        );
        push_op(&mut ops, BuildOp::RemoveTree { path: scratch });
        if fresh {
            push_op(&mut ops, BuildOp::RemoveDirIfEmpty { path: tmp });
        }
        push_op(&mut ops, BuildOp::RemoveFile { path: String::from_str(layer_arc_pth) });
        proof {
            assert(ops.deep_view() =~= marks + merge_ops(
                self@.buildroot,
                layer_arc_pth@,
                digest@,
                fresh,
            ));
        }
        ops
    }
}

/// How far a run of the installer has come.
#[derive(Clone, Copy, Debug, PartialEq, Eq, Structural)]
pub enum BuildStage {
    /// Nothing is done yet.
    Prepare,
    /// The jobs before this one are done.
    Layer(usize),
    /// The diff layer of this job waits to learn whether `tmp` exists.
    Probing(usize),
    /// The diff layer of this job is unpacked, or being unpacked, and
    /// waits for the entries of its scratch directory. The flag says that
    /// this layer created `tmp`.
    Listing(usize, bool),
    /// All is done.
    Done,
}

/// What the driver reports to the installer.
#[derive(Debug)]
pub enum BuildEvent {
    /// Nothing, or that the operations asked for were performed.
    Ready,
    /// Whether the path asked about exists.
    Exists(bool),
    /// The entries found below the directory asked about, each by its
    /// full path.
    Entries(Vec<String>),
}

/// What an event holds.
pub enum EventView {
    Ready,
    Exists(bool),
    Entries(Seq<Seq<char>>),
}

impl DeepView for BuildEvent {
    type V = EventView;

    open spec fn deep_view(&self) -> EventView {
        match self {
            BuildEvent::Ready => EventView::Ready,
            BuildEvent::Exists(b) => EventView::Exists(*b),
            BuildEvent::Entries(v) => EventView::Entries(v.deep_view()),
        }
    }
}

/// What the installer asks the driver to do next.
#[derive(Debug, PartialEq, Eq)]
pub enum BuildAction {
    /// Perform the operations in their order, and report `Ready`.
    Perform { ops: Vec<BuildOp> },
    /// Report whether `path` exists.
    Probe { path: String },
    /// Perform the operations in their order, then report every entry
    /// below the directory `path`.
    List { ops: Vec<BuildOp>, path: String },
    /// Nothing: the root filesystem is built.
    Finished,
}

/// What an action holds.
pub enum ActionView {
    Perform { ops: Seq<OpView> },
    Probe { path: Seq<char> },
    List { ops: Seq<OpView>, path: Seq<char> },
    Finished,
}

impl DeepView for BuildAction {
    type V = ActionView;

    open spec fn deep_view(&self) -> ActionView {
        match self {
            BuildAction::Perform { ops } => ActionView::Perform { ops: ops.deep_view() },
            BuildAction::Probe { path } => ActionView::Probe { path: path@ },
            BuildAction::List { ops, path } => ActionView::List {
                ops: ops.deep_view(),
                path: path@,
            },
            BuildAction::Finished => ActionView::Finished,
        }
    }
}

impl ActionView {
    /// The operations that the action asks for.
    pub open spec fn ops(self) -> Seq<OpView> {
        match self {
            ActionView::Perform { ops } => ops,
            ActionView::List { ops, path } => ops,
            _ => Seq::<OpView>::empty(),
        }
    }
}

/// The step that ends the run once no job is left: the kernel is kept if
/// that was asked for.
pub open spec fn last_step(inst: InstallerView) -> (BuildStage, ActionView) {
    (
        BuildStage::Done,
        ActionView::Perform {
            ops: if inst.keep_kernel {
                kernel_ops(inst.buildroot)
            } else {
                Seq::<OpView>::empty()
            },
        },
    )
}

/// One step of the installer: from the stage reached and what the driver
/// reports, the next stage and what the driver has to do.
///
/// The run starts by emptying the build directory. Then the jobs are taken
/// in their order. A base layer is applied at once. For a diff layer the
/// driver is asked whether `tmp` exists, then to unpack the layer and to
/// list what came out of it, then to resolve the whiteouts and to merge. A
/// report that does not answer what was asked is answered by asking
/// again. When no job is left the kernel is kept if that was asked for,
/// and the run is done.
pub open spec fn step(inst: InstallerView, jobs: Seq<JobView>, stage: BuildStage, event: EventView) -> (
    BuildStage,
    ActionView,
) {
    let br = inst.buildroot;
    match stage {
        BuildStage::Prepare => (BuildStage::Layer(0), ActionView::Perform { ops: dirtree_ops(br) }),
        BuildStage::Layer(k) => {
            if k >= jobs.len() {
                last_step(inst)
            } else if jobs[k as int].is_base {
                (
                    BuildStage::Layer((k + 1) as usize),
                    ActionView::Perform { ops: begin_ops(br, jobs[k as int], false) },
                )
            } else {
                (BuildStage::Probing(k), ActionView::Probe { path: scratch_root(br) })
            }
        },
        BuildStage::Probing(k) => {
            if k >= jobs.len() {
                last_step(inst)
            } else {
                match event {
                    EventView::Exists(there) => (
                        BuildStage::Listing(k, !there),
                        ActionView::List {
                            ops: begin_ops(br, jobs[k as int], !there),
                            path: scratch_of(br, jobs[k as int].name),
                        },
                    ),
                    _ => (BuildStage::Probing(k), ActionView::Probe { path: scratch_root(br) }),
                }
            }
        },
        BuildStage::Listing(k, fresh) => {
            if k >= jobs.len() {
                last_step(inst)
            } else {
                match event {
                    EventView::Entries(entries) => (
                        BuildStage::Layer((k + 1) as usize),
                        ActionView::Perform { ops: finish_ops(br, jobs[k as int], fresh, entries) },
                    ),
                    _ => (
                        BuildStage::Listing(k, fresh),
                        ActionView::List {
                            ops: Seq::<OpView>::empty(),
                            path: scratch_of(br, jobs[k as int].name),
                        },
                    ),
                }
            }
        },
        BuildStage::Done => (BuildStage::Done, ActionView::Finished),
    }
}

impl OCIInstaller {
    fn finish(&self) -> (r: (BuildStage, BuildAction))
        ensures
            (r.0, r.1.deep_view()) == last_step(self@),
    {
        (BuildStage::Done, BuildAction::Perform { ops: self.maybe_keep_kernel() })
    }

    /// One step of building the root filesystem from the layers of `meta`:
    /// given the stage reached and what the driver reports, the next stage
    /// and what the driver has to do. The first step is taken at
    /// `BuildStage::Prepare`; the run is over when `Finished` is
    /// returned.
    pub fn install(&self, meta: &OCIMeta, stage: BuildStage, event: BuildEvent) -> (r: (
        BuildStage,
        BuildAction,
    ))
        ensures
            (r.0, r.1.deep_view()) == step(
                self@,
                jobs_of(self@.blob_dir(), meta@.layers),
                stage,
                event.deep_view(),
            ),
    {
        let br = self.buildroot.as_str();
        match stage {
            BuildStage::Prepare => (
                BuildStage::Layer(0),
                BuildAction::Perform { ops: self.populate_dirtree() },
            ),
            BuildStage::Done => (BuildStage::Done, BuildAction::Finished),
            BuildStage::Layer(k) => {
                let jobs = self.populate_oci_data(meta);
                if k >= jobs.len() {
                    return self.finish();
                }
                let job = &jobs[k];
                proof {
                    assert(jobs.deep_view()[k as int] == job.deep_view());
                }
                if job.is_base {
                    let ops = self.apply_layer(
                        true,
                        job.archive.as_str(),
                        job.name.as_str(),
                        false,
                    );
                    (BuildStage::Layer(k + 1), BuildAction::Perform { ops })
                } else {
                    (BuildStage::Probing(k), BuildAction::Probe { path: join(br, C_BOOTR_SCRATCH_DIR) })
                }
            },
            BuildStage::Probing(k) => {
                let jobs = self.populate_oci_data(meta);
                if k >= jobs.len() {
                    return self.finish();
                }
                let job = &jobs[k];
                proof {
                    assert(jobs.deep_view()[k as int] == job.deep_view());
                }
                match event {
                    BuildEvent::Exists(there) => {
                        let ops = self.apply_layer(
                            job.is_base,
                            job.archive.as_str(),
                            job.name.as_str(),
                            !there,
                        );
                        let tmp = join(br, C_BOOTR_SCRATCH_DIR);
                        let path = join(tmp.as_str(), job.name.as_str());
                        (BuildStage::Listing(k, !there), BuildAction::List { ops, path })
                    },
                    _ => (BuildStage::Probing(k), BuildAction::Probe { path: join(br, C_BOOTR_SCRATCH_DIR) }),
                }
            },
            BuildStage::Listing(k, fresh) => {
                let jobs = self.populate_oci_data(meta);
                if k >= jobs.len() {
                    return self.finish();
                }
                let job = &jobs[k];
                proof {
                    assert(jobs.deep_view()[k as int] == job.deep_view());
                }
                match event {
                    BuildEvent::Entries(entries) => {
                        let ops = self.merge_layer(
                            job.archive.as_str(),
                            job.name.as_str(),
                            fresh,
                            &entries,
                        );
                        (BuildStage::Layer(k + 1), BuildAction::Perform { ops })
                    },
                    _ => {
                        let tmp = join(br, C_BOOTR_SCRATCH_DIR);
                        let path = join(tmp.as_str(), job.name.as_str());
                        let ops: Vec<BuildOp> = Vec::new();
                        proof {
                            assert(ops.deep_view() =~= Seq::<OpView>::empty());
                        }
                        (BuildStage::Listing(k, fresh), BuildAction::List { ops, path })
                    },
                }
            },
        }
    }
}

/// A run of the installer: the stage reached, and all operations asked
/// for, once the driver has made the reports `events` in their order,
/// from the stage `stage` on.
pub open spec fn run(inst: InstallerView, jobs: Seq<JobView>, stage: BuildStage, events: Seq<EventView>) -> (
    BuildStage,
    Seq<OpView>,
)
    decreases events.len(),
{
    if events.len() == 0 {
        (stage, Seq::<OpView>::empty())
    } else {
        let before = run(inst, jobs, stage, events.drop_last());
        let next = step(inst, jobs, before.0, events.last());
        (next.0, before.1 + next.1.ops())
    }
}

/// The operations `ops` remove the file `path`.
pub open spec fn removes_file(ops: Seq<OpView>, path: Seq<char>) -> bool {
    ops.contains(OpView::RemoveFile { path })
}

/// How many jobs are done for certain at the stage `stage`.
pub open spec fn jobs_done(jobs: Seq<JobView>, stage: BuildStage) -> int {
    match stage {
        BuildStage::Prepare => 0,
        BuildStage::Layer(k) => if k <= jobs.len() {
            k as int
        } else {
            jobs.len() as int
        },
        BuildStage::Probing(k) => if k <= jobs.len() {
            k as int
        } else {
            jobs.len() as int
        },
        BuildStage::Listing(k, fresh) => if k <= jobs.len() {
            k as int
        } else {
            jobs.len() as int
        },
        BuildStage::Done => jobs.len() as int,
    }
}

proof fn lemma_contains_left(a: Seq<OpView>, b: Seq<OpView>, op: OpView)
    requires
        a.contains(op),
    ensures
        (a + b).contains(op),
{
    let i = choose|i: int| 0 <= i < a.len() && a[i] == op;
    assert((a + b)[i] == op);
}

proof fn lemma_contains_right(a: Seq<OpView>, b: Seq<OpView>, op: OpView)
    requires
        b.contains(op),
    ensures
        (a + b).contains(op),
{
    let i = choose|i: int| 0 <= i < b.len() && b[i] == op;
    assert((a + b)[a.len() + i] == op);
}

/// Each whiteout is resolved: for every entry that asks for something,
/// the operations hold the removal of what it names, directly followed
/// by the removal of the entry itself.
pub proof fn lemma_whiteout_resolved(br: Seq<char>, scratch: Seq<char>, entries: Seq<Seq<char>>, i: int)
    requires
        0 <= i < entries.len(),
        entry_ops(br, scratch, entries[i]).len() > 0,
    ensures
        exists|k: int|
            0 <= k && k + 1 < whiteout_ops(br, scratch, entries).len() && #[trigger] whiteout_ops(
                br,
                scratch,
                entries,
            )[k] == entry_ops(br, scratch, entries[i])[0] && whiteout_ops(br, scratch, entries)[k
                + 1] == (OpView::RemoveFile { path: entries[i] }),
    decreases entries.len(),
{
    let all = whiteout_ops(br, scratch, entries);
    let before = whiteout_ops(br, scratch, entries.drop_last());
    let last = entry_ops(br, scratch, entries.last());
    if i == entries.len() - 1 {
        let k = before.len() as int;
        assert(all[k] == last[0]);
        assert(all[k + 1] == last[1]);
    } else {
        lemma_whiteout_resolved(br, scratch, entries.drop_last(), i);
        let k = choose|k: int|
            0 <= k && k + 1 < before.len() && #[trigger] before[k] == entry_ops(
                br,
                scratch,
                entries[i],
            )[0] && before[k + 1] == (OpView::RemoveFile { path: entries[i] });
        assert(all[k] == before[k]);
        assert(all[k + 1] == before[k + 1]);
    }
}

/// The whiteouts are resolved before anything is merged: none of the
/// operations for the entries copies.
pub proof fn lemma_whiteouts_copy_nothing(br: Seq<char>, scratch: Seq<char>, entries: Seq<Seq<char>>, k: int)
    requires
        0 <= k < whiteout_ops(br, scratch, entries).len(),
    ensures
        !(whiteout_ops(br, scratch, entries)[k] is CopyOver),
        !(whiteout_ops(br, scratch, entries)[k] is Unpack),
    decreases entries.len(),
{
    let before = whiteout_ops(br, scratch, entries.drop_last());
    if entries.len() > 0 && k < before.len() {
        lemma_whiteouts_copy_nothing(br, scratch, entries.drop_last(), k);
    }
}

/// The operations that end a diff layer remove its blob, and they do so
/// last: after the merge.
pub proof fn lemma_blob_removed_last(br: Seq<char>, job: JobView, fresh: bool, entries: Seq<Seq<char>>)
    ensures
        finish_ops(br, job, fresh, entries).last() == (OpView::RemoveFile { path: job.archive }),
        exists|i: int|
            0 <= i < finish_ops(br, job, fresh, entries).len() - 1 && #[trigger] finish_ops(
                br,
                job,
                fresh,
                entries,
            )[i] == (OpView::CopyOver {
                from: scratch_of(br, job.name),
                to: br,
                failure: BootrError::Io,
            }),
{
    let marks = whiteout_ops(br, scratch_of(br, job.name), entries);
    let all = finish_ops(br, job, fresh, entries);
    assert(all[marks.len() as int] == (OpView::CopyOver {
        from: scratch_of(br, job.name),
        to: br,
        failure: BootrError::Io,
    }));
}

/// Whatever the driver reports, the blobs of the jobs that are done have
/// been removed.
pub proof fn lemma_done_jobs_removed(inst: InstallerView, jobs: Seq<JobView>, events: Seq<EventView>)
    requires
        jobs.len() <= usize::MAX,
    ensures
        forall|j: int|
            0 <= j < jobs_done(jobs, run(inst, jobs, BuildStage::Prepare, events).0)
                ==> removes_file(
                run(inst, jobs, BuildStage::Prepare, events).1,
                #[trigger] jobs[j].archive,
            ),
    decreases events.len(),
{
    if events.len() > 0 {
        lemma_done_jobs_removed(inst, jobs, events.drop_last());
        let before = run(inst, jobs, BuildStage::Prepare, events.drop_last());
        let next = step(inst, jobs, before.0, events.last());
        let after = run(inst, jobs, BuildStage::Prepare, events);
        let br = inst.buildroot;
        assert forall|j: int| 0 <= j < jobs_done(jobs, after.0) implies removes_file(
            after.1,
            #[trigger] jobs[j].archive,
        ) by {
            let op = OpView::RemoveFile { path: jobs[j].archive };
            if j < jobs_done(jobs, before.0) {
                lemma_contains_left(before.1, next.1.ops(), op);
            } else {
                // the step has completed the job `j`
                match before.0 {
                    BuildStage::Layer(k) => {
                        assert(j == k && jobs[j].is_base);
                        assert(base_ops(br, jobs[j].archive)[1] == op);
                    },
                    BuildStage::Listing(k, fresh) => {
                        assert(j == k);
                        let entries = events.last()->Entries_0;
                        lemma_blob_removed_last(br, jobs[j], fresh, entries);
                        let ops = finish_ops(br, jobs[j], fresh, entries);
                        assert(ops[ops.len() - 1] == op);
                    },
                    _ => {},
                }
                lemma_contains_right(before.1, next.1.ops(), op);
            }
        }
    }
}

/// Each layer that is an archive has its job.
proof fn lemma_archive_has_job(blob_dir: Seq<char>, layers: Seq<ArtefactView>, n: int, i: int)
    requires
        0 <= i < n <= layers.len(),
        is_archive(layers[i].media_type),
    ensures
        exists|j: int|
            0 <= j < jobs_upto(blob_dir, layers, n).len() && (#[trigger] jobs_upto(
                blob_dir,
                layers,
                n,
            )[j]).archive == blob_dir + blob_name(layers[i].digest),
    decreases n,
{
    let jobs = jobs_upto(blob_dir, layers, n);
    if i == n - 1 {
        assert(jobs[jobs.len() - 1].archive == blob_dir + blob_name(layers[i].digest));
    } else {
        lemma_archive_has_job(blob_dir, layers, n - 1, i);
        let before = jobs_upto(blob_dir, layers, n - 1);
        let j = choose|j: int|
            0 <= j < before.len() && (#[trigger] before[j]).archive == blob_dir + blob_name(
                layers[i].digest,
            );
        assert(jobs[j] == before[j]);
    }
}

/// No more jobs than layers.
proof fn lemma_jobs_bounded(blob_dir: Seq<char>, layers: Seq<ArtefactView>, n: int)
    requires
        0 <= n <= layers.len(),
    ensures
        jobs_upto(blob_dir, layers, n).len() <= n,
    decreases n,
{
    if n > 0 {
        lemma_jobs_bounded(blob_dir, layers, n - 1);
    }
}

/// Blobs are consumed: when a run that began at `Prepare` has reached
/// `Done`, whatever the driver reported on the way, the operations asked
/// for have removed the blob of every layer of the record that is an
/// archive.
pub proof fn lemma_blobs_consumed(inst: InstallerView, layers: Seq<ArtefactView>, events: Seq<EventView>, i: int)
    requires
        layers.len() <= usize::MAX,
        run(inst, jobs_of(inst.blob_dir(), layers), BuildStage::Prepare, events).0
            == BuildStage::Done,
        0 <= i < layers.len(),
        is_archive(layers[i].media_type),
    ensures
        removes_file(
            run(inst, jobs_of(inst.blob_dir(), layers), BuildStage::Prepare, events).1,
            inst.blob_dir() + blob_name(layers[i].digest),
        ),
{
    let jobs = jobs_of(inst.blob_dir(), layers);
    lemma_jobs_bounded(inst.blob_dir(), layers, layers.len() as int);
    lemma_archive_has_job(inst.blob_dir(), layers, layers.len() as int, i);
    lemma_done_jobs_removed(inst, jobs, events);
    let j = choose|j: int|
        0 <= j < jobs.len() && (#[trigger] jobs[j]).archive == inst.blob_dir() + blob_name(
            layers[i].digest,
        );
    assert(removes_file(
        run(inst, jobs, BuildStage::Prepare, events).1,
        jobs[j].archive,
    ));
}

/// The path that an operation changes.
pub open spec fn target(op: OpView) -> Seq<char> {
    match op {
        OpView::RemoveTree { path } => path,
        OpView::CreateDirs { path } => path,
        OpView::Unpack { archive, into } => into,
        OpView::RemoveFile { path } => path,
        OpView::RemoveTarget { path } => path,
        OpView::ClearDir { path, keep } => path,
        OpView::CopyOver { from, to, failure } => to,
        OpView::RemoveDirIfEmpty { path } => path,
    }
}

/// Every one of the operations changes a path that begins with `dir`.
pub open spec fn all_below(ops: Seq<OpView>, dir: Seq<char>) -> bool {
    forall|i: int| 0 <= i < ops.len() ==> is_prefix(dir, target(#[trigger] ops[i]))
}

proof fn lemma_prefix_of_prefix(a: Seq<char>, b: Seq<char>, c: Seq<char>)
    requires
        is_prefix(a, b),
        is_prefix(b, c),
    ensures
        is_prefix(a, c),
{
    assert(c.subrange(0, a.len() as int) =~= b.subrange(0, a.len() as int));
}

proof fn lemma_prefix_of_child(dir: Seq<char>, name: Seq<char>)
    ensures
        is_prefix(dir, child(dir, name)),
{
    assert(child(dir, name).subrange(0, dir.len() as int) =~= dir);
}

proof fn lemma_prefix_of_sum(a: Seq<char>, b: Seq<char>)
    ensures
        is_prefix(a, a + b),
{
    assert((a + b).subrange(0, a.len() as int) =~= a);
}

proof fn lemma_all_below_concat(a: Seq<OpView>, b: Seq<OpView>, dir: Seq<char>)
    requires
        all_below(a, dir),
        all_below(b, dir),
    ensures
        all_below(a + b, dir),
{
    assert forall|i: int| 0 <= i < (a + b).len() implies is_prefix(
        dir,
        target(#[trigger] (a + b)[i]),
    ) by {
        if i < a.len() {
            assert((a + b)[i] == a[i]);
        } else {
            assert((a + b)[i] == b[i - a.len()]);
        }
    }
}

/// The operations for the entries change nothing but what is below the
/// build directory.
proof fn lemma_whiteouts_below(br: Seq<char>, name: Seq<char>, entries: Seq<Seq<char>>)
    ensures
        all_below(whiteout_ops(br, scratch_of(br, name), entries), br),
    decreases entries.len(),
{
    let scratch = scratch_of(br, name);
    if entries.len() > 0 {
        lemma_whiteouts_below(br, name, entries.drop_last());
        let entry = entries.last();
        let last = entry_ops(br, scratch, entry);
        let front = scratch + seq!['/'];
        assert(all_below(last, br)) by {
            if last.len() > 0 {
                lemma_prefix_of_child(br, C_BOOTR_SCRATCH_DIR@);
                lemma_prefix_of_child(scratch_root(br), name);
                lemma_prefix_of_sum(scratch, seq!['/']);
                lemma_prefix_of_prefix(br, scratch_root(br), scratch);
                lemma_prefix_of_prefix(br, scratch, front);
                lemma_prefix_of_prefix(br, front, entry);
                match whiteout_of(entry.skip(front.len() as int)) {
                    Whiteout::Remove(rel) => lemma_prefix_of_child(br, rel),
                    Whiteout::Opaque(rel) => lemma_prefix_of_child(br, rel),
                    Whiteout::Keep => {},
                }
            }
        }
        lemma_all_below_concat(whiteout_ops(br, scratch, entries.drop_last()), last, br);
    }
}

/// Every job has its blob in the directory of the blobs.
proof fn lemma_jobs_below(blob_dir: Seq<char>, layers: Seq<ArtefactView>, n: int, k: int)
    requires
        0 <= n <= layers.len(),
        0 <= k < jobs_upto(blob_dir, layers, n).len(),
    ensures
        is_prefix(blob_dir, jobs_upto(blob_dir, layers, n)[k].archive),
    decreases n,
{
    if n > 0 {
        let before = jobs_upto(blob_dir, layers, n - 1);
        if k < before.len() {
            lemma_jobs_below(blob_dir, layers, n - 1, k);
        } else {
            lemma_prefix_of_sum(blob_dir, blob_name(layers[n - 1].digest));
        }
    }
}

/// Clearing spares what is to be spared: none of the spared paths is
/// removed, nor is the directory that holds the scratch directory of the
/// layer that is merged.
pub proof fn lemma_clear_spares(br: Seq<char>, name: Seq<char>, i: int)
    requires
        0 <= i < spared(br, scratch_of(br, name)).len(),
    ensures
        clear_choice(spared(br, scratch_of(br, name)), spared(br, scratch_of(br, name))[i])
            == ClearChoice::Keep,
        clear_choice(spared(br, scratch_of(br, name)), scratch_root(br)) != ClearChoice::Remove,
{
    let keep = spared(br, scratch_of(br, name));
    let root = scratch_root(br);
    assert(keep[0] == scratch_of(br, name));
    assert(leads_below(root, keep[0])) by {
        assert(keep[0].subrange(0, root.len() as int + 1) =~= root + seq!['/']);
    }
}

/// The operations that copy directories of the running system change
/// nothing but what is below the build directory.
proof fn lemma_copies_below(br: Seq<char>, names: Seq<Seq<char>>)
    ensures
        all_below(copy_ops(br, names), br),
    decreases names.len(),
{
    if names.len() > 0 {
        lemma_copies_below(br, names.drop_last());
        lemma_prefix_of_child(br, names.last());
        let last = seq![
            OpView::CreateDirs { path: child(br, names.last()) },
            OpView::CopyOver {
                from: child(Seq::<char>::empty(), names.last()),
                to: child(br, names.last()),
                failure: BootrError::InvalidData,
            },
        ];
        assert(all_below(last, br));
        lemma_all_below_concat(copy_ops(br, names.drop_last()), last, br);
    }
}

/// The operations that prepare the build directory change nothing but
/// the build directory and what is below it.
proof fn lemma_dirtree_below(br: Seq<char>)
    ensures
        all_below(dirtree_ops(br), br),
{
    let head = seq![OpView::RemoveTree { path: br }, OpView::CreateDirs { path: br }];
    let mounts = mount_ops(br, sysdir_names());
    assert(br.subrange(0, br.len() as int) =~= br);
    assert(all_below(head, br));
    assert forall|i: int| 0 <= i < mounts.len() implies is_prefix(br, target(#[trigger] mounts[i])) by {
        lemma_prefix_of_child(br, sysdir_names()[i]);
    }
    lemma_all_below_concat(head, mounts, br);
}

/// If every operation changes a path that begins with `inner`, which
/// begins with `outer`, then every one changes a path that begins with
/// `outer`.
proof fn lemma_all_below_wider(ops: Seq<OpView>, inner: Seq<char>, outer: Seq<char>)
    requires
        all_below(ops, inner),
        is_prefix(outer, inner),
    ensures
        all_below(ops, outer),
{
    assert forall|i: int| 0 <= i < ops.len() implies is_prefix(outer, target(#[trigger] ops[i])) by {
        lemma_prefix_of_prefix(outer, inner, target(ops[i]));
    }
}

/// The installer stays inside: whatever the stage and whatever the driver
/// reports, every operation that a step asks for changes a path that
/// begins with the directory that holds the build directory and the
/// blobs. Nothing beside the slot that is built is touched.
pub proof fn lemma_installer_stays_inside(inst: InstallerView, layers: Seq<ArtefactView>, stage: BuildStage, event: EventView)
    ensures
        all_below(
            step(inst, jobs_of(inst.blob_dir(), layers), stage, event).1.ops(),
            inst.blob_dir(),
        ),
{
    let br = inst.buildroot;
    let dir = inst.blob_dir();
    let jobs = jobs_of(dir, layers);
    let ops = step(inst, jobs, stage, event).1.ops();
    lemma_base_start_bounds(br);
    assert(is_prefix(dir, br)) by {
        assert(br.subrange(0, dir.len() as int) =~= dir);
    }
    assert forall|x: Seq<char>| is_prefix(dir, #[trigger] child(br, x)) by {
        lemma_prefix_of_child(br, x);
        lemma_prefix_of_prefix(dir, br, child(br, x));
    }
    assert forall|x: Seq<char>| is_prefix(dir, #[trigger] scratch_of(br, x)) by {
        lemma_prefix_of_child(scratch_root(br), x);
        lemma_prefix_of_prefix(dir, scratch_root(br), scratch_of(br, x));
    }
    assert forall|k: int| 0 <= k < jobs.len() implies is_prefix(dir, (#[trigger] jobs[k]).archive) by {
        lemma_jobs_below(dir, layers, layers.len() as int, k);
    }
    lemma_dirtree_below(br);
    lemma_all_below_wider(dirtree_ops(br), br, dir);
    lemma_copies_below(br, kerneldir_names());
    lemma_all_below_wider(kernel_ops(br), br, dir);
    match stage {
        BuildStage::Listing(k, fresh) => {
            if k < jobs.len() && event is Entries {
                let entries = event->Entries_0;
                let job = jobs[k as int];
                lemma_whiteouts_below(br, job.name, entries);
                let marks = whiteout_ops(br, scratch_of(br, job.name), entries);
                assert(all_below(marks, dir)) by {
                    assert forall|i: int| 0 <= i < marks.len() implies is_prefix(
                        dir,
                        target(#[trigger] marks[i]),
                    ) by {
                        lemma_prefix_of_prefix(dir, br, target(marks[i]));
                    }
                }
                lemma_all_below_concat(marks, merge_ops(br, job.archive, job.name, fresh), dir);
            }
        },
        _ => {},
    }
}

} // verus!
