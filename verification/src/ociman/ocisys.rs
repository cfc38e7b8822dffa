//! The manager of the system directory: which slots there are, which one
//! is active, and the steps that install an image, update the system and
//! flip the activation link.

use vstd::prelude::*;
use vstd::string::StringExecFns;
use oci_distribution::client::ImageData;
use oci_distribution::client::ImageLayer;
use crate::bconf::defaults::lemma_child_injective;
use crate::bconf::defaults::lemma_slot_paths_differ;
use crate::bconf::defaults::slot_name;
use crate::bconf::defaults::slot_named;
use crate::bconf::defaults::slot_of;
use crate::bconf::defaults::sysdir_of;
use crate::bconf::defaults::LinkName;
use crate::bconf::defaults::PathCatalog;
use crate::bconf::defaults::SlotId;
use crate::bconf::defaults::C_BOOTR_SECT_OCI_META;
use crate::bconf::mcfg::BootrConfig;
use crate::bconf::scfg::get_status_config;
use crate::bconf::scfg::layered;
use crate::bconf::scfg::StatusConfig;
use crate::error::BootrError;
use crate::files::WritePlan;
use crate::files::TEMP_SUFFIX;
use crate::ociman::installer::blob_file_name;
use crate::ociman::installer::blob_name;
use crate::ociman::ocidata::layer_digest;
use crate::ociman::ocidata::sha256_digest_of;
use crate::ociman::ocistate::manifest_view;
use crate::ociman::ocistate::MetaView;
use crate::ociman::ocistate::OCIMeta;
use crate::ociman::probe::leads_to;
use crate::ociman::safety::flipped;
use crate::ociman::safety::inited;
use crate::ociman::safety::lemma_flip_succeeds;
use crate::ociman::safety::lemma_init_runs;
use crate::ociman::slots::lemma_run_concat;
use crate::ociman::slots::run;
use crate::ociman::probe::lemma_one_target;
use crate::ociman::probe::points_at;
use crate::ociman::probe::text_of;
use crate::ociman::probe::LinkProbe;
use crate::ociman::probe::StatusProbe;
use crate::ociman::probe::SysProbe;
use crate::ociman::slots::LinkState;
use crate::ociman::slots::SysOp;
use crate::ociman::slots::SysState;
use crate::text::child;
use crate::text::is_prefix;
use crate::text::join;
use crate::text::same;

verus! {

/// The record of one slot: where it lies, whether it holds nothing yet,
/// whether the activation link leads to it, and its status.
#[derive(Debug)]
pub struct OCISysroot {
    path: String,
    is_active: bool,
    is_empty: bool,
    statconf: StatusConfig,
}

/// What the record of a slot holds.
pub struct SysrootView {
    pub path: Seq<char>,
    pub is_active: bool,
    pub is_empty: bool,
    pub statconf: StatusConfig,
}

impl View for OCISysroot {
    type V = SysrootView;

    closed spec fn view(&self) -> SysrootView {
        SysrootView {
            path: self.path@,
            is_active: self.is_active,
            is_empty: self.is_empty,
            statconf: self.statconf,
        }
    }
}

/// The status that was found is of no use: the file holds no status
/// record, or one whose root filesystem is not made of layers.
pub open spec fn unusable(status: StatusProbe) -> bool {
    status is Invalid || (status is Loaded && !layered(status->Loaded_0))
}

/// `r` is the record of the slot at `path`, of whose status file `status`
/// was found, while the activation link has the target `link`: the slot
/// is empty unless a status record was loaded, and active if and only if
/// the link leads to it.
pub open spec fn record_of(r: SysrootView, path: Seq<char>, status: StatusProbe, link: Option<Seq<char>>) -> bool {
    &&& r.path == path
    &&& r.is_empty == !(status is Loaded)
    &&& r.is_active == (link is Some && points_at(link->0, path))
    &&& status is Loaded ==> r.statconf == status->Loaded_0
    &&& !(status is Loaded) ==> r.statconf.is_blank()
}

impl OCISysroot {
    /// The record of the slot at `path`. Its status is `status`, as far
    /// as one was loaded; a status file that is missing or cannot be read
    /// leaves the slot empty. `link` is the target of the activation
    /// link. Fails with `InvalidData` where the status file holds no
    /// status record, or one whose root filesystem is not made of layers.
    pub fn new(path: String, status: StatusProbe, link: &LinkProbe) -> (r: Result<
        OCISysroot,
        BootrError,
    >)
        ensures
            unusable(status) ==> r == Err::<OCISysroot, BootrError>(BootrError::InvalidData),
            !unusable(status) ==> r is Ok && record_of(r->Ok_0@, path@, status, text_of(*link)),
    {
        let mut osr = OCISysroot {
            path,
            is_empty: true,
            is_active: false,
            statconf: StatusConfig::default(),
        };
        match osr.load(status, link) {
            Ok(()) => Ok(osr),
            Err(e) => Err(e),
        }
    }

    /// Fills the record with what was found of the slot.
    fn load(&mut self, status: StatusProbe, link: &LinkProbe) -> (r: Result<(), BootrError>)
        requires
            old(self)@.statconf.is_blank(),
        ensures
            unusable(status) ==> r == Err::<(), BootrError>(BootrError::InvalidData),
            !unusable(status) ==> r is Ok && record_of(
                final(self)@,
                old(self)@.path,
                status,
                text_of(*link),
            ),
    {
        match get_status_config(status) {
            Ok(statconf) => {
                self.is_empty = false;
                self.statconf = statconf;
            },
            Err(BootrError::InvalidData) => {
                return Err(BootrError::InvalidData);
            },
            Err(_) => {
                self.is_empty = true;
            },
        }
        self.is_active = match link {
            LinkProbe::Target(target) => leads_to(target.as_str(), self.path.as_str()),
            _ => false,
        };
        Ok(())
    }

    /// Where the slot lies.
    pub fn path(&self) -> (r: &str)
        ensures
            r@ == self@.path,
    {
        self.path.as_str()
    }

    /// Whether the activation link leads to the slot.
    pub fn is_active(&self) -> (r: bool)
        ensures
            r == self@.is_active,
    {
        self.is_active
    }

    /// Whether the slot holds no system yet.
    pub fn is_empty(&self) -> (r: bool)
        ensures
            r == self@.is_empty,
    {
        self.is_empty
    }

    /// The status of the slot; it says nothing where the slot is empty.
    pub fn statconf(&self) -> (r: &StatusConfig)
        ensures
            *r == self@.statconf,
    {
        &self.statconf
    }
}

/// The operations with which `init` makes sure that the system directory
/// and the slots A and B exist: one for each that is missing.
pub open spec fn init_ops(s: SysState) -> Seq<SysOp> {
    (if s.sysdir {
        Seq::<SysOp>::empty()
    } else {
        seq![SysOp::CreateSysDir]
    }) + (if s.a.present {
        Seq::<SysOp>::empty()
    } else {
        seq![SysOp::CreateSlot(SlotId::A)]
    }) + (if s.b.present {
        Seq::<SysOp>::empty()
    } else {
        seq![SysOp::CreateSlot(SlotId::B)]
    })
}

/// The operations that remove the marker of a fresh installation from
/// the slots A and B that carry it.
pub open spec fn marker_ops(s: SysState) -> Seq<SysOp> {
    (if s.a.has_marker {
        seq![SysOp::RemoveMarker(SlotId::A)]
    } else {
        Seq::<SysOp>::empty()
    }) + (if s.b.has_marker {
        seq![SysOp::RemoveMarker(SlotId::B)]
    } else {
        Seq::<SysOp>::empty()
    })
}

/// The operation that puts the link under the staging name in the place
/// of the activation link in one step: where the filesystem can exchange
/// two names, the two links are exchanged; else the new one is renamed
/// over the old one.
pub open spec fn swap_op(s: SysState) -> SysOp {
    if s.exchange {
        SysOp::ExchangeLinks
    } else {
        SysOp::ReplaceLink
    }
}

/// The operations that flip the activation link, which is there, to the
/// slot `id`. What an earlier flip that was interrupted left under the
/// staging name is removed. A link to `id` is created under the staging
/// name, and takes the place of the activation link in one step, so that
/// the activation link leads to a slot at all times. Where the two links
/// were exchanged, the old one is then removed, so that the staging name
/// is free again.
pub open spec fn swap_ops(s: SysState, id: SlotId) -> Seq<SysOp> {
    (if s.staging is Absent {
        Seq::<SysOp>::empty()
    } else {
        seq![SysOp::RemoveLink(LinkName::Staging)]
    }) + seq![SysOp::Link(LinkName::Staging, id), swap_op(s)] + (if s.exchange {
        seq![SysOp::RemoveLink(LinkName::Staging)]
    } else {
        Seq::<SysOp>::empty()
    })
}

/// The operations that make the activation link lead to the slot `id`.
/// Where it leads there already, none. Where there is no link, it is
/// created. Where it leads elsewhere, it is flipped; after this swap the
/// markers of a fresh installation are removed.
pub open spec fn flip_ops(s: SysState, id: SlotId) -> Seq<SysOp> {
    if s.current == LinkState::To(id) {
        Seq::<SysOp>::empty()
    } else if s.current is Absent {
        seq![SysOp::Link(LinkName::Current, id)]
    } else {
        swap_ops(s, id) + marker_ops(s)
    }
}

/// One of the records has the path `path`.
pub open spec fn has_path(parts: Seq<SysrootView>, path: Seq<char>) -> bool {
    exists|i: int| 0 <= i < parts.len() && (#[trigger] parts[i]).path == path
}

/// The place of a record with the path `path`.
pub open spec fn index_of(parts: Seq<SysrootView>, path: Seq<char>) -> int {
    choose|i: int| 0 <= i < parts.len() && (#[trigger] parts[i]).path == path
}

/// The records with `rec` put in: in place of the record with its path,
/// or behind the others where there is none.
pub open spec fn put(parts: Seq<SysrootView>, rec: SysrootView) -> Seq<SysrootView> {
    if has_path(parts, rec.path) {
        parts.update(index_of(parts, rec.path), rec)
    } else {
        parts.push(rec)
    }
}

/// No two records have the same path.
pub open spec fn distinct(parts: Seq<SysrootView>) -> bool {
    forall|i: int, j: int|
        0 <= i < j < parts.len() ==> (#[trigger] parts[i]).path != (#[trigger] parts[j]).path
}

/// The records are those that `init` loads below `root`, where `a` and
/// `b` were found of the status files of the slots A and B and the
/// activation link has the target `link`: the record of A, then that of
/// B, without the slot whose status is of no use.
pub open spec fn records_of(
    parts: Seq<SysrootView>,
    root: Seq<char>,
    a: StatusProbe,
    b: StatusProbe,
    link: Option<Seq<char>>,
) -> bool {
    let n_a: int = if unusable(a) {
        0
    } else {
        1
    };
    let n_b: int = if unusable(b) {
        0
    } else {
        1
    };
    &&& parts.len() == n_a + n_b
    &&& !unusable(a) ==> record_of(parts[0], slot_of(root, SlotId::A), a, link)
    &&& !unusable(b) ==> record_of(parts[n_a], slot_of(root, SlotId::B), b, link)
}

/// The manager of the system directory: the configuration, the paths,
/// and the records of the slots that were loaded.
#[derive(Debug)]
pub struct OCISysMgr {
    cfg: BootrConfig,
    catalog: PathCatalog,
    sysparts: Vec<OCISysroot>,
}

impl OCISysMgr {
    /// The root directory of the installation.
    pub closed spec fn root(&self) -> Seq<char> {
        self.catalog.root@
    }

    /// The configuration.
    pub closed spec fn config(&self) -> BootrConfig {
        self.cfg
    }

    /// The records of the slots, in the order in which they were loaded.
    pub closed spec fn parts(&self) -> Seq<SysrootView> {
        self.sysparts@.map_values(|r: OCISysroot| r@)
    }

    /// Each record is that of the slot A or B, and none occurs twice.
    pub open spec fn wf(&self) -> bool {
        &&& distinct(self.parts())
        &&& forall|i: int|
            0 <= i < self.parts().len() ==> {
                ||| (#[trigger] self.parts()[i]).path == slot_of(self.root(), SlotId::A)
                ||| self.parts()[i].path == slot_of(self.root(), SlotId::B)
            }
    }

    /// The paths of the installation.
    pub fn catalog(&self) -> (r: &PathCatalog)
        ensures
            r.root@ == self.root(),
    {
        &self.catalog
    }

    /// The configuration.
    pub fn cfg(&self) -> (r: &BootrConfig)
        ensures
            *r == self.config(),
    {
        &self.cfg
    }

    /// The place of the record with the path `path`, or the number of
    /// records where there is none.
    fn find(&self, path: &str) -> (at: usize)
        ensures
            at <= self.parts().len(),
            at < self.parts().len() ==> self.parts()[at as int].path == path@,
            forall|j: int| 0 <= j < at ==> (#[trigger] self.parts()[j]).path != path@,
    {
        let mut i: usize = 0;
        while i < self.sysparts.len()
            invariant
                i <= self.sysparts.len(),
                self.parts().len() == self.sysparts.len(),
                forall|j: int| 0 <= j < i ==> (#[trigger] self.parts()[j]).path != path@,
            decreases self.sysparts.len() - i,
        {
            if same(self.sysparts[i].path(), path) {
                return i;
            }
            i += 1;
        }
        i
    }

    /// Loads the record of the slot at `pth`, in place of the one that
    /// is there for this path, if any. Fails with `NotFound` where the
    /// directory does not exist. A slot whose status is of no use is
    /// passed over.
    fn load_sysroot(&mut self, pth: String, present: bool, status: StatusProbe, link: &LinkProbe) -> (r:
        Result<(), BootrError>)
        requires
            distinct(old(self).parts()),
        ensures
            final(self).root() == old(self).root(),
            final(self).config() == old(self).config(),
            !present ==> r == Err::<(), BootrError>(BootrError::NotFound),
            present ==> r is Ok,
            (!present || unusable(status)) ==> final(self).parts() == old(self).parts(),
            present && !unusable(status) ==> exists|rec: SysrootView|
                record_of(rec, pth@, status, text_of(*link)) && final(self).parts() == put(
                    old(self).parts(),
                    rec,
                ),
            distinct(final(self).parts()),
    {
        if !present {
            return Err(BootrError::NotFound);
        }
        let at = self.find(pth.as_str());
        match OCISysroot::new(pth, status, link) {
            Ok(sr) => {
                let ghost rec = sr@;
                let ghost before = self.parts();
                if at < self.sysparts.len() {
                    self.sysparts.set(at, sr);
                    proof {
                        assert(has_path(before, rec.path));
                        let k = index_of(before, rec.path);
                        assert(k == at) by {
                            if k < at {
                                assert(before[k].path != rec.path);
                            } else if k > at {
                                assert(before[at as int].path != before[k].path);
                            }
                        }
                        assert(self.parts() =~= put(before, rec));
                    }
                } else {
                    self.sysparts.push(sr);
                    proof {
                        assert(!has_path(before, rec.path));
                        assert(self.parts() =~= put(before, rec));
                    }
                }
            },
            Err(_) => {},
        }
        Ok(())
    }

    /// The active slot: the first record to which the activation link
    /// leads; `None` where it leads to none of them.
    pub fn get_sysroot(&self) -> (r: Option<&OCISysroot>)
        ensures
            r is None <==> forall|i: int|
                0 <= i < self.parts().len() ==> !(#[trigger] self.parts()[i]).is_active,
            r is Some ==> exists|i: int|
                0 <= i < self.parts().len() && #[trigger] self.parts()[i] == r->0@
                    && r->0@.is_active && forall|j: int|
                    0 <= j < i ==> !(#[trigger] self.parts()[j]).is_active,
    {
        let mut i: usize = 0;
        while i < self.sysparts.len()
            invariant
                i <= self.sysparts.len(),
                self.parts().len() == self.sysparts.len(),
                forall|j: int| 0 <= j < i ==> !(#[trigger] self.parts()[j]).is_active,
            decreases self.sysparts.len() - i,
        {
            if self.sysparts[i].is_active() {
                assert(self.parts()[i as int] == self.sysparts[i as int]@);
                return Some(&self.sysparts[i]);
            }
            i += 1;
        }
        None
    }

    /// The status of the active slot; `None` where no slot is active.
    pub fn get_sysroot_meta(&self) -> (r: Option<&StatusConfig>)
        ensures
            r is None <==> forall|i: int|
                0 <= i < self.parts().len() ==> !(#[trigger] self.parts()[i]).is_active,
            r is Some ==> exists|i: int|
                0 <= i < self.parts().len() && (#[trigger] self.parts()[i]).statconf == *r->0
                    && self.parts()[i].is_active && forall|j: int|
                    0 <= j < i ==> !(#[trigger] self.parts()[j]).is_active,
    {
        match self.get_sysroot() {
            Some(sysroot) => Some(sysroot.statconf()),
            None => None,
        }
    }
}

/// The records that `init` loads are those of the slots A and B, each
/// once.
pub proof fn lemma_records_wf(parts: Seq<SysrootView>, root: Seq<char>, a: StatusProbe, b: StatusProbe, link: Option<Seq<char>>)
    requires
        records_of(parts, root, a, b, link),
    ensures
        distinct(parts),
        forall|i: int|
            0 <= i < parts.len() ==> {
                ||| (#[trigger] parts[i]).path == slot_of(root, SlotId::A)
                ||| parts[i].path == slot_of(root, SlotId::B)
            },
{
    if slot_of(root, SlotId::A) == slot_of(root, SlotId::B) {
        lemma_slot_paths_differ(root, SlotId::A, SlotId::B);
    }
}

/// The activation link leads to one slot at most: of the records that
/// `init` loads, no two are active.
pub proof fn lemma_one_active(parts: Seq<SysrootView>, root: Seq<char>, a: StatusProbe, b: StatusProbe, link: Option<Seq<char>>, i: int, j: int)
    requires
        records_of(parts, root, a, b, link),
        0 <= i < parts.len(),
        0 <= j < parts.len(),
        parts[i].is_active,
        parts[j].is_active,
    ensures
        i == j,
{
    if i != j {
        lemma_one_target(root, link->0, SlotId::A, SlotId::B);
    }
}

impl OCISysMgr {
    /// The manager of the system directory of `catalog`, of which `probe`
    /// was found, and the operations that `init` asks for.
    pub fn new(cfg: BootrConfig, catalog: PathCatalog, probe: SysProbe) -> (r: (OCISysMgr, Vec<SysOp>))
        ensures
            r.0.root() == catalog.root@,
            r.0.config() == cfg,
            r.0.wf(),
            r.1@ == init_ops(probe.state(catalog.root@)),
            records_of(
                r.0.parts(),
                catalog.root@,
                probe.a.status,
                probe.b.status,
                text_of(probe.current),
            ),
    {
        let mut mgr = OCISysMgr { cfg, catalog, sysparts: Vec::new() };
        let ops = mgr.init(probe);
        (mgr, ops)
    }

    /// Makes sure that the system directory and the slots A and B exist,
    /// and loads the records of A and B anew from what `probe` found. The
    /// operations returned create what is missing; they are none where
    /// nothing is.
    pub fn init(&mut self, probe: SysProbe) -> (ops: Vec<SysOp>)
        ensures
            final(self).root() == old(self).root(),
            final(self).config() == old(self).config(),
            final(self).wf(),
            ops@ == init_ops(probe.state(old(self).root())),
            records_of(
                final(self).parts(),
                old(self).root(),
                probe.a.status,
                probe.b.status,
                text_of(probe.current),
            ),
    {
        let state = probe.sys_state(&self.catalog);
        let mut ops: Vec<SysOp> = Vec::new();
        if !state.sysdir {
            ops.push(SysOp::CreateSysDir);
        }
        if !state.a.present {
            ops.push(SysOp::CreateSlot(SlotId::A));
        }
        if !state.b.present {
            ops.push(SysOp::CreateSlot(SlotId::B));
        }
        proof {
            assert(ops@ =~= init_ops(state));
        }
        let SysProbe { sysdir: _, a, b, temp: _, current, staging: _, exchange: _ } = probe;
        self.sysparts = Vec::new();
        proof {
            assert(self.parts() =~= Seq::<SysrootView>::empty());
        }
        let path_a = self.catalog.slot(SlotId::A);
        let path_b = self.catalog.slot(SlotId::B);
        let ghost root = self.root();
        let _ = self.load_sysroot(path_a, true, a.status, &current);
        let ghost first = self.parts();
        proof {
            assert(!has_path(Seq::<SysrootView>::empty(), slot_of(root, SlotId::A)));
        }
        let _ = self.load_sysroot(path_b, true, b.status, &current);
        proof {
            if has_path(first, slot_of(root, SlotId::B)) {
                lemma_slot_paths_differ(root, SlotId::A, SlotId::B);
            }
            lemma_records_wf(
                self.parts(),
                root,
                probe.a.status,
                probe.b.status,
                text_of(probe.current),
            );
        }
        ops
    }

    /// The slot of the record with the path of the entry `id` of the
    /// system directory, if there is such a record.
    fn registered(&self, id: &str) -> (r: Option<SlotId>)
        requires
            self.wf(),
        ensures
            r is Some <==> has_path(self.parts(), child(sysdir_of(self.root()), id@)),
            r is Some ==> r == slot_named(id@) && r->0 != SlotId::Temp,
    {
        let dir = self.catalog.sysdir();
        let target = join(dir.as_str(), id);
        let at = self.find(target.as_str());
        if at >= self.sysparts.len() {
            return None;
        }
        proof {
            let root = self.root();
            let rec = self.parts()[at as int];
            if rec.path == slot_of(root, SlotId::A) {
                lemma_child_injective(sysdir_of(root), id@, slot_name(SlotId::A));
            } else {
                lemma_child_injective(sysdir_of(root), id@, slot_name(SlotId::B));
            }
        }
        if same(id, SlotId::A.name()) {
            Some(SlotId::A)
        } else {
            Some(SlotId::B)
        }
    }

    /// The operations that make the activation link lead to `slot`.
    fn flip(state: &SysState, slot: SlotId) -> (ops: Vec<SysOp>)
        ensures
            ops@ == flip_ops(*state, slot),
    {
        let mut ops: Vec<SysOp> = Vec::new();
        match state.current {
            LinkState::To(x) => {
                if x == slot {
                    return ops;
                }
            },
            LinkState::Absent => {
                ops.push(SysOp::Link(LinkName::Current, slot));
                proof {
                    assert(ops@ =~= flip_ops(*state, slot));
                }
                return ops;
            },
            LinkState::Elsewhere => {},
        }
        let mut swap = swap(state, slot);
        ops.append(&mut swap);
        if state.a.has_marker {
            ops.push(SysOp::RemoveMarker(SlotId::A));
        }
        if state.b.has_marker {
            ops.push(SysOp::RemoveMarker(SlotId::B));
        }
        proof {
            assert(ops@ =~= flip_ops(*state, slot));
        }
        ops
    }

    /// Activates the slot with the name `id`: the operations returned
    /// make the activation link lead to it, then those of `init` follow,
    /// and the records are loaded anew, as they are once the link leads
    /// there. Fails with `NotFound`, and changes nothing, where no record
    /// is kept for a slot of this name, and where the slot cannot be
    /// booted: the activation link only ever leads to a slot that holds
    /// a status file, a metadata record and a root filesystem. Where
    /// there is a system directory, the operations can all be performed,
    /// and leave the link on the slot.
    pub fn set_active_by_id(&mut self, id: String, probe: SysProbe) -> (r: Result<
        Vec<SysOp>,
        BootrError,
    >)
        requires
            old(self).wf(),
        ensures
            final(self).root() == old(self).root(),
            final(self).config() == old(self).config(),
            final(self).wf(),
            !has_path(old(self).parts(), child(sysdir_of(old(self).root()), id@)) ==> r == Err::<
                Vec<SysOp>,
                BootrError,
            >(BootrError::NotFound) && final(self).parts() == old(self).parts(),
            has_path(old(self).parts(), child(sysdir_of(old(self).root()), id@)) ==> slot_named(
                id@,
            ) is Some,
            has_path(old(self).parts(), child(sysdir_of(old(self).root()), id@)) && !probe.state(
                old(self).root(),
            ).slot(slot_named(id@)->0).valid() ==> r == Err::<Vec<SysOp>, BootrError>(
                BootrError::NotFound,
            ) && final(self).parts() == old(self).parts(),
            has_path(old(self).parts(), child(sysdir_of(old(self).root()), id@)) && probe.state(
                old(self).root(),
            ).slot(slot_named(id@)->0).valid() ==> r is Ok && r->Ok_0@ == flip_ops(
                probe.state(old(self).root()),
                slot_named(id@)->0,
            ) + init_ops(probe.state(old(self).root())) && records_of(
                final(self).parts(),
                old(self).root(),
                probe.a.status,
                probe.b.status,
                Some(id@),
            ),
            r is Ok ==> slot_named(id@) is Some && probe.state(old(self).root()).slot(
                slot_named(id@)->0,
            ).valid(),
            r is Ok && probe.state(old(self).root()).sysdir ==> run(
                probe.state(old(self).root()),
                r->Ok_0@,
            ) == Some(inited(flipped(probe.state(old(self).root()), slot_named(id@)->0)))
                && flipped(
                probe.state(old(self).root()),
                slot_named(id@)->0,
            ).current == LinkState::To(slot_named(id@)->0),
    {
        let slot = match self.registered(id.as_str()) {
            None => {
                return Err(BootrError::NotFound);
            },
            Some(slot) => slot,
        };
        let state = probe.sys_state(&self.catalog);
        if !state.slot_state(slot).is_valid() {
            return Err(BootrError::NotFound);
        }
        let mut ops = Self::flip(&state, slot);
        proof {
            if state.sysdir {
                lemma_flip_succeeds(state, slot);
                lemma_init_runs(flipped(state, slot));
                assert(init_ops(flipped(state, slot)) == init_ops(state));
                lemma_run_concat(state, flip_ops(state, slot), init_ops(state));
            }
        }
        let mut after = probe;
        after.current = LinkProbe::Target(id);
        let mut more = self.init(after);
        ops.append(&mut more);
        Ok(ops)
    }

    /// Activates the slot whose status file was modified last, the slot A
    /// where neither is newer, if there is no activation link and both A
    /// and B can be booted; the operations returned create the link.
    /// Then, and in every other case, the operations of `init` follow and
    /// the records are loaded anew.
    pub fn set_active_latest(&mut self, probe: SysProbe) -> (ops: Vec<SysOp>)
        ensures
            final(self).root() == old(self).root(),
            final(self).config() == old(self).config(),
            final(self).wf(),
            ops@ == latest_ops(
                probe.state(old(self).root()),
                probe.a.status_mtime,
                probe.b.status_mtime,
            ) + init_ops(probe.state(old(self).root())),
            records_of(
                final(self).parts(),
                old(self).root(),
                probe.a.status,
                probe.b.status,
                if picks_latest(probe.state(old(self).root())) {
                    Some(slot_name(latest(probe.a.status_mtime, probe.b.status_mtime)))
                } else {
                    text_of(probe.current)
                },
            ),
    {
        let state = probe.sys_state(&self.catalog);
        let mut ops: Vec<SysOp> = Vec::new();
        let mut after = probe;
        let pick = match state.current {
            LinkState::Absent => state.a.is_valid() && state.b.is_valid(),
            _ => false,
        };
        if pick {
            let slot = if after.a.status_mtime >= after.b.status_mtime {
                SlotId::A
            } else {
                SlotId::B
            };
            ops.push(SysOp::Link(LinkName::Current, slot));
            after.current = LinkProbe::Target(String::from_str(slot.name()));
        }
        proof {
            assert(ops@ =~= latest_ops(state, probe.a.status_mtime, probe.b.status_mtime));
        }
        let mut more = self.init(after);
        ops.append(&mut more);
        ops
    }
}

/// Whether `set_active_latest` picks a slot: there is no activation link,
/// and both A and B can be booted.
pub open spec fn picks_latest(s: SysState) -> bool {
    s.current is Absent && s.a.valid() && s.b.valid()
}

/// The slot whose status file was modified last: A, unless that of B is
/// newer.
pub open spec fn latest(mtime_a: u64, mtime_b: u64) -> SlotId {
    if mtime_a >= mtime_b {
        SlotId::A
    } else {
        SlotId::B
    }
}

/// The operations with which `set_active_latest` activates a slot.
pub open spec fn latest_ops(s: SysState, mtime_a: u64, mtime_b: u64) -> Seq<SysOp> {
    if picks_latest(s) {
        seq![SysOp::Link(LinkName::Current, latest(mtime_a, mtime_b))]
    } else {
        Seq::<SysOp>::empty()
    }
}

/// How far an installation or an update has come.
#[derive(Clone, Copy, Debug, PartialEq, Eq, Structural)]
pub enum InstallPhase {
    /// Nothing is done yet: the staging slot is to be made ready.
    Stage,
    /// The staging slot is ready: the image is to be downloaded into it.
    Download,
    /// The blobs and the metadata record are there: the root filesystem
    /// is to be built.
    Materialize,
    /// The root filesystem is built: the slot is to be committed and
    /// activated.
    Commit,
    /// All is done.
    Done,
}

/// What the manager asks the driver to do next.
#[derive(Debug, PartialEq, Eq)]
pub enum InstallAction {
    /// Perform the operations in their order.
    Perform(Vec<SysOp>),
    /// Download the image of the configuration into the slot.
    Download(SlotId),
    /// Build the root filesystem of the slot from the blobs in it.
    Materialize(SlotId),
    /// Nothing.
    Finished,
}

/// What an action holds.
pub enum InstallStep {
    Perform(Seq<SysOp>),
    Download(SlotId),
    Materialize(SlotId),
    Finished,
}

impl View for InstallAction {
    type V = InstallStep;

    open spec fn view(&self) -> InstallStep {
        match self {
            InstallAction::Perform(ops) => InstallStep::Perform(ops@),
            InstallAction::Download(id) => InstallStep::Download(*id),
            InstallAction::Materialize(id) => InstallStep::Materialize(*id),
            InstallAction::Finished => InstallStep::Finished,
        }
    }
}

/// A system can be installed: there is no activation link, and the slots
/// A and B hold nothing.
pub open spec fn can_install(s: SysState) -> bool {
    s.current is Absent && s.a.is_empty() && s.b.is_empty()
}

/// The operations that leave an empty staging slot.
pub open spec fn stage_ops() -> Seq<SysOp> {
    seq![SysOp::RemoveSlot(SlotId::Temp), SysOp::CreateSlot(SlotId::Temp)]
}

/// The operation that removes the slot `id`: as an empty directory where
/// `spare` says that it holds nothing, else with all that it holds.
pub open spec fn removal(id: SlotId, spare: bool) -> SysOp {
    if spare {
        SysOp::RemoveEmptySlot(id)
    } else {
        SysOp::RemoveSlot(id)
    }
}

/// The operations that give the staging slot the name of the slot
/// `target`, and remove what `target` held. Where there is no `target`,
/// the staging slot is renamed. Where the filesystem can exchange two
/// names, the two slots are exchanged and what is then under the staging
/// name is removed. Else `target` is removed first. `spare` says that
/// `target` holds nothing, so that it can be removed as an empty
/// directory.
pub open spec fn commit_ops(s: SysState, target: SlotId, spare: bool) -> Seq<SysOp> {
    if !s.slot(target).present {
        seq![SysOp::RenameSlot(SlotId::Temp, target)]
    } else if s.exchange {
        seq![SysOp::ExchangeSlots(SlotId::Temp, target), removal(SlotId::Temp, spare)]
    } else {
        seq![removal(target, spare), SysOp::RenameSlot(SlotId::Temp, target)]
    }
}

/// The operations that end an installation: the status file and the
/// marker of a fresh installation are written into the staging slot, it
/// becomes the slot A, and the activation link is created.
pub open spec fn install_commit_ops(s: SysState) -> Seq<SysOp> {
    seq![SysOp::WriteStatus(SlotId::Temp), SysOp::WriteMarker(SlotId::Temp)] + commit_ops(
        s,
        SlotId::A,
        true,
    ) + seq![SysOp::Link(LinkName::Current, SlotId::A)]
}

/// One step of an installation: after the guard, the staging slot is made
/// ready, the image is downloaded into it, its root filesystem is built,
/// and it is committed as the slot A and activated. A staging slot that
/// lacks its metadata record or its root filesystem is not committed.
pub open spec fn install_step(phase: InstallPhase, s: SysState) -> Result<
    (InstallPhase, InstallStep),
    BootrError,
> {
    match phase {
        InstallPhase::Stage => if can_install(s) {
            Ok((InstallPhase::Download, InstallStep::Perform(stage_ops())))
        } else {
            Err(BootrError::AlreadyExists)
        },
        InstallPhase::Download => Ok((InstallPhase::Materialize, InstallStep::Download(SlotId::Temp))),
        InstallPhase::Materialize => Ok(
            (InstallPhase::Commit, InstallStep::Materialize(SlotId::Temp)),
        ),
        InstallPhase::Commit => if s.temp.built() {
            Ok((InstallPhase::Done, InstallStep::Perform(install_commit_ops(s))))
        } else {
            Err(BootrError::NotFound)
        },
        InstallPhase::Done => Ok((InstallPhase::Done, InstallStep::Finished)),
    }
}

/// The slot that an update fills: the one of A and B to which the
/// activation link does not lead.
pub open spec fn update_target(s: SysState) -> Option<SlotId> {
    match s.current {
        LinkState::To(SlotId::A) => Some(SlotId::B),
        LinkState::To(SlotId::B) => Some(SlotId::A),
        _ => None,
    }
}

/// The operations that begin an update of the slot `target`: the staging
/// slot is emptied and gets the metadata record of the active slot, which
/// says which layers are known, and the blobs that the active slot still
/// holds.
pub open spec fn update_stage_ops(target: SlotId) -> Seq<SysOp> {
    stage_ops() + seq![
        SysOp::CopyMeta(target.spec_other(), SlotId::Temp),
        SysOp::CopyBlobs(target.spec_other(), SlotId::Temp),
    ]
}

/// The operations that end an update of the slot `target`: the status
/// file is written into the staging slot, it takes the place of `target`,
/// what `target` held is removed, and the activation link is flipped to
/// `target`; then the marker of a fresh installation is removed from the
/// slot that was active.
pub open spec fn update_commit_ops(s: SysState, target: SlotId) -> Seq<SysOp> {
    seq![SysOp::WriteStatus(SlotId::Temp)] + commit_ops(s, target, false) + swap_ops(s, target)
        + (if s.slot(target.spec_other()).has_marker {
        seq![SysOp::RemoveMarker(target.spec_other())]
    } else {
        Seq::<SysOp>::empty()
    })
}

/// One step of an update. Where the slots A and B both hold nothing, it
/// is a step of an installation. Else the slot to which the activation
/// link does not lead is filled: `NotFound` where the link leads to
/// neither A nor B, and where the staging slot that is to be committed
/// lacks its metadata record or its root filesystem.
pub open spec fn update_step(phase: InstallPhase, s: SysState) -> Result<
    (InstallPhase, InstallStep),
    BootrError,
> {
    if s.a.is_empty() && s.b.is_empty() {
        install_step(phase, s)
    } else {
        match phase {
            InstallPhase::Stage => match update_target(s) {
                Some(target) => Ok(
                    (InstallPhase::Download, InstallStep::Perform(update_stage_ops(target))),
                ),
                None => Err(BootrError::NotFound),
            },
            InstallPhase::Commit => match update_target(s) {
                Some(target) => if s.temp.built() {
                    Ok((InstallPhase::Done, InstallStep::Perform(update_commit_ops(s, target))))
                } else {
                    Err(BootrError::NotFound)
                },
                None => Err(BootrError::NotFound),
            },
            _ => install_step(phase, s),
        }
    }
}

fn swap(state: &SysState, slot: SlotId) -> (ops: Vec<SysOp>)
    ensures
        ops@ == swap_ops(*state, slot),
{
    let mut ops: Vec<SysOp> = Vec::new();
    match state.staging {
        LinkState::Absent => {},
        _ => {
            ops.push(SysOp::RemoveLink(LinkName::Staging));
        },
    }
    ops.push(SysOp::Link(LinkName::Staging, slot));
    if state.exchange {
        ops.push(SysOp::ExchangeLinks);
        ops.push(SysOp::RemoveLink(LinkName::Staging));
    } else {
        ops.push(SysOp::ReplaceLink);
    }
    proof {
        assert(ops@ =~= swap_ops(*state, slot));
    }
    ops
}

fn removal_of(id: SlotId, spare: bool) -> (op: SysOp)
    ensures
        op == removal(id, spare),
{
    if spare {
        SysOp::RemoveEmptySlot(id)
    } else {
        SysOp::RemoveSlot(id)
    }
}

fn commit(state: &SysState, target: SlotId, spare: bool) -> (ops: Vec<SysOp>)
    ensures
        ops@ == commit_ops(*state, target, spare),
{
    let mut ops: Vec<SysOp> = Vec::new();
    if !state.slot_state(target).present {
        ops.push(SysOp::RenameSlot(SlotId::Temp, target));
    } else if state.exchange {
        ops.push(SysOp::ExchangeSlots(SlotId::Temp, target));
        ops.push(removal_of(SlotId::Temp, spare));
    } else {
        ops.push(removal_of(target, spare));
        ops.push(SysOp::RenameSlot(SlotId::Temp, target));
    }
    proof {
        assert(ops@ =~= commit_ops(*state, target, spare));
    }
    ops
}

fn update_target_of(state: &SysState) -> (r: Option<SlotId>)
    ensures
        r == update_target(*state),
{
    match state.current {
        LinkState::To(SlotId::A) => Some(SlotId::B),
        LinkState::To(SlotId::B) => Some(SlotId::A),
        _ => None,
    }
}

impl OCISysMgr {
    /// One step of installing the image of the configuration on a host
    /// that holds no system yet: given the phase reached and what the
    /// system directory holds, the next phase and what the driver has to
    /// do. The first step is taken at `InstallPhase::Stage`; it fails with
    /// `AlreadyExists`, and asks for nothing, where there is an
    /// activation link or one of the slots A and B holds anything. The
    /// commit fails with `NotFound` where the staging slot lacks its
    /// metadata record or its root filesystem.
    pub fn install(&self, phase: InstallPhase, state: &SysState) -> (r: Result<
        (InstallPhase, InstallAction),
        BootrError,
    >)
        ensures
            match r {
                Ok(step) => install_step(phase, *state) == Ok::<
                    (InstallPhase, InstallStep),
                    BootrError,
                >((step.0, step.1@)),
                Err(e) => install_step(phase, *state) == Err::<
                    (InstallPhase, InstallStep),
                    BootrError,
                >(e),
            },
    {
        match phase {
            InstallPhase::Stage => {
                let free = match state.current {
                    LinkState::Absent => state.a.holds_nothing() && state.b.holds_nothing(),
                    _ => false,
                };
                if !free {
                    return Err(BootrError::AlreadyExists);
                }
                let mut ops: Vec<SysOp> = Vec::new();
                ops.push(SysOp::RemoveSlot(SlotId::Temp));
                ops.push(SysOp::CreateSlot(SlotId::Temp));
                proof {
                    assert(ops@ =~= stage_ops());
                }
                Ok((InstallPhase::Download, InstallAction::Perform(ops)))
            },
            InstallPhase::Download => Ok(
                (InstallPhase::Materialize, InstallAction::Download(SlotId::Temp)),
            ),
            InstallPhase::Materialize => Ok(
                (InstallPhase::Commit, InstallAction::Materialize(SlotId::Temp)),
            ),
            InstallPhase::Commit => {
                if !state.temp.is_built() {
                    return Err(BootrError::NotFound);
                }
                let mut ops: Vec<SysOp> = Vec::new();
                ops.push(SysOp::WriteStatus(SlotId::Temp));
                ops.push(SysOp::WriteMarker(SlotId::Temp));
                let mut mid = commit(state, SlotId::A, true);
                ops.append(&mut mid);
                ops.push(SysOp::Link(LinkName::Current, SlotId::A));
                proof {
                    assert(ops@ =~= install_commit_ops(*state));
                }
                Ok((InstallPhase::Done, InstallAction::Perform(ops)))
            },
            InstallPhase::Done => Ok((InstallPhase::Done, InstallAction::Finished)),
        }
    }

    /// One step of updating the system: the slot that is not active is
    /// filled from the image of the configuration and activated. Given the
    /// phase reached and what the system directory holds, the next phase
    /// and what the driver has to do. Where the slots A and B both hold
    /// nothing, the step is that of an installation. Fails with
    /// `NotFound` where the activation link leads to neither A nor B, and
    /// at the commit where the staging slot lacks its metadata record or
    /// its root filesystem.
    pub fn update(&self, phase: InstallPhase, state: &SysState) -> (r: Result<
        (InstallPhase, InstallAction),
        BootrError,
    >)
        ensures
            match r {
                Ok(step) => update_step(phase, *state) == Ok::<
                    (InstallPhase, InstallStep),
                    BootrError,
                >((step.0, step.1@)),
                Err(e) => update_step(phase, *state) == Err::<
                    (InstallPhase, InstallStep),
                    BootrError,
                >(e),
            },
    {
        if state.a.holds_nothing() && state.b.holds_nothing() {
            return self.install(phase, state);
        }
        match phase {
            InstallPhase::Stage => {
                let target = match update_target_of(state) {
                    Some(target) => target,
                    None => {
                        return Err(BootrError::NotFound);
                    },
                };
                let mut ops: Vec<SysOp> = Vec::new();
                ops.push(SysOp::RemoveSlot(SlotId::Temp));
                ops.push(SysOp::CreateSlot(SlotId::Temp));
                ops.push(SysOp::CopyMeta(target.other(), SlotId::Temp));
                ops.push(SysOp::CopyBlobs(target.other(), SlotId::Temp));
                proof {
                    assert(ops@ =~= update_stage_ops(target));
                }
                Ok((InstallPhase::Download, InstallAction::Perform(ops)))
            },
            InstallPhase::Commit => {
                let target = match update_target_of(state) {
                    Some(target) => target,
                    None => {
                        return Err(BootrError::NotFound);
                    },
                };
                if !state.temp.is_built() {
                    return Err(BootrError::NotFound);
                }
                let mut ops: Vec<SysOp> = Vec::new();
                ops.push(SysOp::WriteStatus(SlotId::Temp));
                let mut mid = commit(state, target, false);
                ops.append(&mut mid);
                let mut flip = swap(state, target);
                ops.append(&mut flip);
                if state.slot_state(target.other()).has_marker {
                    ops.push(SysOp::RemoveMarker(target.other()));
                }
                proof {
                    assert(ops@ =~= update_commit_ops(*state, target));
                }
                Ok((InstallPhase::Done, InstallAction::Perform(ops)))
            },
            _ => self.install(phase, state),
        }
    }
}

/// One thing to write into the directory of a download.
#[derive(Debug, PartialEq, Eq)]
pub enum StoreOp {
    /// Write the data of the layer at the place `layer` among the layers
    /// that were pulled to the file `path`.
    Blob { path: String, layer: usize },
    /// Write the metadata record `meta` as `file` says.
    Record { meta: OCIMeta, file: WritePlan },
}

/// What there is to write.
pub enum StoreOpView {
    Blob { path: Seq<char>, layer: int },
    Record { meta: MetaView, dest: Seq<char>, temp: Seq<char> },
}

impl DeepView for StoreOp {
    type V = StoreOpView;

    open spec fn deep_view(&self) -> StoreOpView {
        match self {
            StoreOp::Blob { path, layer } => StoreOpView::Blob { path: path@, layer: *layer as int },
            StoreOp::Record { meta, file } => StoreOpView::Record {
                meta: meta@,
                dest: file.dest@,
                temp: file.temp@,
            },
        }
    }
}

/// What the driver reports to `download`.
pub enum DownloadEvent<'a> {
    /// Whether the directory to download into exists, and the metadata
    /// record in it, if there is one that could be loaded.
    Found { present: bool, meta: Option<OCIMeta> },
    /// The image that was pulled.
    Pulled(&'a ImageData),
}

/// What `download` asks the driver to do next.
#[derive(Debug)]
pub enum DownloadAction {
    /// Pull the image, of which the layers with these digests are there
    /// already.
    Pull { image: String, known: Vec<String> },
    /// Write these in their order.
    Write { ops: Vec<StoreOp> },
}

/// The file in the directory `dst` that gets the data `data` of a layer:
/// it is named by the digest of the data, without its leading `sha256:`.
pub open spec fn blob_path(dst: Seq<char>, data: Seq<u8>) -> Seq<char> {
    child(dst, blob_name(sha256_digest_of(data)))
}

/// The blobs to write into the directory `dst`: one for each layer that
/// was pulled, in their order.
pub open spec fn blob_writes(dst: Seq<char>, layers: Seq<ImageLayer>) -> Seq<StoreOpView> {
    Seq::new(
        layers.len(),
        |i: int| StoreOpView::Blob { path: blob_path(dst, layers[i].data@), layer: i },
    )
}

/// What a download writes into the directory `dst`: the blobs, and after
/// the last of them the record of the manifest, so that a record is
/// there only when all its blobs are.
pub open spec fn store_ops(dst: Seq<char>, layers: Seq<ImageLayer>, record: MetaView) -> Seq<
    StoreOpView,
> {
    blob_writes(dst, layers).push(
        StoreOpView::Record {
            meta: record,
            dest: child(dst, C_BOOTR_SECT_OCI_META@),
            temp: child(dst, C_BOOTR_SECT_OCI_META@) + TEMP_SUFFIX@,
        },
    )
}

/// The download stays inside: everything that it writes is an entry of
/// the directory `dst`.
pub proof fn lemma_store_inside(dst: Seq<char>, layers: Seq<ImageLayer>, record: MetaView, i: int)
    requires
        0 <= i < store_ops(dst, layers, record).len(),
    ensures
        match store_ops(dst, layers, record)[i] {
            StoreOpView::Blob { path, layer } => is_prefix(dst + seq!['/'], path),
            StoreOpView::Record { meta, dest, temp } => is_prefix(dst + seq!['/'], dest)
                && is_prefix(dst + seq!['/'], temp),
        },
{
    let front = dst + seq!['/'];
    assert forall|name: Seq<char>| is_prefix(front, #[trigger] child(dst, name)) by {
        assert(child(dst, name).subrange(0, front.len() as int) =~= front);
    }
    let dest = child(dst, C_BOOTR_SECT_OCI_META@);
    assert((dest + TEMP_SUFFIX@).subrange(0, front.len() as int) =~= dest.subrange(
        0,
        front.len() as int,
    ));
}

/// The file in the directory `dst` that gets the blob with the digest
/// `digest`.
pub fn blob_file(dst: &str, digest: &str) -> (r: String)
    ensures
        r@ == child(dst@, blob_name(digest@)),
{
    let name = blob_file_name(digest);
    join(dst, name.as_str())
}

impl OCISysMgr {
    /// One step of downloading the image of the configuration into the
    /// directory `dst`: given what the driver reports, what it has to do
    /// next.
    ///
    /// First the image is to be pulled: all of it where `dst` holds no
    /// metadata record, else without the layers of that record. Fails
    /// with `NotFound` where `dst` does not exist. Then each layer that
    /// was pulled is to be written to a file of `dst` named by the digest
    /// of its data, and the record of the manifest last, so that a record
    /// is there only when all its blobs are. Fails with `InvalidData`
    /// where the image came without a manifest.
    pub fn download(&self, dst: &str, event: DownloadEvent) -> (r: Result<DownloadAction, BootrError>)
        ensures
            match event {
                DownloadEvent::Found { present, meta } => if present {
                    r matches Ok(DownloadAction::Pull { image, known }) && image@
                        == self.config().oci_registry.image@ && known.deep_view() == match meta {
                        Some(m) => m@.digests(),
                        None => Seq::<Seq<char>>::empty(),
                    }
                } else {
                    r == Err::<DownloadAction, BootrError>(BootrError::NotFound)
                },
                DownloadEvent::Pulled(img) => match img.manifest {
                    Some(manifest) => r matches Ok(DownloadAction::Write { ops })
                        && ops.deep_view() == store_ops(
                        dst@,
                        img.layers@,
                        manifest_view(manifest),
                    ),
                    None => r == Err::<DownloadAction, BootrError>(BootrError::InvalidData),
                },
            },
    {
        match event {
            DownloadEvent::Found { present, meta } => {
                if !present {
                    return Err(BootrError::NotFound);
                }
                let known = match &meta {
                    Some(m) => m.get_layers_as_digests(),
                    None => Vec::new(),
                };
                proof {
                    if meta is None {
                        assert(known.deep_view() =~= Seq::<Seq<char>>::empty());
                    }
                }
                Ok(DownloadAction::Pull { image: self.cfg.oci_registry.image.clone(), known })
            },
            DownloadEvent::Pulled(img) => {
                let manifest = match &img.manifest {
                    Some(manifest) => manifest,
                    None => {
                        return Err(BootrError::InvalidData);
                    },
                };
                let mut ops: Vec<StoreOp> = Vec::new();
                let mut i: usize = 0;
                while i < img.layers.len()
                    invariant
                        i <= img.layers.len(),
                        ops@.len() == i,
                        forall|j: int|
                            0 <= j < i ==> (#[trigger] ops@[j]).deep_view() == (StoreOpView::Blob {
                                path: blob_path(dst@, img.layers@[j].data@),
                                layer: j,
                            }),
                    decreases img.layers.len() - i,
                {
                    let digest = layer_digest(&img.layers[i]);
                    ops.push(StoreOp::Blob { path: blob_file(dst, digest.as_str()), layer: i });
                    i += 1;
                }
                let file = match OCIMeta::save(dst, true) {
                    Ok(file) => file,
                    Err(e) => {
                        return Err(e);
                    },
                };
                let meta = OCIMeta::from_manifest(manifest);
                ops.push(StoreOp::Record { meta, file });
                proof {
                    assert(ops.deep_view() =~= store_ops(
                        dst@,
                        img.layers@,
                        manifest_view(*manifest),
                    ));
                }
                Ok(DownloadAction::Write { ops })
            },
        }
    }
}

} // verus!
