//! What the driver finds on disk, as the library takes it: the entries of
//! the slots and the targets of the links, and what they say of the
//! system directory.

use vstd::prelude::*;
use crate::bconf::defaults::lemma_slot_names_differ;
use crate::bconf::defaults::lemma_slot_paths_differ;
use crate::bconf::defaults::slot_name;
use crate::bconf::defaults::slot_of;
use crate::bconf::defaults::sysdir_of;
use crate::bconf::defaults::PathCatalog;
use crate::bconf::defaults::SlotId;
use crate::bconf::defaults::C_BOOTR_SECT_INSTALLED_MARKER;
use crate::bconf::defaults::C_BOOTR_SECT_OCI_META;
use crate::bconf::defaults::C_BOOTR_SECT_RFS_DIR;
use crate::bconf::defaults::C_BOOTR_SECT_STATUS;
use crate::bconf::scfg::StatusConfig;
use crate::files::FileProbe;
use crate::ociman::slots::LinkState;
use crate::ociman::slots::SlotState;
use crate::ociman::slots::SysState;
use crate::text::base_name;
use crate::text::base_start;
use crate::text::child;
use crate::text::holds_text;
use crate::text::same;
use crate::text::split_path;

verus! {

/// What was found of the status file of a slot.
pub type StatusProbe = FileProbe<StatusConfig>;

/// What was found of one slot.
#[derive(Debug)]
pub struct SlotProbe {
    /// The directory of the slot exists.
    pub present: bool,
    pub status: StatusProbe,
    /// When the status file was last modified; 0 where there is none.
    pub status_mtime: u64,
    pub has_meta: bool,
    pub has_rootfs: bool,
    pub has_marker: bool,
    /// The slot holds anything else, such as the blob of a layer.
    pub has_other: bool,
}

/// What was found of the system directory.
#[derive(Debug)]
pub struct SysProbe {
    /// The system directory exists.
    pub sysdir: bool,
    pub a: SlotProbe,
    pub b: SlotProbe,
    pub temp: SlotProbe,
    /// What was found under the name of the activation link.
    pub current: LinkProbe,
    /// What was found under the staging name.
    pub staging: LinkProbe,
    /// The filesystem can exchange two names in one step.
    pub exchange: bool,
}

/// What was found under the name of a link.
#[derive(Debug)]
pub enum LinkProbe {
    /// Nothing has this name.
    Missing,
    /// Something that is no symbolic link has this name.
    Other,
    /// A symbolic link with this target, as it is written in the link.
    Target(String),
}

/// The target of the link that was found, if one was.
pub open spec fn text_of(link: LinkProbe) -> Option<Seq<char>> {
    match link {
        LinkProbe::Target(t) => Some(t@),
        _ => None,
    }
}

/// A link with the target `target` leads to `path`: the target is the
/// path, or it is the last component of the path, which is how a link
/// beside `path` names it.
pub open spec fn points_at(target: Seq<char>, path: Seq<char>) -> bool {
    target == path || target == base_name(path)
}

/// Where a link with the target `target` leads, below `root`.
pub open spec fn target_state(root: Seq<char>, target: Seq<char>) -> LinkState {
    if points_at(target, slot_of(root, SlotId::A)) {
        LinkState::To(SlotId::A)
    } else if points_at(target, slot_of(root, SlotId::B)) {
        LinkState::To(SlotId::B)
    } else if points_at(target, slot_of(root, SlotId::Temp)) {
        LinkState::To(SlotId::Temp)
    } else {
        LinkState::Elsewhere
    }
}

/// Where what was found under the name of a link leads, below `root`.
pub open spec fn link_state(root: Seq<char>, link: LinkProbe) -> LinkState {
    match link {
        LinkProbe::Missing => LinkState::Absent,
        LinkProbe::Other => LinkState::Elsewhere,
        LinkProbe::Target(t) => target_state(root, t@),
    }
}

/// The name is that of one of the entries that make up a slot: its status
/// file, its metadata record, its root filesystem or its marker.
pub open spec fn is_slot_entry(name: Seq<char>) -> bool {
    ||| name == C_BOOTR_SECT_STATUS@
    ||| name == C_BOOTR_SECT_OCI_META@
    ||| name == C_BOOTR_SECT_RFS_DIR@
    ||| name == C_BOOTR_SECT_INSTALLED_MARKER@
}

/// One of the entries is none of those that make up a slot.
pub open spec fn has_foreign(entries: Seq<Seq<char>>) -> bool {
    exists|i: int| 0 <= i < entries.len() && !is_slot_entry(#[trigger] entries[i])
}

/// Whether the name is that of one of the entries that make up a slot.
pub fn is_slot_file(name: &str) -> (r: bool)
    ensures
        r == is_slot_entry(name@),
{
    same(name, C_BOOTR_SECT_STATUS) || same(name, C_BOOTR_SECT_OCI_META) || same(
        name,
        C_BOOTR_SECT_RFS_DIR,
    ) || same(name, C_BOOTR_SECT_INSTALLED_MARKER)
}

impl SlotProbe {
    /// What was found of a slot whose directory holds the entries with
    /// the names `entries`: which of the entries that make up a slot are
    /// there, and whether anything else is.
    pub fn observed(present: bool, entries: &Vec<String>, status: StatusProbe, status_mtime: u64) -> (r:
        SlotProbe)
        ensures
            r.present == present,
            r.status == status,
            r.status_mtime == status_mtime,
            r.has_meta == entries.deep_view().contains(C_BOOTR_SECT_OCI_META@),
            r.has_rootfs == entries.deep_view().contains(C_BOOTR_SECT_RFS_DIR@),
            r.has_marker == entries.deep_view().contains(C_BOOTR_SECT_INSTALLED_MARKER@),
            r.has_other == has_foreign(entries.deep_view()),
    {
        let mut has_other = false;
        let mut i: usize = 0;
        while i < entries.len()
            invariant
                i <= entries.len(),
                has_other == has_foreign(entries.deep_view().take(i as int)),
            decreases entries.len() - i,
        {
            let ghost seen = entries.deep_view().take(i as int);
            let ghost more = entries.deep_view().take(i + 1);
            let foreign = !is_slot_file(entries[i].as_str());
            proof {
                assert(more[i as int] == entries[i as int]@);
                if has_foreign(seen) {
                    let k = choose|k: int| 0 <= k < seen.len() && !is_slot_entry(#[trigger] seen[k]);
                    assert(more[k] == seen[k]);
                }
                if has_foreign(more) && !foreign {
                    let k = choose|k: int| 0 <= k < more.len() && !is_slot_entry(#[trigger] more[k]);
                    assert(seen[k] == more[k]);
                }
            }
            has_other = has_other || foreign;
            i += 1;
        }
        proof {
            assert(entries.deep_view().take(i as int) =~= entries.deep_view());
        }
        SlotProbe {
            present,
            status,
            status_mtime,
            has_meta: holds_text(entries, C_BOOTR_SECT_OCI_META),
            has_rootfs: holds_text(entries, C_BOOTR_SECT_RFS_DIR),
            has_marker: holds_text(entries, C_BOOTR_SECT_INSTALLED_MARKER),
            has_other,
        }
    }

    /// What the slot holds.
    pub open spec fn state(&self) -> SlotState {
        if self.present {
            SlotState {
                present: true,
                has_status: !(self.status is Missing),
                has_meta: self.has_meta,
                has_rootfs: self.has_rootfs,
                has_marker: self.has_marker,
                has_other: self.has_other,
            }
        } else {
            SlotState::absent()
        }
    }

    /// What the slot holds.
    pub fn slot_state(&self) -> (r: SlotState)
        ensures
            r == self.state(),
    {
        let has_status = match &self.status {
            FileProbe::Missing => false,
            _ => true,
        };
        SlotState::observed(
            self.present,
            has_status,
            self.has_meta,
            self.has_rootfs,
            self.has_marker,
            self.has_other,
        )
    }
}

/// Whether a link with the target `target` leads to `path`.
pub fn leads_to(target: &str, path: &str) -> (r: bool)
    ensures
        r == points_at(target@, path@),
{
    if same(target, path) {
        return true;
    }
    let (_, name) = split_path(path);
    same(target, name.as_str())
}

/// Where what was found under the name of a link leads.
pub fn link_state_of(catalog: &PathCatalog, link: &LinkProbe) -> (r: LinkState)
    ensures
        r == link_state(catalog.root@, *link),
{
    match link {
        LinkProbe::Missing => LinkState::Absent,
        LinkProbe::Other => LinkState::Elsewhere,
        LinkProbe::Target(t) => {
            let a = catalog.slot(SlotId::A);
            let b = catalog.slot(SlotId::B);
            let temp = catalog.slot(SlotId::Temp);
            if leads_to(t.as_str(), a.as_str()) {
                LinkState::To(SlotId::A)
            } else if leads_to(t.as_str(), b.as_str()) {
                LinkState::To(SlotId::B)
            } else if leads_to(t.as_str(), temp.as_str()) {
                LinkState::To(SlotId::Temp)
            } else {
                LinkState::Elsewhere
            }
        },
    }
}

impl SysProbe {
    /// What the system directory below `root` holds.
    pub open spec fn state(&self, root: Seq<char>) -> SysState {
        SysState {
            sysdir: self.sysdir,
            a: self.a.state(),
            b: self.b.state(),
            temp: self.temp.state(),
            current: link_state(root, self.current),
            staging: link_state(root, self.staging),
            exchange: self.exchange,
        }
    }

    /// What the system directory of `catalog` holds.
    pub fn sys_state(&self, catalog: &PathCatalog) -> (r: SysState)
        ensures
            r == self.state(catalog.root@),
    {
        SysState {
            sysdir: self.sysdir,
            a: self.a.slot_state(),
            b: self.b.slot_state(),
            temp: self.temp.slot_state(),
            current: link_state_of(catalog, &self.current),
            staging: link_state_of(catalog, &self.staging),
            exchange: self.exchange,
        }
    }
}

/// The last component of an entry whose name holds no `/` is that name.
pub proof fn lemma_base_of_child(dir: Seq<char>, name: Seq<char>)
    requires
        forall|i: int| 0 <= i < name.len() ==> name[i] != '/',
    ensures
        base_start(child(dir, name)) == dir.len() + 1,
        base_name(child(dir, name)) == name,
    decreases name.len(),
{
    let s = child(dir, name);
    if name.len() == 0 {
        assert(s.last() == '/');
    } else {
        assert(s.last() == name.last());
        assert(s.drop_last() =~= child(dir, name.drop_last()));
        lemma_base_of_child(dir, name.drop_last());
    }
    assert(s.skip(dir.len() as int + 1) =~= name);
}

/// The last component of the path of a slot is the name of the slot.
pub proof fn lemma_slot_base(root: Seq<char>, id: SlotId)
    ensures
        base_name(slot_of(root, id)) == slot_name(id),
        slot_of(root, id) != slot_name(id),
{
    reveal_strlit("A");
    reveal_strlit("B");
    reveal_strlit(".temp");
    let name = slot_name(id);
    assert("A"@.len() == 1 && "A"@[0] == 'A');
    assert("B"@.len() == 1 && "B"@[0] == 'B');
    assert(".temp"@.len() == 5 && ".temp"@[0] == '.' && ".temp"@[1] == 't' && ".temp"@[2] == 'e'
        && ".temp"@[3] == 'm' && ".temp"@[4] == 'p');
    assert forall|i: int| 0 <= i < name.len() implies name[i] != '/' by {}
    lemma_base_of_child(sysdir_of(root), name);
    assert(slot_of(root, id).len() > name.len());
}

/// A link leads to one slot at most: the target that names one slot names
/// no other.
pub proof fn lemma_one_target(root: Seq<char>, target: Seq<char>, x: SlotId, y: SlotId)
    requires
        points_at(target, slot_of(root, x)),
        points_at(target, slot_of(root, y)),
    ensures
        x == y,
{
    lemma_slot_base(root, x);
    lemma_slot_base(root, y);
    if target == slot_of(root, x) {
        if target == slot_of(root, y) {
            lemma_slot_paths_differ(root, x, y);
        } else {
            // a path of a slot is longer than any name of a slot
            reveal_strlit("A");
            reveal_strlit("B");
            reveal_strlit(".temp");
            assert(slot_of(root, x).len() >= sysdir_of(root).len() + 2);
            assert(sysdir_of(root).len() >= 7) by {
                reveal_strlit("system");
            }
            assert(slot_name(y).len() <= 5);
        }
    } else {
        if target == slot_of(root, y) {
            reveal_strlit("A");
            reveal_strlit("B");
            reveal_strlit(".temp");
            assert(slot_of(root, y).len() >= sysdir_of(root).len() + 2);
            assert(sysdir_of(root).len() >= 7) by {
                reveal_strlit("system");
            }
            assert(slot_name(x).len() <= 5);
        } else {
            lemma_slot_names_differ(x, y);
        }
    }
}

/// The link whose target is the name of a slot, which is how the driver
/// is asked to create it, leads to that slot.
pub proof fn lemma_name_leads_to_slot(root: Seq<char>, id: SlotId)
    ensures
        target_state(root, slot_name(id)) == LinkState::To(id),
{
    lemma_slot_base(root, id);
    lemma_slot_base(root, SlotId::A);
    lemma_slot_base(root, SlotId::B);
    if id != SlotId::A && points_at(slot_name(id), slot_of(root, SlotId::A)) {
        lemma_one_target(root, slot_name(id), id, SlotId::A);
    }
    if id != SlotId::B && points_at(slot_name(id), slot_of(root, SlotId::B)) {
        lemma_one_target(root, slot_name(id), id, SlotId::B);
    }
}

} // verus!
