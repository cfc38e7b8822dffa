//! The catalogue of paths: where the slots, their files and the
//! activation link are found below one root directory.

use vstd::prelude::*;
use vstd::string::StringExecFns;
use crate::text::child;
use crate::text::join;

verus! {

/// The directory below which everything is kept, unless another is given.
pub const C_BOOTR_ROOT: &'static str = "/bootr";

/// A slot's status file.
pub const C_BOOTR_SECT_STATUS: &'static str = "status";

/// A slot's metadata record.
pub const C_BOOTR_SECT_OCI_META: &'static str = "oci-meta";

/// The file that marks a slot as freshly installed.
pub const C_BOOTR_SECT_INSTALLED_MARKER: &'static str = ".installed";

/// The directory of a slot that holds its root filesystem.
pub const C_BOOTR_SECT_RFS_DIR: &'static str = "rootfs";

/// The directory of a root filesystem in which the layers that change it
/// are unpacked before they are merged.
pub const C_BOOTR_SCRATCH_DIR: &'static str = "tmp";

/// One of the three slots of the system directory.
#[derive(Clone, Copy, Debug, PartialEq, Eq, Structural)]
pub enum SlotId {
    A,
    B,
    /// The staging slot, `.temp`.
    Temp,
}

/// One of the two names that a link to a slot can have.
#[derive(Clone, Copy, Debug, PartialEq, Eq, Structural)]
pub enum LinkName {
    /// The activation link, `current`.
    Current,
    /// The name under which a new link is staged, `current.temp`.
    Staging,
}

/// The name of a slot's directory.
pub open spec fn slot_name(id: SlotId) -> Seq<char> {
    match id {
        SlotId::A => "A"@,
        SlotId::B => "B"@,
        SlotId::Temp => ".temp"@,
    }
}

/// The slot of the pair A, B that has the name `name`, if one has.
pub open spec fn slot_named(name: Seq<char>) -> Option<SlotId> {
    if name == slot_name(SlotId::A) {
        Some(SlotId::A)
    } else if name == slot_name(SlotId::B) {
        Some(SlotId::B)
    } else {
        None
    }
}

/// The name of a link.
pub open spec fn link_name(link: LinkName) -> Seq<char> {
    match link {
        LinkName::Current => "current"@,
        LinkName::Staging => "current.temp"@,
    }
}

/// The system directory below `root`.
pub open spec fn sysdir_of(root: Seq<char>) -> Seq<char> {
    child(root, "system"@)
}

/// The directory of the slot `id` below `root`.
pub open spec fn slot_of(root: Seq<char>, id: SlotId) -> Seq<char> {
    child(sysdir_of(root), slot_name(id))
}

/// The path of the link `link` below `root`.
pub open spec fn link_of(root: Seq<char>, link: LinkName) -> Seq<char> {
    child(sysdir_of(root), link_name(link))
}

impl SlotId {
    /// The name of the slot's directory.
    pub fn name(&self) -> (r: &'static str)
        ensures
            r@ == slot_name(*self),
    {
        match self {
            SlotId::A => "A",
            SlotId::B => "B",
            SlotId::Temp => ".temp",
        }
    }

    /// The slot of the pair A, B that is not this one; for the staging
    /// slot, itself.
    pub fn other(&self) -> (r: SlotId)
        ensures
            r == self.spec_other(),
    {
        match self {
            SlotId::A => SlotId::B,
            SlotId::B => SlotId::A,
            SlotId::Temp => SlotId::Temp,
        }
    }

    pub open spec fn spec_other(&self) -> SlotId {
        match self {
            SlotId::A => SlotId::B,
            SlotId::B => SlotId::A,
            SlotId::Temp => SlotId::Temp,
        }
    }
}

impl LinkName {
    /// The name of the link.
    pub fn name(&self) -> (r: &'static str)
        ensures
            r@ == link_name(*self),
    {
        match self {
            LinkName::Current => "current",
            LinkName::Staging => "current.temp",
        }
    }
}

/// The paths of one installation, all derived from its root directory.
#[derive(Debug)]
pub struct PathCatalog {
    pub root: String,
}

impl PathCatalog {
    /// The catalogue below the default root.
    pub fn new() -> (r: PathCatalog)
        ensures
            r.root@ == C_BOOTR_ROOT@,
    {
        PathCatalog { root: String::from_str(C_BOOTR_ROOT) }
    }

    /// The catalogue below `root`.
    pub fn at(root: &str) -> (r: PathCatalog)
        ensures
            r.root@ == root@,
    {
        PathCatalog { root: String::from_str(root) }
    }

    /// The central configuration file.
    pub fn config(&self) -> (r: String)
        ensures
            r@ == child(self.root@, "config"@),
    {
        join(self.root.as_str(), "config")
    }

    /// The directory that holds the slots and the activation link.
    pub fn sysdir(&self) -> (r: String)
        ensures
            r@ == sysdir_of(self.root@),
    {
        join(self.root.as_str(), "system")
    }

    /// The directory of the slot `id`.
    pub fn slot(&self, id: SlotId) -> (r: String)
        ensures
            r@ == slot_of(self.root@, id),
    {
        let dir = self.sysdir();
        join(dir.as_str(), id.name())
    }

    /// The path of the link `link`.
    pub fn link(&self, link: LinkName) -> (r: String)
        ensures
            r@ == link_of(self.root@, link),
    {
        let dir = self.sysdir();
        join(dir.as_str(), link.name())
    }

    /// The path of the entry `name` of the slot `id`.
    pub fn slot_entry(&self, id: SlotId, name: &str) -> (r: String)
        ensures
            r@ == child(slot_of(self.root@, id), name@),
    {
        let dir = self.slot(id);
        join(dir.as_str(), name)
    }
}

/// The names of the host directories that every root filesystem holds as
/// empty mount points, and that no layer overwrites.
pub open spec fn sysdir_names() -> Seq<Seq<char>> {
    seq!["dev"@, "proc"@, "sys"@, "run"@]
}

/// The names of the directories that hold the kernel, the boot files and
/// the kernel modules.
pub open spec fn kerneldir_names() -> Seq<Seq<char>> {
    seq!["boot"@, "lib/modules"@]
}

/// The host directories that every root filesystem holds as empty mount
/// points, and that no layer overwrites.
pub fn sysdirs() -> (r: Vec<&'static str>)
    ensures
        r@.len() == sysdir_names().len(),
        forall|i: int| 0 <= i < r@.len() ==> (#[trigger] r@[i])@ == sysdir_names()[i],
{
    let mut r: Vec<&'static str> = Vec::new();
    r.push("dev");
    r.push("proc");
    r.push("sys");
    r.push("run");
    r
}

/// The directories that hold the kernel, the boot files and the kernel
/// modules.
pub fn kerneldirs() -> (r: Vec<&'static str>)
    ensures
        r@.len() == kerneldir_names().len(),
        forall|i: int| 0 <= i < r@.len() ==> (#[trigger] r@[i])@ == kerneldir_names()[i],
{
    let mut r: Vec<&'static str> = Vec::new();
    r.push("boot");
    r.push("lib/modules");
    r
}

/// Two entries of one directory have the same path only if they have the
/// same name.
pub proof fn lemma_child_injective(dir: Seq<char>, a: Seq<char>, b: Seq<char>)
    requires
        child(dir, a) == child(dir, b),
    ensures
        a == b,
{
    let n = dir.len() + 1;
    assert(child(dir, a).skip(n as int) =~= a);
    assert(child(dir, b).skip(n as int) =~= b);
}

/// The three slots have three different names.
pub proof fn lemma_slot_names_differ(a: SlotId, b: SlotId)
    requires
        slot_name(a) == slot_name(b),
    ensures
        a == b,
{
    reveal_strlit("A");
    reveal_strlit("B");
    reveal_strlit(".temp");
    assert("A"@.len() == 1 && "A"@[0] == 'A');
    assert("B"@.len() == 1 && "B"@[0] == 'B');
    assert(".temp"@.len() == 5);
}

/// Different slots lie at different paths.
pub proof fn lemma_slot_paths_differ(root: Seq<char>, a: SlotId, b: SlotId)
    requires
        slot_of(root, a) == slot_of(root, b),
    ensures
        a == b,
{
    lemma_child_injective(sysdir_of(root), slot_name(a), slot_name(b));
    lemma_slot_names_differ(a, b);
}

} // verus!
