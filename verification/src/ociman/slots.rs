//! What the system directory holds, and what the operations on it do: the
//! slots A, B and `.temp`, the activation link and its staging name.

use vstd::prelude::*;
use crate::bconf::defaults::LinkName;
use crate::bconf::defaults::SlotId;

verus! {

/// What one slot holds.
#[derive(Clone, Copy, Debug, PartialEq, Eq, Structural)]
pub struct SlotState {
    /// The directory of the slot exists.
    pub present: bool,
    /// It holds a status file.
    pub has_status: bool,
    /// It holds a metadata record.
    pub has_meta: bool,
    /// It holds a root filesystem.
    pub has_rootfs: bool,
    /// It holds the marker of a fresh installation.
    pub has_marker: bool,
    /// It holds anything else, such as the blob of a layer.
    pub has_other: bool,
}

impl SlotState {
    /// The state of a slot whose directory does not exist.
    pub open spec fn absent() -> SlotState {
        SlotState {
            present: false,
            has_status: false,
            has_meta: false,
            has_rootfs: false,
            has_marker: false,
            has_other: false,
        }
    }

    /// The state of a slot whose directory exists and holds nothing.
    pub open spec fn vacant() -> SlotState {
        SlotState { present: true, ..SlotState::absent() }
    }

    /// Only a directory that exists holds anything.
    pub open spec fn wf(self) -> bool {
        !self.present ==> self == SlotState::absent()
    }

    /// The slot holds nothing.
    pub open spec fn is_empty(self) -> bool {
        !self.has_status && !self.has_meta && !self.has_rootfs && !self.has_marker
            && !self.has_other
    }

    /// The slot can be booted: it holds a status file, a metadata record
    /// and a root filesystem.
    pub open spec fn valid(self) -> bool {
        self.present && self.has_status && self.has_meta && self.has_rootfs
    }

    /// The slot holds an image that was downloaded and made into a root
    /// filesystem: its metadata record and its root filesystem are there.
    pub open spec fn built(self) -> bool {
        self.present && self.has_meta && self.has_rootfs
    }

    /// The state of a slot in which this was found; what is said of the
    /// content of a directory that does not exist is dropped.
    pub fn observed(
        present: bool,
        has_status: bool,
        has_meta: bool,
        has_rootfs: bool,
        has_marker: bool,
        has_other: bool,
    ) -> (r: SlotState)
        ensures
            r.wf(),
            r.present == present,
            present ==> r == (SlotState {
                present,
                has_status,
                has_meta,
                has_rootfs,
                has_marker,
                has_other,
            }),
    {
        if present {
            SlotState { present, has_status, has_meta, has_rootfs, has_marker, has_other }
        } else {
            SlotState {
                present: false,
                has_status: false,
                has_meta: false,
                has_rootfs: false,
                has_marker: false,
                has_other: false,
            }
        }
    }

    /// Whether the slot holds nothing.
    pub fn holds_nothing(&self) -> (r: bool)
        ensures
            r == self.is_empty(),
    {
        !self.has_status && !self.has_meta && !self.has_rootfs && !self.has_marker
            && !self.has_other
    }

    /// Whether the slot holds a metadata record and a root filesystem.
    pub fn is_built(&self) -> (r: bool)
        ensures
            r == self.built(),
    {
        self.present && self.has_meta && self.has_rootfs
    }

    /// Whether the slot can be booted.
    pub fn is_valid(&self) -> (r: bool)
        ensures
            r == self.valid(),
    {
        self.present && self.has_status && self.has_meta && self.has_rootfs
    }
}

/// Where a link leads.
#[derive(Clone, Copy, Debug, PartialEq, Eq, Structural)]
pub enum LinkState {
    /// There is no such link.
    Absent,
    /// The link leads to this slot.
    To(SlotId),
    /// The name is taken, but by nothing that leads to a slot.
    Elsewhere,
}

/// What the system directory holds.
#[derive(Clone, Copy, Debug, PartialEq, Eq, Structural)]
pub struct SysState {
    /// The system directory exists.
    pub sysdir: bool,
    pub a: SlotState,
    pub b: SlotState,
    pub temp: SlotState,
    /// The activation link.
    pub current: LinkState,
    /// The link under the staging name.
    pub staging: LinkState,
    /// The filesystem can exchange two names in one step.
    pub exchange: bool,
}

impl SysState {
    /// What the slot `id` holds.
    pub open spec fn slot(self, id: SlotId) -> SlotState {
        match id {
            SlotId::A => self.a,
            SlotId::B => self.b,
            SlotId::Temp => self.temp,
        }
    }

    /// This state, but for the slot `id`, which holds `s`.
    pub open spec fn with_slot(self, id: SlotId, s: SlotState) -> SysState {
        match id {
            SlotId::A => SysState { a: s, ..self },
            SlotId::B => SysState { b: s, ..self },
            SlotId::Temp => SysState { temp: s, ..self },
        }
    }

    /// Where the link `name` leads.
    pub open spec fn link(self, name: LinkName) -> LinkState {
        match name {
            LinkName::Current => self.current,
            LinkName::Staging => self.staging,
        }
    }

    /// This state, but for the link `name`, which is `l`.
    pub open spec fn with_link(self, name: LinkName, l: LinkState) -> SysState {
        match name {
            LinkName::Current => SysState { current: l, ..self },
            LinkName::Staging => SysState { staging: l, ..self },
        }
    }

    /// Nothing exists outside a directory that exists.
    pub open spec fn wf(self) -> bool {
        &&& self.a.wf()
        &&& self.b.wf()
        &&& self.temp.wf()
        &&& !self.sysdir ==> !self.a.present && !self.b.present && !self.temp.present
                && self.current is Absent && self.staging is Absent
    }

    /// The activation link is absent or leads to a slot that can be
    /// booted, which the staging slot never is.
    pub open spec fn link_ok(self) -> bool {
        match self.current {
            LinkState::Absent => true,
            LinkState::To(id) => id != SlotId::Temp && self.slot(id).valid(),
            LinkState::Elsewhere => false,
        }
    }

    /// What the slot `id` holds.
    pub fn slot_state(&self, id: SlotId) -> (r: SlotState)
        ensures
            r == self.slot(id),
    {
        match id {
            SlotId::A => self.a,
            SlotId::B => self.b,
            SlotId::Temp => self.temp,
        }
    }
}

/// One operation on the system directory, for the driver to perform. An
/// operation that fails ends the run.
#[derive(Clone, Copy, Debug, PartialEq, Eq, Structural)]
pub enum SysOp {
    /// Create the system directory and the parents it lacks.
    CreateSysDir,
    /// Create the directory of the slot and the parents it lacks.
    CreateSlot(SlotId),
    /// Remove the directory of the slot with all that it holds; nothing to
    /// do where it does not exist.
    RemoveSlot(SlotId),
    /// Remove the directory of the slot, which holds nothing.
    RemoveEmptySlot(SlotId),
    /// Exchange the directories of two slots in one step.
    ExchangeSlots(SlotId, SlotId),
    /// Give the directory of the first slot the name of the second, which
    /// does not exist.
    RenameSlot(SlotId, SlotId),
    /// Copy the metadata record of the first slot into the second.
    CopyMeta(SlotId, SlotId),
    /// Write the status file of the slot.
    WriteStatus(SlotId),
    /// Write the marker of a fresh installation into the slot.
    WriteMarker(SlotId),
    /// Remove the marker of a fresh installation from the slot.
    RemoveMarker(SlotId),
    /// Create the link, which does not exist, to lead to the slot by its
    /// name.
    Link(LinkName, SlotId),
    /// Exchange the activation link and the link under the staging name
    /// in one step.
    ExchangeLinks,
    /// Give the link under the staging name the name of the activation
    /// link, in whose place it comes in one step. This is how the link is
    /// flipped where the filesystem cannot exchange two names; the link
    /// that was active is then gone, not kept under the staging name.
    ReplaceLink,
    /// Copy every blob that the first slot holds into the second.
    CopyBlobs(SlotId, SlotId),
    /// Remove what has the name of the link, which is there and is no
    /// directory.
    RemoveLink(LinkName),
}

/// What the system directory holds once `op` is performed on `s`; `None`
/// where it fails, which leaves `s` as it is.
pub open spec fn apply(s: SysState, op: SysOp) -> Option<SysState> {
    match op {
        SysOp::CreateSysDir => Some(SysState { sysdir: true, ..s }),
        SysOp::CreateSlot(id) => Some(
            SysState { sysdir: true, ..s }.with_slot(id, SlotState { present: true, ..s.slot(id) }),
        ),
        SysOp::RemoveSlot(id) => Some(s.with_slot(id, SlotState::absent())),
        SysOp::RemoveEmptySlot(id) => if s.slot(id).present && s.slot(id).is_empty() {
            Some(s.with_slot(id, SlotState::absent()))
        } else {
            None
        },
        SysOp::ExchangeSlots(x, y) => if s.exchange && s.slot(x).present && s.slot(y).present {
            Some(s.with_slot(x, s.slot(y)).with_slot(y, s.slot(x)))
        } else {
            None
        },
        SysOp::RenameSlot(x, y) => if s.slot(x).present && !s.slot(y).present && x != y {
            Some(s.with_slot(y, s.slot(x)).with_slot(x, SlotState::absent()))
        } else {
            None
        },
        SysOp::CopyMeta(x, y) => if s.slot(x).has_meta && s.slot(y).present {
            Some(s.with_slot(y, SlotState { has_meta: true, ..s.slot(y) }))
        } else {
            None
        },
        SysOp::WriteStatus(id) => if s.slot(id).present {
            Some(s.with_slot(id, SlotState { has_status: true, ..s.slot(id) }))
        } else {
            None
        },
        SysOp::WriteMarker(id) => if s.slot(id).present {
            Some(s.with_slot(id, SlotState { has_marker: true, ..s.slot(id) }))
        } else {
            None
        },
        SysOp::RemoveMarker(id) => if s.slot(id).has_marker {
            Some(s.with_slot(id, SlotState { has_marker: false, ..s.slot(id) }))
        } else {
            None
        },
        SysOp::Link(name, id) => if s.sysdir && s.link(name) is Absent {
            Some(s.with_link(name, LinkState::To(id)))
        } else {
            None
        },
        SysOp::ExchangeLinks => if s.exchange && !(s.current is Absent) && !(s.staging is Absent) {
            Some(SysState { current: s.staging, staging: s.current, ..s })
        } else {
            None
        },
        SysOp::ReplaceLink => if !(s.staging is Absent) {
            Some(SysState { current: s.staging, staging: LinkState::Absent, ..s })
        } else {
            None
        },
        SysOp::CopyBlobs(x, y) => if s.slot(x).present && s.slot(y).present {
            Some(
                s.with_slot(
                    y,
                    SlotState { has_other: s.slot(y).has_other || s.slot(x).has_other, ..s.slot(y) },
                ),
            )
        } else {
            None
        },
        SysOp::RemoveLink(name) => if !(s.link(name) is Absent) {
            Some(s.with_link(name, LinkState::Absent))
        } else {
            None
        },
    }
}

/// What the system directory holds once the operations `ops` are
/// performed on `s` in their order; `None` where one of them fails.
pub open spec fn run(s: SysState, ops: Seq<SysOp>) -> Option<SysState>
    decreases ops.len(),
{
    if ops.len() == 0 {
        Some(s)
    } else {
        match run(s, ops.drop_last()) {
            Some(t) => apply(t, ops.last()),
            None => None,
        }
    }
}

/// Performing one more operation.
pub proof fn lemma_run_push(s: SysState, ops: Seq<SysOp>, op: SysOp)
    ensures
        run(s, ops.push(op)) == match run(s, ops) {
            Some(t) => apply(t, op),
            None => None,
        },
{
    assert(ops.push(op).drop_last() =~= ops);
}

/// Performing one list of operations after another.
pub proof fn lemma_run_concat(s: SysState, first: Seq<SysOp>, then: Seq<SysOp>)
    ensures
        run(s, first + then) == match run(s, first) {
            Some(t) => run(t, then),
            None => None,
        },
    decreases then.len(),
{
    if then.len() == 0 {
        assert(first + then =~= first);
    } else {
        lemma_run_concat(s, first, then.drop_last());
        assert((first + then).drop_last() =~= first + then.drop_last());
        assert((first + then).last() == then.last());
    }
}

impl SysState {
    /// This state, but for the slot `id`, which holds `s`.
    pub fn put_slot(self, id: SlotId, s: SlotState) -> (r: SysState)
        ensures
            r == self.with_slot(id, s),
    {
        let mut r = self;
        match id {
            SlotId::A => {
                r.a = s;
            },
            SlotId::B => {
                r.b = s;
            },
            SlotId::Temp => {
                r.temp = s;
            },
        }
        r
    }

    /// Where the link `name` leads.
    pub fn link_state(&self, name: LinkName) -> (r: LinkState)
        ensures
            r == self.link(name),
    {
        match name {
            LinkName::Current => self.current,
            LinkName::Staging => self.staging,
        }
    }

    fn create_slot(&self, id: SlotId) -> (r: Option<SysState>)
        ensures
            r == apply(*self, SysOp::CreateSlot(id)),
    {
        let mut slot = self.slot_state(id);
        slot.present = true;
        let mut r = *self;
        r.sysdir = true;
        Some(r.put_slot(id, slot))
    }

    fn remove_slot(&self, id: SlotId, empty: bool) -> (r: Option<SysState>)
        ensures
            r == apply(
                *self,
                if empty {
                    SysOp::RemoveEmptySlot(id)
                } else {
                    SysOp::RemoveSlot(id)
                },
            ),
    {
        let gone = SlotState::observed(false, false, false, false, false, false);
        let slot = self.slot_state(id);
        if !empty || (slot.present && slot.holds_nothing()) {
            Some(self.put_slot(id, gone))
        } else {
            None
        }
    }

    fn exchange_slots(&self, x: SlotId, y: SlotId) -> (r: Option<SysState>)
        ensures
            r == apply(*self, SysOp::ExchangeSlots(x, y)),
    {
        let sx = self.slot_state(x);
        let sy = self.slot_state(y);
        if self.exchange && sx.present && sy.present {
            Some(self.put_slot(x, sy).put_slot(y, sx))
        } else {
            None
        }
    }

    fn copy_blobs(&self, x: SlotId, y: SlotId) -> (r: Option<SysState>)
        ensures
            r == apply(*self, SysOp::CopyBlobs(x, y)),
    {
        let sx = self.slot_state(x);
        let mut sy = self.slot_state(y);
        if sx.present && sy.present {
            sy.has_other = sy.has_other || sx.has_other;
            Some(self.put_slot(y, sy))
        } else {
            None
        }
    }

    fn remove_link(&self, name: LinkName) -> (r: Option<SysState>)
        ensures
            r == apply(*self, SysOp::RemoveLink(name)),
    {
        match self.link_state(name) {
            LinkState::Absent => None,
            _ => {
                let mut r = *self;
                match name {
                    LinkName::Current => {
                        r.current = LinkState::Absent;
                    },
                    LinkName::Staging => {
                        r.staging = LinkState::Absent;
                    },
                }
                Some(r)
            },
        }
    }

    fn replace_link(&self) -> (r: Option<SysState>)
        ensures
            r == apply(*self, SysOp::ReplaceLink),
    {
        match self.staging {
            LinkState::Absent => None,
            _ => {
                let mut r = *self;
                r.current = self.staging;
                r.staging = LinkState::Absent;
                Some(r)
            },
        }
    }

    fn rename_slot(&self, x: SlotId, y: SlotId) -> (r: Option<SysState>)
        ensures
            r == apply(*self, SysOp::RenameSlot(x, y)),
    {
        let gone = SlotState::observed(false, false, false, false, false, false);
        let sx = self.slot_state(x);
        let sy = self.slot_state(y);
        if sx.present && !sy.present && x != y {
            Some(self.put_slot(y, sx).put_slot(x, gone))
        } else {
            None
        }
    }

    fn copy_meta(&self, x: SlotId, y: SlotId) -> (r: Option<SysState>)
        ensures
            r == apply(*self, SysOp::CopyMeta(x, y)),
    {
        let mut sy = self.slot_state(y);
        if self.slot_state(x).has_meta && sy.present {
            sy.has_meta = true;
            Some(self.put_slot(y, sy))
        } else {
            None
        }
    }

    fn write_status(&self, id: SlotId) -> (r: Option<SysState>)
        ensures
            r == apply(*self, SysOp::WriteStatus(id)),
    {
        let mut slot = self.slot_state(id);
        if slot.present {
            slot.has_status = true;
            Some(self.put_slot(id, slot))
        } else {
            None
        }
    }

    fn set_marker(&self, id: SlotId, on: bool) -> (r: Option<SysState>)
        ensures
            r == apply(
                *self,
                if on {
                    SysOp::WriteMarker(id)
                } else {
                    SysOp::RemoveMarker(id)
                },
            ),
    {
        let mut slot = self.slot_state(id);
        if (on && slot.present) || (!on && slot.has_marker) {
            slot.has_marker = on;
            Some(self.put_slot(id, slot))
        } else {
            None
        }
    }

    fn make_link(&self, name: LinkName, id: SlotId) -> (r: Option<SysState>)
        ensures
            r == apply(*self, SysOp::Link(name, id)),
    {
        let free = match self.link_state(name) {
            LinkState::Absent => true,
            _ => false,
        };
        if self.sysdir && free {
            let mut r = *self;
            match name {
                LinkName::Current => {
                    r.current = LinkState::To(id);
                },
                LinkName::Staging => {
                    r.staging = LinkState::To(id);
                },
            }
            Some(r)
        } else {
            None
        }
    }

    fn exchange_links(&self) -> (r: Option<SysState>)
        ensures
            r == apply(*self, SysOp::ExchangeLinks),
    {
        let both = match (self.current, self.staging) {
            (LinkState::Absent, _) => false,
            (_, LinkState::Absent) => false,
            _ => true,
        };
        if self.exchange && both {
            let mut r = *self;
            r.current = self.staging;
            r.staging = self.current;
            Some(r)
        } else {
            None
        }
    }

    /// What the system directory holds once `op` is performed; `None`
    /// where `op` fails.
    pub fn perform(&self, op: SysOp) -> (r: Option<SysState>)
        ensures
            r == apply(*self, op),
    {
        match op {
            SysOp::CreateSysDir => {
                let mut r = *self;
                r.sysdir = true;
                Some(r)
            },
            SysOp::CreateSlot(id) => self.create_slot(id),
            SysOp::RemoveSlot(id) => self.remove_slot(id, false),
            SysOp::RemoveEmptySlot(id) => self.remove_slot(id, true),
            SysOp::ExchangeSlots(x, y) => self.exchange_slots(x, y),
            SysOp::RenameSlot(x, y) => self.rename_slot(x, y),
            SysOp::CopyMeta(x, y) => self.copy_meta(x, y),
            SysOp::WriteStatus(id) => self.write_status(id),
            SysOp::WriteMarker(id) => self.set_marker(id, true),
            SysOp::RemoveMarker(id) => self.set_marker(id, false),
            SysOp::Link(name, id) => self.make_link(name, id),
            SysOp::ExchangeLinks => self.exchange_links(),
            SysOp::ReplaceLink => self.replace_link(),
            SysOp::CopyBlobs(x, y) => self.copy_blobs(x, y),
            SysOp::RemoveLink(name) => self.remove_link(name),
        }
    }

    /// What the system directory holds once the operations `ops` are
    /// performed in their order; `None` where one of them fails.
    pub fn perform_all(&self, ops: &Vec<SysOp>) -> (r: Option<SysState>)
        ensures
            r == run(*self, ops@),
    {
        let mut state = *self;
        let mut i: usize = 0;
        proof {
            assert(ops@.take(0) =~= Seq::<SysOp>::empty());
        }
        while i < ops.len()
            invariant
                i <= ops.len(),
                run(*self, ops@.take(i as int)) == Some(state),
            decreases ops.len() - i,
        {
            proof {
                assert(ops@.take(i + 1) =~= ops@.take(i as int).push(ops@[i as int]));
                lemma_run_push(*self, ops@.take(i as int), ops@[i as int]);
            }
            match state.perform(ops[i]) {
                Some(next) => {
                    state = next;
                },
                None => {
                    proof {
                        lemma_run_fails(*self, ops@, i + 1);
                    }
                    return None;
                },
            }
            i += 1;
        }
        proof {
            assert(ops@.take(i as int) =~= ops@);
        }
        Some(state)
    }
}

/// Once an operation has failed, the run has failed.
pub proof fn lemma_run_fails(s: SysState, ops: Seq<SysOp>, k: int)
    requires
        0 <= k <= ops.len(),
        run(s, ops.take(k)) is None,
    ensures
        run(s, ops) is None,
    decreases ops.len() - k,
{
    if k < ops.len() {
        assert(ops.take(k + 1) =~= ops.take(k).push(ops[k]));
        lemma_run_push(s, ops.take(k), ops[k]);
        lemma_run_fails(s, ops, k + 1);
    } else {
        assert(ops.take(k) =~= ops);
    }
}

} // verus!
