//! What holds of the system directory at every moment of an operation of
//! the manager: after each of the filesystem operations that it asks for,
//! in whatever state a crash or a failure may leave them.

use vstd::prelude::*;
use crate::bconf::defaults::LinkName;
use crate::bconf::defaults::SlotId;
use crate::ociman::ocisys::can_install;
use crate::ociman::ocisys::commit_ops;
use crate::ociman::ocisys::flip_ops;
use crate::ociman::ocisys::init_ops;
use crate::ociman::ocisys::install_commit_ops;
use crate::ociman::ocisys::install_step;
use crate::ociman::ocisys::marker_ops;
use crate::ociman::ocisys::removal;
use crate::ociman::ocisys::stage_ops;
use crate::ociman::ocisys::swap_op;
use crate::ociman::ocisys::swap_ops;
use crate::ociman::ocisys::update_commit_ops;
use crate::ociman::ocisys::update_stage_ops;
use crate::ociman::ocisys::update_step;
use crate::ociman::ocisys::update_target;
use crate::ociman::ocisys::InstallPhase;
use crate::ociman::ocisys::InstallStep;
use crate::ociman::slots::apply;
use crate::ociman::slots::lemma_run_concat;
use crate::ociman::slots::lemma_run_push;
use crate::ociman::slots::run;
use crate::ociman::slots::LinkState;
use crate::ociman::slots::SlotState;
use crate::ociman::slots::SysOp;
use crate::ociman::slots::SysState;

verus! {

/// `p` holds of `t` if there is such a state.
pub open spec fn holds(t: Option<SysState>, p: spec_fn(SysState) -> bool) -> bool {
    match t {
        Some(t) => p(t),
        None => true,
    }
}

/// `p` holds of every state that can be seen while `ops` are performed on
/// `s`: of `s`, and of the state after each operation, up to the first
/// that fails.
pub open spec fn always(s: SysState, ops: Seq<SysOp>, p: spec_fn(SysState) -> bool) -> bool {
    forall|k: int| 0 <= k <= ops.len() ==> holds(#[trigger] run(s, ops.take(k)), p)
}

/// What a single operation leads to.
pub proof fn lemma_run_one(s: SysState, op: SysOp)
    ensures
        run(s, seq![op]) == apply(s, op),
{
    let none = Seq::<SysOp>::empty();
    assert(seq![op] =~= none.push(op));
    lemma_run_push(s, none, op);
    assert(run(s, none) == Some(s));
}

/// Nothing to perform: only the state at hand is seen.
pub proof fn lemma_always_empty(s: SysState, p: spec_fn(SysState) -> bool)
    requires
        p(s),
    ensures
        always(s, Seq::<SysOp>::empty(), p),
{
    assert forall|k: int| 0 <= k <= 0 implies holds(
        #[trigger] run(s, Seq::<SysOp>::empty().take(k)),
        p,
    ) by {
        assert(Seq::<SysOp>::empty().take(k) =~= Seq::<SysOp>::empty());
    }
}

/// One operation: the state before it and the state after it are seen.
pub proof fn lemma_always_one(s: SysState, op: SysOp, p: spec_fn(SysState) -> bool)
    requires
        p(s),
        holds(apply(s, op), p),
    ensures
        always(s, seq![op], p),
{
    let ops = seq![op];
    assert forall|k: int| 0 <= k <= ops.len() implies holds(#[trigger] run(s, ops.take(k)), p) by {
        if k == 0 {
            assert(ops.take(0) =~= Seq::<SysOp>::empty());
        } else {
            assert(ops.take(1) =~= ops);
            lemma_run_one(s, op);
        }
    }
}

/// One list of operations after another.
pub proof fn lemma_always_concat(s: SysState, first: Seq<SysOp>, then: Seq<SysOp>, p: spec_fn(SysState) -> bool)
    requires
        always(s, first, p),
        run(s, first) is Some ==> always(run(s, first)->0, then, p),
    ensures
        always(s, first + then, p),
{
    let ops = first + then;
    assert forall|k: int| 0 <= k <= ops.len() implies holds(#[trigger] run(s, ops.take(k)), p) by {
        if k <= first.len() {
            assert(ops.take(k) =~= first.take(k));
        } else {
            let rest = then.take(k - first.len());
            assert(ops.take(k) =~= first + rest);
            lemma_run_concat(s, first, rest);
            if run(s, first) is Some {
                assert(holds(run(run(s, first)->0, then.take(k - first.len())), p));
            }
        }
    }
}

/// Two operations in a row.
pub proof fn lemma_always_two(s: SysState, one: SysOp, two: SysOp, p: spec_fn(SysState) -> bool)
    requires
        p(s),
        holds(apply(s, one), p),
        apply(s, one) is Some ==> holds(apply(apply(s, one)->0, two), p),
    ensures
        always(s, seq![one, two], p),
        run(s, seq![one, two]) == match apply(s, one) {
            Some(t) => apply(t, two),
            None => None,
        },
{
    lemma_run_one(s, one);
    lemma_always_one(s, one, p);
    if apply(s, one) is Some {
        let t = apply(s, one)->0;
        lemma_run_one(t, two);
        lemma_always_one(t, two, p);
    }
    lemma_always_concat(s, seq![one], seq![two], p);
    lemma_run_concat(s, seq![one], seq![two]);
    assert(seq![one] + seq![two] =~= seq![one, two]);
}

/// An operation where `cond` holds, else none.
proof fn lemma_always_maybe(s: SysState, cond: bool, op: SysOp, p: spec_fn(SysState) -> bool)
    requires
        p(s),
        cond ==> holds(apply(s, op), p),
    ensures
        always(
            s,
            if cond {
                seq![op]
            } else {
                Seq::<SysOp>::empty()
            },
            p,
        ),
        run(
            s,
            if cond {
                seq![op]
            } else {
                Seq::<SysOp>::empty()
            },
        ) == if cond {
            apply(s, op)
        } else {
            Some(s)
        },
{
    lemma_run_one(s, op);
    if cond {
        lemma_always_one(s, op, p);
    } else {
        lemma_always_empty(s, p);
    }
}

/// The activation link is absent or leads to a slot that can be booted.
pub open spec fn link_ok() -> spec_fn(SysState) -> bool {
    |t: SysState| t.link_ok()
}

/// What happens inside the staging slot, where the image is downloaded
/// and the root filesystem is built, does not touch the activation link
/// nor the slot to which it leads.
pub proof fn lemma_staging_is_private(s: SysState, staged: SlotState)
    requires
        s.link_ok(),
    ensures
        s.with_slot(SlotId::Temp, staged).link_ok(),
        s.with_slot(SlotId::Temp, staged).current == s.current,
        s.with_slot(SlotId::Temp, staged).a == s.a,
        s.with_slot(SlotId::Temp, staged).b == s.b,
{
}

/// Running `init` twice in a row changes nothing the second time: once
/// its operations are performed, it asks for none.
pub proof fn lemma_init_idempotent(s: SysState)
    ensures
        run(s, init_ops(s)) is Some,
        init_ops(run(s, init_ops(s))->0) == Seq::<SysOp>::empty(),
{
    let p = |t: SysState| true;
    let one = if s.sysdir {
        Seq::<SysOp>::empty()
    } else {
        seq![SysOp::CreateSysDir]
    };
    let two = if s.a.present {
        Seq::<SysOp>::empty()
    } else {
        seq![SysOp::CreateSlot(SlotId::A)]
    };
    let three = if s.b.present {
        Seq::<SysOp>::empty()
    } else {
        seq![SysOp::CreateSlot(SlotId::B)]
    };
    lemma_always_maybe(s, !s.sysdir, SysOp::CreateSysDir, p);
    let s1 = run(s, one)->0;
    lemma_always_maybe(s1, !s.a.present, SysOp::CreateSlot(SlotId::A), p);
    lemma_run_concat(s, one, two);
    let s2 = run(s, one + two)->0;
    lemma_always_maybe(s2, !s.b.present, SysOp::CreateSlot(SlotId::B), p);
    lemma_run_concat(s, one + two, three);
    let s3 = run(s, init_ops(s))->0;
    assert(s3.sysdir && s3.a.present && s3.b.present);
    assert(init_ops(s3) =~= Seq::<SysOp>::empty());
}

/// `init` leaves the activation link as it is, and the slot to which it
/// leads.
pub proof fn lemma_init_keeps_link(s: SysState)
    requires
        s.link_ok(),
    ensures
        always(s, init_ops(s), link_ok()),
{
    let p = link_ok();
    let one = if s.sysdir {
        Seq::<SysOp>::empty()
    } else {
        seq![SysOp::CreateSysDir]
    };
    let two = if s.a.present {
        Seq::<SysOp>::empty()
    } else {
        seq![SysOp::CreateSlot(SlotId::A)]
    };
    let three = if s.b.present {
        Seq::<SysOp>::empty()
    } else {
        seq![SysOp::CreateSlot(SlotId::B)]
    };
    lemma_always_maybe(s, !s.sysdir, SysOp::CreateSysDir, p);
    let s1 = run(s, one)->0;
    lemma_always_maybe(s1, !s.a.present, SysOp::CreateSlot(SlotId::A), p);
    lemma_always_concat(s, one, two, p);
    lemma_run_concat(s, one, two);
    let s2 = run(s, one + two)->0;
    lemma_always_maybe(s2, !s.b.present, SysOp::CreateSlot(SlotId::B), p);
    lemma_always_concat(s, one + two, three, p);
}

/// Removing the markers of a fresh installation leaves every slot as
/// bootable as it was, and the links as they are.
proof fn lemma_markers(s: SysState, p: spec_fn(SysState) -> bool)
    requires
        p(s),
        forall|t: SysState|
            t.current == s.current && t.a.valid() == s.a.valid() && t.b.valid() == s.b.valid()
                ==> #[trigger] p(t),
    ensures
        always(s, marker_ops(s), p),
{
    let one = if s.a.has_marker {
        seq![SysOp::RemoveMarker(SlotId::A)]
    } else {
        Seq::<SysOp>::empty()
    };
    let two = if s.b.has_marker {
        seq![SysOp::RemoveMarker(SlotId::B)]
    } else {
        Seq::<SysOp>::empty()
    };
    lemma_always_maybe(s, s.a.has_marker, SysOp::RemoveMarker(SlotId::A), p);
    let s1 = run(s, one)->0;
    lemma_always_maybe(s1, s.b.has_marker, SysOp::RemoveMarker(SlotId::B), p);
    lemma_always_concat(s, one, two, p);
}

/// What the activation link and the staging name are after the swap to
/// the slot `id`: the link leads to `id`, and the staging name is free.
pub open spec fn swapped(s: SysState, id: SlotId) -> SysState {
    SysState { current: LinkState::To(id), staging: LinkState::Absent, ..s }
}

/// `t` is `s` but for what is under the staging name, and for the
/// activation link, which is as in `s` or leads to `id`.
pub open spec fn mid_swap(s: SysState, id: SlotId, t: SysState) -> bool {
    &&& t == SysState { current: t.current, staging: t.staging, ..s }
    &&& t.current == s.current || t.current == LinkState::To(id)
}

/// The swap of the activation link, from the removal of what an earlier
/// flip may have left to the removal of the old link: at every moment
/// the activation link is as before or leads to `id`, and nothing else
/// but the staging name changes. Where there are a system directory and
/// an activation link, the swap succeeds.
proof fn lemma_swap(s: SysState, id: SlotId, p: spec_fn(SysState) -> bool)
    requires
        forall|t: SysState| mid_swap(s, id, t) ==> #[trigger] p(t),
    ensures
        always(s, swap_ops(s, id), p),
        run(s, swap_ops(s, id)) is Some ==> run(s, swap_ops(s, id))->0 == swapped(s, id),
        s.sysdir && !(s.current is Absent) ==> run(s, swap_ops(s, id)) is Some,
{
    let clear = if s.staging is Absent {
        Seq::<SysOp>::empty()
    } else {
        seq![SysOp::RemoveLink(LinkName::Staging)]
    };
    let pair = seq![SysOp::Link(LinkName::Staging, id), swap_op(s)];
    let after = if s.exchange {
        seq![SysOp::RemoveLink(LinkName::Staging)]
    } else {
        Seq::<SysOp>::empty()
    };
    let s1 = SysState { staging: LinkState::Absent, ..s };
    assert(mid_swap(s, id, s));
    assert(mid_swap(s, id, s1));
    lemma_always_maybe(s, !(s.staging is Absent), SysOp::RemoveLink(LinkName::Staging), p);
    assert(run(s, clear) == Some(s1));
    let s2 = SysState { staging: LinkState::To(id), ..s };
    let s3 = SysState {
        current: LinkState::To(id),
        staging: if s.exchange {
            s.current
        } else {
            LinkState::Absent
        },
        ..s
    };
    assert(mid_swap(s, id, s2));
    assert(mid_swap(s, id, s3));
    assert(mid_swap(s, id, swapped(s, id)));
    lemma_always_two(s1, SysOp::Link(LinkName::Staging, id), swap_op(s), p);
    lemma_always_concat(s, clear, pair, p);
    lemma_run_concat(s, clear, pair);
    if run(s, clear + pair) is Some {
        assert(run(s, clear + pair) == Some(s3));
        lemma_always_maybe(s3, s.exchange, SysOp::RemoveLink(LinkName::Staging), p);
    }
    lemma_always_concat(s, clear + pair, after, p);
    lemma_run_concat(s, clear + pair, after);
}

/// What the slots hold once the markers of a fresh installation are
/// removed from A and B.
pub open spec fn unmarked(s: SysState) -> SysState {
    SysState {
        a: SlotState { has_marker: false, ..s.a },
        b: SlotState { has_marker: false, ..s.b },
        ..s
    }
}

/// The markers are removed without fail.
proof fn lemma_markers_run(s: SysState)
    ensures
        run(s, marker_ops(s)) == Some(unmarked(s)),
{
    let p = |t: SysState| true;
    let one = if s.a.has_marker {
        seq![SysOp::RemoveMarker(SlotId::A)]
    } else {
        Seq::<SysOp>::empty()
    };
    let two = if s.b.has_marker {
        seq![SysOp::RemoveMarker(SlotId::B)]
    } else {
        Seq::<SysOp>::empty()
    };
    lemma_always_maybe(s, s.a.has_marker, SysOp::RemoveMarker(SlotId::A), p);
    let s1 = run(s, one)->0;
    lemma_always_maybe(s1, s.b.has_marker, SysOp::RemoveMarker(SlotId::B), p);
    lemma_run_concat(s, one, two);
}

/// What the flip to the slot `id` leaves: the activation link leads to
/// `id`; where it was flipped, the staging name is free and no slot
/// carries the marker of a fresh installation.
pub open spec fn flipped(s: SysState, id: SlotId) -> SysState {
    if s.current == LinkState::To(id) {
        s
    } else if s.current is Absent {
        SysState { current: LinkState::To(id), ..s }
    } else {
        unmarked(swapped(s, id))
    }
}

/// The flip succeeds: wherever there is a system directory, the
/// operations that make the activation link lead to `id` can all be
/// performed, whatever an earlier flip has left under the staging name.
/// Afterwards the link leads to `id`, and the staging name is free if the
/// link was flipped or the name was free before.
pub proof fn lemma_flip_succeeds(s: SysState, id: SlotId)
    requires
        s.sysdir,
    ensures
        run(s, flip_ops(s, id)) == Some(flipped(s, id)),
        flipped(s, id).current == LinkState::To(id),
        flipped(s, id).sysdir,
        s.staging is Absent ==> flipped(s, id).staging is Absent,
        s.current != LinkState::To(id) && !(s.current is Absent) ==> flipped(s, id).staging is Absent,
{
    let p = |t: SysState| true;
    if s.current == LinkState::To(id) {
        assert(run(s, Seq::<SysOp>::empty()) == Some(s));
    } else if s.current is Absent {
        lemma_run_one(s, SysOp::Link(LinkName::Current, id));
    } else {
        lemma_swap(s, id, p);
        let t = swapped(s, id);
        assert(marker_ops(t) == marker_ops(s));
        lemma_markers_run(t);
        lemma_run_concat(s, swap_ops(s, id), marker_ops(s));
    }
}

/// The link can be flipped again and again: after the flip to `id`, the
/// flip to any slot succeeds as well.
pub proof fn lemma_flip_again(s: SysState, id: SlotId, next: SlotId)
    requires
        s.sysdir,
    ensures
        run(s, flip_ops(s, id)) is Some,
        run(run(s, flip_ops(s, id))->0, flip_ops(run(s, flip_ops(s, id))->0, next)) is Some,
        run(run(s, flip_ops(s, id))->0, flip_ops(run(s, flip_ops(s, id))->0, next))->0.current
            == LinkState::To(next),
{
    lemma_flip_succeeds(s, id);
    lemma_flip_succeeds(flipped(s, id), next);
}

/// Flipping the link to a slot that can be booted: at every moment the
/// activation link is absent or leads to a slot that can be booted.
pub proof fn lemma_flip_keeps_link(s: SysState, id: SlotId)
    requires
        s.link_ok(),
        id != SlotId::Temp,
        s.slot(id).valid(),
    ensures
        always(s, flip_ops(s, id), link_ok()),
{
    let p = link_ok();
    if s.current == LinkState::To(id) {
        lemma_always_empty(s, p);
    } else if s.current is Absent {
        lemma_always_one(s, SysOp::Link(LinkName::Current, id), p);
    } else {
        assert forall|t: SysState| mid_swap(s, id, t) implies #[trigger] p(t) by {
            assert(t.slot(id) == s.slot(id));
        }
        lemma_swap(s, id, p);
        if run(s, swap_ops(s, id)) is Some {
            let t = run(s, swap_ops(s, id))->0;
            assert(marker_ops(t) == marker_ops(s));
            lemma_markers(t, p);
        }
        lemma_always_concat(s, swap_ops(s, id), marker_ops(s), p);
    }
}

/// What the system directory holds once `init` has created what was
/// missing.
pub open spec fn inited(s: SysState) -> SysState {
    SysState {
        sysdir: true,
        a: SlotState { present: true, ..s.a },
        b: SlotState { present: true, ..s.b },
        ..s
    }
}

/// The operations of `init` succeed, and create what was missing.
pub proof fn lemma_init_runs(s: SysState)
    ensures
        run(s, init_ops(s)) == Some(inited(s)),
{
    let p = |t: SysState| true;
    let one = if s.sysdir {
        Seq::<SysOp>::empty()
    } else {
        seq![SysOp::CreateSysDir]
    };
    let two = if s.a.present {
        Seq::<SysOp>::empty()
    } else {
        seq![SysOp::CreateSlot(SlotId::A)]
    };
    let three = if s.b.present {
        Seq::<SysOp>::empty()
    } else {
        seq![SysOp::CreateSlot(SlotId::B)]
    };
    lemma_always_maybe(s, !s.sysdir, SysOp::CreateSysDir, p);
    let s1 = run(s, one)->0;
    lemma_always_maybe(s1, !s.a.present, SysOp::CreateSlot(SlotId::A), p);
    lemma_run_concat(s, one, two);
    let s2 = run(s, one + two)->0;
    lemma_always_maybe(s2, !s.b.present, SysOp::CreateSlot(SlotId::B), p);
    lemma_run_concat(s, one + two, three);
}

/// Activating a slot as `set_active_by_id` does, which takes a slot that
/// can be booted only: all its operations can be performed; at every
/// moment the activation link is absent or leads to a slot that can be
/// booted; afterwards it leads to `id`.
pub proof fn lemma_activation(s: SysState, id: SlotId)
    requires
        s.link_ok(),
        s.sysdir,
        id != SlotId::Temp,
        s.slot(id).valid(),
    ensures
        always(s, flip_ops(s, id) + init_ops(s), link_ok()),
        run(s, flip_ops(s, id) + init_ops(s)) == Some(inited(flipped(s, id))),
        inited(flipped(s, id)).current == LinkState::To(id),
        inited(flipped(s, id)).link_ok(),
{
    let t = flipped(s, id);
    lemma_flip_keeps_link(s, id);
    lemma_flip_succeeds(s, id);
    assert(init_ops(t) == init_ops(s));
    assert(t.link_ok());
    lemma_init_keeps_link(t);
    lemma_init_runs(t);
    lemma_always_concat(s, flip_ops(s, id), init_ops(s), link_ok());
    lemma_run_concat(s, flip_ops(s, id), init_ops(s));
}

/// The flip is one step: while the activation link, which leads to the
/// slot `from`, is flipped to the slot `id`, it leads to `from` or to
/// `id` at every moment. It is never missing, and never leads anywhere
/// else.
pub proof fn lemma_flip_atomic(s: SysState, from: SlotId, id: SlotId)
    requires
        s.current == LinkState::To(from),
    ensures
        always(
            s,
            flip_ops(s, id),
            |t: SysState| t.current == LinkState::To(from) || t.current == LinkState::To(id),
        ),
{
    let p = |t: SysState| t.current == LinkState::To(from) || t.current == LinkState::To(id);
    if from == id {
        lemma_always_empty(s, p);
    } else {
        lemma_swap(s, id, p);
        if run(s, swap_ops(s, id)) is Some {
            let t = run(s, swap_ops(s, id))->0;
            assert(marker_ops(t) == marker_ops(s));
            lemma_markers(t, p);
        }
        lemma_always_concat(s, swap_ops(s, id), marker_ops(s), p);
    }
}

/// What the slots hold once the staging slot has got the name of the
/// slot `target`.
pub open spec fn committed(s: SysState, target: SlotId) -> SysState {
    s.with_slot(target, s.temp).with_slot(SlotId::Temp, SlotState::absent())
}

/// Renaming the staging slot to a slot that is not there.
proof fn lemma_commit_rename(s: SysState, target: SlotId, p: spec_fn(SysState) -> bool)
    requires
        target != SlotId::Temp,
        !s.slot(target).present,
        p(s),
        s.temp.present ==> p(committed(s, target)),
    ensures
        always(s, seq![SysOp::RenameSlot(SlotId::Temp, target)], p),
        run(s, seq![SysOp::RenameSlot(SlotId::Temp, target)]) == if s.temp.present {
            Some(committed(s, target))
        } else {
            None
        },
{
    lemma_run_one(s, SysOp::RenameSlot(SlotId::Temp, target));
    lemma_always_one(s, SysOp::RenameSlot(SlotId::Temp, target), p);
}

/// Exchanging the staging slot and another, and removing what is then
/// under the staging name.
proof fn lemma_commit_exchange(s: SysState, target: SlotId, spare: bool, p: spec_fn(SysState) -> bool)
    requires
        target != SlotId::Temp,
        s.slot(target).present,
        s.exchange,
        p(s),
        s.temp.present ==> p(s.with_slot(SlotId::Temp, s.slot(target)).with_slot(target, s.temp)),
        s.temp.present ==> p(committed(s, target)),
    ensures
        always(s, seq![SysOp::ExchangeSlots(SlotId::Temp, target), removal(SlotId::Temp, spare)], p),
        run(s, seq![SysOp::ExchangeSlots(SlotId::Temp, target), removal(SlotId::Temp, spare)])
            == if s.temp.present && (!spare || s.slot(target).is_empty()) {
            Some(committed(s, target))
        } else {
            None
        },
{
    let one = SysOp::ExchangeSlots(SlotId::Temp, target);
    let two = removal(SlotId::Temp, spare);
    if s.temp.present {
        let t = s.with_slot(SlotId::Temp, s.slot(target)).with_slot(target, s.temp);
        assert(apply(s, one) == Some(t));
        assert(t.with_slot(SlotId::Temp, SlotState::absent()) == committed(s, target));
        assert(apply(t, two) == if !spare || s.slot(target).is_empty() {
            Some(committed(s, target))
        } else {
            None
        });
    } else {
        assert(apply(s, one) is None);
    }
    lemma_always_two(s, one, two, p);
}

/// Removing a slot and renaming the staging slot to it.
proof fn lemma_commit_remove(s: SysState, target: SlotId, spare: bool, p: spec_fn(SysState) -> bool)
    requires
        target != SlotId::Temp,
        s.slot(target).present,
        !s.exchange,
        p(s),
        p(s.with_slot(target, SlotState::absent())),
        s.temp.present ==> p(committed(s, target)),
    ensures
        always(s, seq![removal(target, spare), SysOp::RenameSlot(SlotId::Temp, target)], p),
        run(s, seq![removal(target, spare), SysOp::RenameSlot(SlotId::Temp, target)])
            == if s.temp.present && (!spare || s.slot(target).is_empty()) {
            Some(committed(s, target))
        } else {
            None
        },
{
    let one = removal(target, spare);
    let two = SysOp::RenameSlot(SlotId::Temp, target);
    let t = s.with_slot(target, SlotState::absent());
    assert(apply(s, one) == if !spare || s.slot(target).is_empty() {
        Some(t)
    } else {
        None
    });
    assert(t.with_slot(target, t.temp).with_slot(SlotId::Temp, SlotState::absent()) == committed(
        s,
        target,
    ));
    assert(apply(t, two) == if s.temp.present {
        Some(committed(s, target))
    } else {
        None
    });
    lemma_always_two(s, one, two, p);
}

/// Giving the staging slot the name of another slot: what is seen is the
/// state before it, the state in between, which depends on what the
/// filesystem can do, and the state after it.
proof fn lemma_commit(s: SysState, target: SlotId, spare: bool, p: spec_fn(SysState) -> bool)
    requires
        target != SlotId::Temp,
        p(s),
        s.exchange && s.temp.present && s.slot(target).present ==> p(
            s.with_slot(SlotId::Temp, s.slot(target)).with_slot(target, s.temp),
        ),
        !s.exchange && s.slot(target).present ==> p(s.with_slot(target, SlotState::absent())),
        s.temp.present ==> p(committed(s, target)),
    ensures
        always(s, commit_ops(s, target, spare), p),
        run(s, commit_ops(s, target, spare)) == if s.temp.present && (!spare || !s.slot(
            target,
        ).present || s.slot(target).is_empty()) {
            Some(committed(s, target))
        } else {
            None
        },
{
    if !s.slot(target).present {
        lemma_commit_rename(s, target, p);
    } else if s.exchange {
        lemma_commit_exchange(s, target, spare, p);
    } else {
        lemma_commit_remove(s, target, spare, p);
    }
}

/// The operations that write the status file into the staging slot, and
/// the marker of a fresh installation if `mark` says so.
pub open spec fn fill_ops(mark: bool) -> Seq<SysOp> {
    if mark {
        seq![SysOp::WriteStatus(SlotId::Temp), SysOp::WriteMarker(SlotId::Temp)]
    } else {
        seq![SysOp::WriteStatus(SlotId::Temp)]
    }
}

/// What the staging slot holds once it is filled.
pub open spec fn filled(s: SysState, mark: bool) -> SysState {
    s.with_slot(
        SlotId::Temp,
        SlotState { has_status: true, has_marker: mark || s.temp.has_marker, ..s.temp },
    )
}

/// Filling the staging slot: it is the only one that changes.
proof fn lemma_fill(s: SysState, mark: bool, p: spec_fn(SysState) -> bool)
    requires
        p(s),
        forall|staged: SlotState| #[trigger] p(s.with_slot(SlotId::Temp, staged)),
    ensures
        always(s, fill_ops(mark), p),
        run(s, fill_ops(mark)) is Some <==> s.temp.present,
        s.temp.present ==> run(s, fill_ops(mark))->0 == filled(s, mark),
{
    lemma_run_one(s, SysOp::WriteStatus(SlotId::Temp));
    let one = SlotState { has_status: true, ..s.temp };
    assert(p(s.with_slot(SlotId::Temp, one)));
    if mark {
        let two = SlotState { has_marker: true, ..one };
        assert(p(s.with_slot(SlotId::Temp, two)));
        if s.temp.present {
            assert(s.with_slot(SlotId::Temp, one).with_slot(SlotId::Temp, two) == s.with_slot(
                SlotId::Temp,
                two,
            ));
        }
        lemma_always_two(s, SysOp::WriteStatus(SlotId::Temp), SysOp::WriteMarker(SlotId::Temp), p);
    } else {
        lemma_always_one(s, SysOp::WriteStatus(SlotId::Temp), p);
    }
}

/// Filling a staging slot that holds a metadata record and a root
/// filesystem, and giving it the name of the slot `target`, to which the
/// activation link does not lead: the activation link stays right, and
/// `target` can then be booted.
proof fn lemma_filled_commit_keeps_link(s: SysState, target: SlotId, spare: bool, mark: bool)
    requires
        s.link_ok(),
        target != SlotId::Temp,
        s.current != LinkState::To(target),
        s.temp.has_meta && s.temp.has_rootfs,
    ensures
        always(s, fill_ops(mark) + commit_ops(s, target, spare), link_ok()),
        run(s, fill_ops(mark) + commit_ops(s, target, spare)) is Some ==> run(
            s,
            fill_ops(mark) + commit_ops(s, target, spare),
        )->0 == committed(filled(s, mark), target) && s.temp.present,
        committed(filled(s, mark), target).link_ok(),
        committed(filled(s, mark), target).slot(target).valid() || !s.temp.present,
{
    let p = link_ok();
    assert forall|staged: SlotState| #[trigger] p(s.with_slot(SlotId::Temp, staged)) by {
        lemma_staging_is_private(s, staged);
    }
    lemma_fill(s, mark, p);
    if s.temp.present {
        let f = filled(s, mark);
        lemma_commit(f, target, spare, p);
        assert(commit_ops(f, target, spare) == commit_ops(s, target, spare));
    }
    lemma_always_concat(s, fill_ops(mark), commit_ops(s, target, spare), p);
    lemma_run_concat(s, fill_ops(mark), commit_ops(s, target, spare));
}

/// The commit of an installation while the activation link leads to the
/// slot A: what A holds is replaced by what can be booted as well, or
/// nothing is changed.
proof fn lemma_install_commit_over_active(s: SysState)
    requires
        s.link_ok(),
        s.current == LinkState::To(SlotId::A),
        s.temp.built(),
    ensures
        always(s, install_commit_ops(s), link_ok()),
{
    let p = link_ok();
    let head = fill_ops(true) + commit_ops(s, SlotId::A, true);
    let link = SysOp::Link(LinkName::Current, SlotId::A);
    assert forall|staged: SlotState| #[trigger] p(s.with_slot(SlotId::Temp, staged)) by {
        lemma_staging_is_private(s, staged);
    }
    lemma_fill(s, true, p);
    let f = filled(s, true);
    assert(commit_ops(f, SlotId::A, true) == commit_ops(s, SlotId::A, true));
    if s.exchange {
        lemma_always_two(
            f,
            SysOp::ExchangeSlots(SlotId::Temp, SlotId::A),
            removal(SlotId::Temp, true),
            p,
        );
    } else {
        lemma_always_two(
            f,
            removal(SlotId::A, true),
            SysOp::RenameSlot(SlotId::Temp, SlotId::A),
            p,
        );
    }
    lemma_always_concat(s, fill_ops(true), commit_ops(s, SlotId::A, true), p);
    lemma_run_concat(s, fill_ops(true), commit_ops(s, SlotId::A, true));
    assert(run(s, head) is None);
    lemma_always_concat(s, head, seq![link], p);
    assert(head + seq![link] =~= install_commit_ops(s));
}

/// Installing: at every moment the activation link is absent or leads to
/// a slot that can be booted.
pub proof fn lemma_install_keeps_link(phase: InstallPhase, s: SysState)
    requires
        s.link_ok(),
    ensures
        match install_step(phase, s) {
            Ok((_, InstallStep::Perform(ops))) => always(s, ops, link_ok()),
            _ => true,
        },
{
    let p = link_ok();
    match phase {
        InstallPhase::Stage => {
            if can_install(s) {
                lemma_always_two(
                    s,
                    SysOp::RemoveSlot(SlotId::Temp),
                    SysOp::CreateSlot(SlotId::Temp),
                    p,
                );
            }
        },
        InstallPhase::Commit => {
            if s.temp.built() {
                if s.current == LinkState::To(SlotId::A) {
                    lemma_install_commit_over_active(s);
                } else {
                    let head = fill_ops(true) + commit_ops(s, SlotId::A, true);
                    let link = SysOp::Link(LinkName::Current, SlotId::A);
                    lemma_filled_commit_keeps_link(s, SlotId::A, true, true);
                    if run(s, head) is Some {
                        let t = run(s, head)->0;
                        lemma_run_one(t, link);
                        lemma_always_one(t, link, p);
                    }
                    lemma_always_concat(s, head, seq![link], p);
                    assert(head + seq![link] =~= install_commit_ops(s));
                }
            }
        },
        _ => {},
    }
}

/// The beginning of an update: the staging slot alone changes.
proof fn lemma_update_stage(s: SysState, target: SlotId)
    requires
        s.link_ok(),
    ensures
        always(s, update_stage_ops(target), link_ok()),
{
    let p = link_ok();
    let active = target.spec_other();
    let copy = seq![SysOp::CopyMeta(active, SlotId::Temp), SysOp::CopyBlobs(active, SlotId::Temp)];
    assert forall|staged: SlotState| #[trigger] p(s.with_slot(SlotId::Temp, staged)) by {
        lemma_staging_is_private(s, staged);
    }
    lemma_always_two(s, SysOp::RemoveSlot(SlotId::Temp), SysOp::CreateSlot(SlotId::Temp), p);
    if run(s, stage_ops()) is Some {
        let t = run(s, stage_ops())->0;
        assert(t == s.with_slot(SlotId::Temp, SlotState::vacant()) || t == SysState {
            sysdir: true,
            ..s.with_slot(SlotId::Temp, SlotState::vacant())
        });
        assert(t.link_ok());
        assert forall|staged: SlotState| #[trigger] p(t.with_slot(SlotId::Temp, staged)) by {
            lemma_staging_is_private(t, staged);
        }
        lemma_always_two(
            t,
            SysOp::CopyMeta(active, SlotId::Temp),
            SysOp::CopyBlobs(active, SlotId::Temp),
            p,
        );
    }
    lemma_always_concat(s, stage_ops(), copy, p);
}

/// The end of an update of the slot `target`, to which the activation
/// link does not lead.
proof fn lemma_update_commit(s: SysState, target: SlotId)
    requires
        s.link_ok(),
        target != SlotId::Temp,
        s.current == LinkState::To(target.spec_other()),
        s.temp.has_meta && s.temp.has_rootfs,
    ensures
        always(s, update_commit_ops(s, target), link_ok()),
{
    let p = link_ok();
    let active = target.spec_other();
    let head = fill_ops(false) + commit_ops(s, target, false);
    let marks = if s.slot(active).has_marker {
        seq![SysOp::RemoveMarker(active)]
    } else {
        Seq::<SysOp>::empty()
    };
    lemma_filled_commit_keeps_link(s, target, false, false);
    if run(s, head) is Some {
        let t = run(s, head)->0;
        assert(t.slot(target).valid());
        assert(t.slot(active) == s.slot(active));
        assert(swap_ops(t, target) == swap_ops(s, target));
        assert forall|u: SysState| mid_swap(t, target, u) implies #[trigger] p(u) by {
            assert(u.slot(target) == t.slot(target));
            assert(u.slot(active) == t.slot(active));
        }
        lemma_swap(t, target, p);
        if run(t, swap_ops(t, target)) is Some {
            let u = run(t, swap_ops(t, target))->0;
            assert(u.slot(active) == s.slot(active));
            lemma_always_maybe(u, s.slot(active).has_marker, SysOp::RemoveMarker(active), p);
        }
        lemma_always_concat(t, swap_ops(t, target), marks, p);
    }
    lemma_always_concat(s, head, swap_ops(s, target) + marks, p);
    assert(head + (swap_ops(s, target) + marks) =~= update_commit_ops(s, target));
}

/// The commit of an update succeeds, again and again: where there is a
/// system directory and the staging slot holds its metadata record and
/// its root filesystem, all operations that end the update of the slot
/// `target` can be performed, whatever an earlier flip has left under the
/// staging name. Afterwards the activation link leads to `target`, which
/// can be booted, and the staging name is free.
pub proof fn lemma_update_commit_succeeds(s: SysState, target: SlotId)
    requires
        s.sysdir,
        target != SlotId::Temp,
        s.current == LinkState::To(target.spec_other()),
        s.temp.built(),
    ensures
        run(s, update_commit_ops(s, target)) is Some,
        run(s, update_commit_ops(s, target))->0.current == LinkState::To(target),
        run(s, update_commit_ops(s, target))->0.slot(target).valid(),
        run(s, update_commit_ops(s, target))->0.staging is Absent,
        !run(s, update_commit_ops(s, target))->0.temp.present,
{
    let p = |t: SysState| true;
    let active = target.spec_other();
    let fill = fill_ops(false);
    let mid = commit_ops(s, target, false);
    let marks = if s.slot(active).has_marker {
        seq![SysOp::RemoveMarker(active)]
    } else {
        Seq::<SysOp>::empty()
    };
    lemma_fill(s, false, p);
    let f = filled(s, false);
    assert(commit_ops(f, target, false) == mid);
    lemma_commit(f, target, false, p);
    lemma_run_concat(s, fill, mid);
    let t = committed(f, target);
    assert(run(s, fill + mid) == Some(t));
    assert(t.slot(target).valid());
    assert(t.slot(active) == s.slot(active));
    assert(swap_ops(t, target) == swap_ops(s, target));
    lemma_swap(t, target, p);
    lemma_run_concat(s, fill + mid, swap_ops(s, target));
    let u = swapped(t, target);
    lemma_always_maybe(u, s.slot(active).has_marker, SysOp::RemoveMarker(active), p);
    lemma_run_concat(s, fill + mid + swap_ops(s, target), marks);
    assert(fill + mid + swap_ops(s, target) + marks =~= update_commit_ops(s, target));
}

/// Updating: at every moment the activation link is absent or leads to a
/// slot that can be booted.
pub proof fn lemma_update_keeps_link(phase: InstallPhase, s: SysState)
    requires
        s.link_ok(),
    ensures
        match update_step(phase, s) {
            Ok((_, InstallStep::Perform(ops))) => always(s, ops, link_ok()),
            _ => true,
        },
{
    if s.a.is_empty() && s.b.is_empty() {
        lemma_install_keeps_link(phase, s);
    } else if update_target(s) is Some {
        let target = update_target(s)->0;
        if phase == InstallPhase::Stage {
            lemma_update_stage(s, target);
        } else if phase == InstallPhase::Commit && s.temp.built() {
            lemma_update_commit(s, target);
        }
    }
}

/// What a crash during an installation may leave: the activation link
/// leads to a slot that can be booted, or there is no link and the slots
/// A and B hold nothing, so that nothing but the staging slot holds
/// anything.
pub open spec fn crash_safe() -> spec_fn(SysState) -> bool {
    |t: SysState|
        (t.link_ok() && !(t.current is Absent)) || (t.current is Absent && t.a.is_empty()
            && t.b.is_empty())
}

/// A crash while the staging slot is made ready leaves no link, and the
/// slots A and B empty.
pub proof fn lemma_stage_crash_safe(s: SysState)
    requires
        can_install(s),
    ensures
        always(s, stage_ops(), crash_safe()),
{
    lemma_always_two(
        s,
        SysOp::RemoveSlot(SlotId::Temp),
        SysOp::CreateSlot(SlotId::Temp),
        crash_safe(),
    );
}

/// A crash while the image is downloaded and the root filesystem is
/// built, which changes the staging slot alone, leaves no link, and the
/// slots A and B empty.
pub proof fn lemma_build_crash_safe(s: SysState, staged: SlotState)
    requires
        can_install(s),
    ensures
        crash_safe()(s.with_slot(SlotId::Temp, staged)),
        can_install(s.with_slot(SlotId::Temp, staged)),
{
}

/// After `k` operations of the commit of an installation, the staging
/// slot has got the name A, and the activation link is not created yet.
pub open spec fn in_install_gap(s: SysState, k: int) -> bool {
    if s.a.present && s.exchange {
        k == 3 || k == 4
    } else {
        k == install_commit_ops(s).len() - 1
    }
}

/// The commit of an installation can begin: the guard was passed, the
/// system directory is there, and the staging slot holds what the
/// download and the materializer leave.
pub open spec fn ready_to_commit(s: SysState) -> bool {
    s.wf() && s.sysdir && can_install(s) && s.temp.built()
}

/// The commit of an installation while the staging slot is filled.
proof fn lemma_install_fill(s: SysState, k: int)
    requires
        ready_to_commit(s),
        0 <= k <= 2,
    ensures
        run(s, fill_ops(true).take(k)) is Some,
        run(s, fill_ops(true).take(k))->0.current is Absent,
        run(s, fill_ops(true).take(k))->0.a == s.a,
        run(s, fill_ops(true).take(k))->0.b == s.b,
        k == 2 ==> run(s, fill_ops(true).take(k)) == Some(filled(s, true)),
{
    let p = |t: SysState| true;
    let fill = fill_ops(true);
    lemma_fill(s, true, p);
    if k == 0 {
        assert(fill.take(0) =~= Seq::<SysOp>::empty());
    } else if k == 1 {
        assert(fill.take(1) =~= seq![SysOp::WriteStatus(SlotId::Temp)]);
        lemma_run_one(s, SysOp::WriteStatus(SlotId::Temp));
    } else {
        assert(fill.take(2) =~= fill);
    }
}

/// The commit of an installation once the staging slot is filled: the
/// renaming succeeds, whatever the filesystem can do.
proof fn lemma_install_rename(f: SysState)
    requires
        f.wf(),
        f.current is Absent,
        f.a.is_empty() && f.b.is_empty(),
        f.temp.valid(),
    ensures
        run(f, commit_ops(f, SlotId::A, true)) == Some(committed(f, SlotId::A)),
        committed(f, SlotId::A).a.valid(),
        committed(f, SlotId::A).b == f.b,
        committed(f, SlotId::A).current is Absent,
        committed(f, SlotId::A).sysdir == f.sysdir,
        f.a.present ==> run(f, seq![commit_ops(f, SlotId::A, true)[0]]) is Some,
        f.a.present ==> ({
            let t = run(f, seq![commit_ops(f, SlotId::A, true)[0]])->0;
            t.current is Absent && t.b == f.b && if f.exchange {
                t.a.valid()
            } else {
                t.a.is_empty()
            }
        }),
{
    let p = |t: SysState| true;
    lemma_commit(f, SlotId::A, true, p);
    if f.a.present {
        lemma_run_one(f, commit_ops(f, SlotId::A, true)[0]);
    }
}

/// The operations of the commit of an installation, in three parts.
proof fn lemma_install_parts(s: SysState)
    ensures
        install_commit_ops(s) == fill_ops(true) + commit_ops(s, SlotId::A, true) + seq![
            SysOp::Link(LinkName::Current, SlotId::A),
        ],
        fill_ops(true).len() == 2,
        commit_ops(s, SlotId::A, true).len() == if s.a.present {
            2nat
        } else {
            1nat
        },
        commit_ops(filled(s, true), SlotId::A, true) == commit_ops(s, SlotId::A, true),
{
    assert(install_commit_ops(s) =~= fill_ops(true) + commit_ops(s, SlotId::A, true) + seq![
        SysOp::Link(LinkName::Current, SlotId::A),
    ]);
}

/// The state after the first `k` operations of the commit of an
/// installation, where the staging slot has the name A by then.
proof fn lemma_install_late(s: SysState, k: int)
    requires
        ready_to_commit(s),
        install_commit_ops(s).len() - 1 <= k <= install_commit_ops(s).len(),
    ensures
        run(s, install_commit_ops(s).take(k)) is Some,
        run(s, install_commit_ops(s).take(k))->0.a.valid(),
        run(s, install_commit_ops(s).take(k))->0.b.is_empty(),
        run(s, install_commit_ops(s).take(k))->0.current == if k == install_commit_ops(s).len() {
            LinkState::To(SlotId::A)
        } else {
            LinkState::Absent
        },
{
    let ops = install_commit_ops(s);
    let fill = fill_ops(true);
    let mid = commit_ops(s, SlotId::A, true);
    let link = SysOp::Link(LinkName::Current, SlotId::A);
    let f = filled(s, true);
    let t = committed(f, SlotId::A);
    lemma_install_parts(s);
    lemma_install_fill(s, 2);
    assert(fill.take(2) =~= fill);
    lemma_install_rename(f);
    lemma_run_concat(s, fill, mid);
    assert(run(s, fill + mid) == Some(t));
    if k == ops.len() {
        assert(ops.take(k) =~= ops);
        lemma_run_one(t, link);
        lemma_run_concat(s, fill + mid, seq![link]);
    } else {
        assert(ops.take(k) =~= fill + mid);
    }
}

/// The state after the first three operations of the commit of an
/// installation, where the slot A was there: the first of the two
/// operations that rename is done.
proof fn lemma_install_third(s: SysState)
    requires
        ready_to_commit(s),
        s.a.present,
    ensures
        run(s, install_commit_ops(s).take(3)) is Some,
        run(s, install_commit_ops(s).take(3))->0.current is Absent,
        run(s, install_commit_ops(s).take(3))->0.b.is_empty(),
        if s.exchange {
            run(s, install_commit_ops(s).take(3))->0.a.valid()
        } else {
            run(s, install_commit_ops(s).take(3))->0.a.is_empty()
        },
{
    let ops = install_commit_ops(s);
    let fill = fill_ops(true);
    let mid = commit_ops(s, SlotId::A, true);
    let f = filled(s, true);
    lemma_install_parts(s);
    lemma_install_fill(s, 2);
    assert(fill.take(2) =~= fill);
    lemma_install_rename(f);
    assert(ops.take(3) =~= fill + seq![mid[0]]);
    lemma_run_concat(s, fill, seq![mid[0]]);
}

/// The commit of an installation, operation by operation: it succeeds;
/// up to the moment at which the staging slot gets the name A there is no
/// link, and the slots A and B hold nothing; then there is no link, the
/// slot A can be booted, and B holds nothing; at the end the link leads
/// to A.
proof fn lemma_install_commit(s: SysState, k: int)
    requires
        ready_to_commit(s),
        0 <= k <= install_commit_ops(s).len(),
    ensures
        run(s, install_commit_ops(s).take(k)) is Some,
        ({
            let t = run(s, install_commit_ops(s).take(k))->0;
            if k == install_commit_ops(s).len() {
                t.current == LinkState::To(SlotId::A) && t.a.valid()
            } else if in_install_gap(s, k) {
                t.current is Absent && t.a.valid() && t.b.is_empty()
            } else {
                t.current is Absent && t.a.is_empty() && t.b.is_empty()
            }
        }),
{
    let ops = install_commit_ops(s);
    lemma_install_parts(s);
    if k <= 2 {
        assert(ops.take(k) =~= fill_ops(true).take(k));
        lemma_install_fill(s, k);
    } else if k >= ops.len() - 1 {
        lemma_install_late(s, k);
    } else {
        lemma_install_third(s);
    }
}

/// A crash during the commit of an installation, after `k` of its
/// operations, leaves the activation link leading to a slot that can be
/// booted, or no link and nothing in the slots A and B. The moments
/// between the renaming of the staging slot and the creation of the link
/// are left out: see `lemma_install_gap`.
pub proof fn lemma_install_crash_safe(s: SysState, k: int)
    requires
        ready_to_commit(s),
        0 <= k <= install_commit_ops(s).len(),
        !in_install_gap(s, k),
    ensures
        run(s, install_commit_ops(s).take(k)) is Some,
        crash_safe()(run(s, install_commit_ops(s).take(k))->0),
{
    lemma_install_commit(s, k);
}

/// The moments that `lemma_install_crash_safe` leaves out. After a crash
/// between the renaming of the staging slot and the creation of the
/// link, there is no link, the slot A holds the new system and can be
/// booted, and B holds nothing.
pub proof fn lemma_install_gap(s: SysState, k: int)
    requires
        ready_to_commit(s),
        0 <= k < install_commit_ops(s).len(),
        in_install_gap(s, k),
    ensures
        run(s, install_commit_ops(s).take(k)) is Some,
        run(s, install_commit_ops(s).take(k))->0.current is Absent,
        run(s, install_commit_ops(s).take(k))->0.a.valid(),
        run(s, install_commit_ops(s).take(k))->0.b.is_empty(),
{
    lemma_install_commit(s, k);
}

/// An installation that is not interrupted ends with the activation link
/// leading to the slot A, which can be booted.
pub proof fn lemma_install_activates(s: SysState)
    requires
        ready_to_commit(s),
    ensures
        run(s, install_commit_ops(s)) is Some,
        run(s, install_commit_ops(s))->0.current == LinkState::To(SlotId::A),
        run(s, install_commit_ops(s))->0.a.valid(),
{
    let ops = install_commit_ops(s);
    lemma_install_commit(s, ops.len() as int);
    assert(ops.take(ops.len() as int) =~= ops);
}

} // verus!
