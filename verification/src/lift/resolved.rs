//! Every branch target the lift leaves is a program point of the body or its
//! end: a forward target waits in a fixup of an open frame until that frame's
//! `end` patches it, so none is left pending once every frame is closed.

use vstd::prelude::*;
use crate::decoder::instruction::Instruction;
use crate::decoder::sections::BodyDecl;
use crate::lift::analysis::{PENDING_BRANCH_TARGET, lift_ok, lift_run};
use crate::lift::model::{
    FrameModel, LiftModel, SuccModel, branched_m, closed_succs, ended_succs, entry_model, fixups_fit_succs, next_m, patch_all_m, patch_m,
    patch_not_taken_m, run_m, step_ok_m, succ_fits, table_m,
};
use crate::lift::program::{Fixup, SuccessorSlot};

verus! {

/// The target successors `s` hold in slot `slot`, if they have that slot.
pub open spec fn target_at(s: SuccModel, slot: SuccessorSlot) -> Option<u32> {
    match (s, slot) {
        (SuccModel::Jump(t), SuccessorSlot::Jump) => Some(t),
        (SuccModel::Branch { taken, .. }, SuccessorSlot::BranchTaken) => Some(taken),
        (SuccModel::Table { targets, .. }, SuccessorSlot::TableEntry(i)) => if i < targets.len() {
            Some(targets[i as int])
        } else {
            None
        },
        (SuccModel::Table { default, .. }, SuccessorSlot::TableDefault) => Some(default),
        _ => None,
    }
}

/// Whether `t` is a program point of a body of `n` points, or its end.
pub open spec fn resolved(t: u32, n: int) -> bool {
    t <= n
}

/// Whether one of `frames` holds a fixup for slot `slot` of point `k`.
pub open spec fn awaited(frames: Seq<FrameModel>, k: int, slot: SuccessorSlot) -> bool {
    exists|i: int, j: int|
        0 <= i < frames.len() && 0 <= j < frames[i].fixups.len() && #[trigger] frames[i].fixups[j] == (Fixup {
            instr_index: k as usize,
            slot,
        })
}

/// Whether one of `frames` is the `if` frame whose `if` is point `k`.
pub open spec fn awaited_else(frames: Seq<FrameModel>, k: int) -> bool {
    exists|i: int| 0 <= i < frames.len() && #[trigger] frames[i].if_instr == Some(k as usize)
}

/// Whether slot `slot` of point `k`, with successors `s`, is resolved or
/// awaited by one of `frames`.
pub open spec fn slot_sound(s: SuccModel, k: int, slot: SuccessorSlot, frames: Seq<FrameModel>, n: int) -> bool {
    match target_at(s, slot) {
        Some(t) => resolved(t, n) || (t == PENDING_BRANCH_TARGET && awaited(frames, k, slot)),
        None => true,
    }
}

/// Whether the `not_taken` target of point `k`, with successors `s`, is
/// resolved or awaited by its `if` frame.
pub open spec fn else_sound(s: SuccModel, k: int, frames: Seq<FrameModel>, n: int) -> bool {
    s is Branch ==> resolved(s->not_taken, n) || (s->not_taken == PENDING_BRANCH_TARGET && awaited_else(frames, k))
}

/// The lift's invariant on targets: every slot is resolved or awaited, every
/// loop header is a point already scheduled, and every pending `if` is a
/// branch already scheduled.
pub open spec fn targets_sound(m: LiftModel) -> bool {
    let n = m.succs.len() as int;
    &&& forall|k: int, slot: SuccessorSlot| 0 <= k < n ==> #[trigger] slot_sound(m.succs[k], k, slot, m.frames, n)
    &&& forall|k: int| 0 <= k < n ==> #[trigger] else_sound(m.succs[k], k, m.frames, n)
    &&& forall|i: int|
        0 <= i < m.frames.len() ==> ((#[trigger] m.frames[i]).loop_header matches Some(h) ==> resolved(h, n))
    &&& forall|i: int|
        0 <= i < m.frames.len() ==> ((#[trigger] m.frames[i]).if_instr matches Some(x) ==> x < n && m.succs[x as int] is Branch)
}

/// Whether every fixup and pending `if` of `f1` is still in `f2`.
pub open spec fn keeps(f1: Seq<FrameModel>, f2: Seq<FrameModel>) -> bool {
    &&& forall|k: int, slot: SuccessorSlot| #[trigger] awaited(f1, k, slot) ==> awaited(f2, k, slot)
    &&& forall|k: int| #[trigger] awaited_else(f1, k) ==> awaited_else(f2, k)
}

/// Opening a frame keeps what the frames await.
proof fn lemma_keeps_push(f: Seq<FrameModel>, x: FrameModel)
    ensures
        keeps(f, f.push(x)),
{
    assert forall|k: int, slot: SuccessorSlot| #[trigger] awaited(f, k, slot) implies awaited(f.push(x), k, slot) by {
        let (i, j) = choose|i: int, j: int|
            0 <= i < f.len() && 0 <= j < f[i].fixups.len() && #[trigger] f[i].fixups[j] == (Fixup { instr_index: k as usize, slot });
        assert(f.push(x)[i] == f[i]);
    }
    assert forall|k: int| #[trigger] awaited_else(f, k) implies awaited_else(f.push(x), k) by {
        let i = choose|i: int| 0 <= i < f.len() && #[trigger] f[i].if_instr == Some(k as usize);
        assert(f.push(x)[i] == f[i]);
    }
}

/// A frame that gains a fixup keeps what it awaited and awaits the new slot.
proof fn lemma_keeps_fixup(f: Seq<FrameModel>, i: int, x: Fixup)
    requires
        0 <= i < f.len(),
    ensures
        keeps(f, f.update(i, FrameModel { fixups: f[i].fixups.push(x), ..f[i] })),
        awaited(f.update(i, FrameModel { fixups: f[i].fixups.push(x), ..f[i] }), x.instr_index as int, x.slot),
{
    let g = f.update(i, FrameModel { fixups: f[i].fixups.push(x), ..f[i] });
    assert forall|k: int, slot: SuccessorSlot| #[trigger] awaited(f, k, slot) implies awaited(g, k, slot) by {
        let (a, b) = choose|a: int, b: int|
            0 <= a < f.len() && 0 <= b < f[a].fixups.len() && #[trigger] f[a].fixups[b] == (Fixup { instr_index: k as usize, slot });
        assert(g[a].fixups[b] == f[a].fixups[b]);
    }
    assert forall|k: int| #[trigger] awaited_else(f, k) implies awaited_else(g, k) by {
        let a = choose|a: int| 0 <= a < f.len() && #[trigger] f[a].if_instr == Some(k as usize);
        assert(g[a].if_instr == f[a].if_instr);
    }
    assert(g[i].fixups[f[i].fixups.len() as int] == x);
    assert(x == (Fixup { instr_index: x.instr_index as int as usize, slot: x.slot }));
}

/// Marking the innermost frame unreachable keeps what the frames await.
proof fn lemma_keeps_unreachable(f: Seq<FrameModel>)
    requires
        f.len() > 0,
    ensures
        keeps(f, f.drop_last().push(FrameModel { unreachable: true, ..f.last() })),
        keeps(f.drop_last().push(FrameModel { unreachable: true, ..f.last() }), f),
{
    let g = f.drop_last().push(FrameModel { unreachable: true, ..f.last() });
    assert forall|a: int| 0 <= a < f.len() implies g[a].fixups == f[a].fixups && g[a].if_instr == f[a].if_instr by {}
    assert forall|k: int, slot: SuccessorSlot| #[trigger] awaited(f, k, slot) implies awaited(g, k, slot) by {
        let (a, b) = choose|a: int, b: int|
            0 <= a < f.len() && 0 <= b < f[a].fixups.len() && #[trigger] f[a].fixups[b] == (Fixup { instr_index: k as usize, slot });
        assert(g[a].fixups[b] == f[a].fixups[b]);
    }
    assert forall|k: int| #[trigger] awaited_else(f, k) implies awaited_else(g, k) by {
        let a = choose|a: int| 0 <= a < f.len() && #[trigger] f[a].if_instr == Some(k as usize);
        assert(g[a].if_instr == f[a].if_instr);
    }
    assert forall|k: int, slot: SuccessorSlot| #[trigger] awaited(g, k, slot) implies awaited(f, k, slot) by {
        let (a, b) = choose|a: int, b: int|
            0 <= a < g.len() && 0 <= b < g[a].fixups.len() && #[trigger] g[a].fixups[b] == (Fixup { instr_index: k as usize, slot });
        assert(g[a].fixups[b] == f[a].fixups[b]);
    }
    assert forall|k: int| #[trigger] awaited_else(g, k) implies awaited_else(f, k) by {
        let a = choose|a: int| 0 <= a < g.len() && #[trigger] g[a].if_instr == Some(k as usize);
        assert(g[a].if_instr == f[a].if_instr);
    }
}

/// Dropping the innermost frame keeps what the other frames await.
proof fn lemma_keeps_drop(f: Seq<FrameModel>)
    requires
        f.len() > 0,
    ensures
        forall|k: int, slot: SuccessorSlot|
            #[trigger] awaited(f, k, slot) ==> awaited(f.drop_last(), k, slot) || exists|j: int|
                0 <= j < f.last().fixups.len() && #[trigger] f.last().fixups[j] == (Fixup { instr_index: k as usize, slot }),
        forall|k: int| #[trigger] awaited_else(f, k) ==> awaited_else(f.drop_last(), k) || f.last().if_instr == Some(k as usize),
{
    assert forall|k: int, slot: SuccessorSlot| #[trigger] awaited(f, k, slot) implies awaited(f.drop_last(), k, slot) || exists|j: int|
        0 <= j < f.last().fixups.len() && #[trigger] f.last().fixups[j] == (Fixup { instr_index: k as usize, slot }) by {
        let (a, b) = choose|a: int, b: int|
            0 <= a < f.len() && 0 <= b < f[a].fixups.len() && #[trigger] f[a].fixups[b] == (Fixup { instr_index: k as usize, slot });
        if a < f.len() - 1 {
            assert(f.drop_last()[a] == f[a]);
        } else {
            assert(f.last().fixups[b] == f[a].fixups[b]);
        }
    }
    assert forall|k: int| #[trigger] awaited_else(f, k) implies awaited_else(f.drop_last(), k) || f.last().if_instr == Some(k as usize) by {
        let a = choose|a: int| 0 <= a < f.len() && #[trigger] f[a].if_instr == Some(k as usize);
        if a < f.len() - 1 {
            assert(f.drop_last()[a] == f[a]);
        }
    }
}

/// Patching the first `c` fixups to `target` changes no slot but to
/// `target`, sets every patched slot that exists to `target`, and keeps which
/// slots each point has and every branch's `not_taken`.
proof fn lemma_patch_all(succs: Seq<SuccModel>, fx: Seq<Fixup>, target: u32, c: int)
    requires
        0 <= c <= fx.len(),
        fixups_fit_succs(succs, fx),
    ensures
        patch_all_m(succs, fx, target, c).len() == succs.len(),
        forall|k: int, slot: SuccessorSlot|
            0 <= k < succs.len() ==> #[trigger] target_at(patch_all_m(succs, fx, target, c)[k], slot) == target_at(succs[k], slot)
                || target_at(patch_all_m(succs, fx, target, c)[k], slot) == Some(target),
        forall|j: int|
            0 <= j < c ==> (target_at(patch_all_m(succs, fx, target, c)[(#[trigger] fx[j]).instr_index as int], fx[j].slot) matches Some(
                t,
            ) ==> t == target),
        forall|k: int, slot: SuccessorSlot|
            0 <= k < succs.len() ==> #[trigger] succ_fits(patch_all_m(succs, fx, target, c)[k], slot) == succ_fits(succs[k], slot),
        forall|k: int|
            0 <= k < succs.len() ==> ((#[trigger] patch_all_m(succs, fx, target, c)[k]) is Branch <==> succs[k] is Branch),
        forall|k: int|
            0 <= k < succs.len() && succs[k] is Branch ==> (#[trigger] patch_all_m(succs, fx, target, c)[k])->not_taken
                == succs[k]->not_taken,
    decreases c,
{
    if c > 0 {
        lemma_patch_all(succs, fx, target, c - 1);
        let prev = patch_all_m(succs, fx, target, c - 1);
        let f = fx[c - 1];
        let x = f.instr_index as int;
        let r = patch_all_m(succs, fx, target, c);
        assert(r == prev.update(x, patch_m(prev[x], f.slot, target)));
        assert(0 <= x < succs.len());
        assert(succ_fits(prev[x], f.slot));
        assert forall|k: int, slot: SuccessorSlot| 0 <= k < succs.len() implies #[trigger] target_at(r[k], slot) == target_at(succs[k], slot)
            || target_at(r[k], slot) == Some(target) by {
            assert(target_at(prev[k], slot) == target_at(succs[k], slot) || target_at(prev[k], slot) == Some(target));
        }
        assert forall|j: int| 0 <= j < c implies (target_at(r[(#[trigger] fx[j]).instr_index as int], fx[j].slot) matches Some(t) ==> t
            == target) by {
            if j < c - 1 {
                assert(target_at(prev[fx[j].instr_index as int], fx[j].slot) matches Some(t) ==> t == target);
            }
        }
        assert forall|k: int, slot: SuccessorSlot| 0 <= k < succs.len() implies #[trigger] succ_fits(r[k], slot) == succ_fits(
            succs[k],
            slot,
        ) by {
            assert(succ_fits(prev[k], slot) == succ_fits(succs[k], slot));
        }
        assert forall|k: int| 0 <= k < succs.len() implies ((#[trigger] r[k]) is Branch <==> succs[k] is Branch) by {
            assert(prev[k] is Branch <==> succs[k] is Branch);
        }
        assert forall|k: int| 0 <= k < succs.len() && succs[k] is Branch implies (#[trigger] r[k])->not_taken == succs[k]->not_taken by {
            assert(prev[k] is Branch);
            assert(prev[k]->not_taken == succs[k]->not_taken);
        }
    }
}

/// Whether `f2` has the frames of `f1`, in order, with their loop headers and
/// pending `if`s.
pub open spec fn same_frames(f1: Seq<FrameModel>, f2: Seq<FrameModel>) -> bool {
    &&& f1.len() == f2.len()
    &&& forall|i: int|
        0 <= i < f1.len() ==> (#[trigger] f2[i]).loop_header == f1[i].loop_header && f2[i].if_instr == f1[i].if_instr
}

/// A branch keeps the state but for a fixup its forward target frame records.
proof fn lemma_branched(m: LiftModel, d: u32, idx: usize, slot: SuccessorSlot)
    requires
        d < m.frames.len(),
    ensures
        branched_m(m, d, idx, slot).succs == m.succs,
        same_frames(m.frames, branched_m(m, d, idx, slot).frames),
        keeps(m.frames, branched_m(m, d, idx, slot).frames),
        m.frames[m.frames.len() - 1 - d].loop_header is None ==> awaited(branched_m(m, d, idx, slot).frames, idx as int, slot),
{
    let i = m.frames.len() - 1 - d;
    let f = m.frames[i];
    if f.loop_header is None {
        lemma_keeps_fixup(m.frames, i, Fixup { instr_index: idx, slot });
    } else {
        assert forall|k: int, sl: SuccessorSlot| #[trigger] awaited(m.frames, k, sl) implies awaited(m.frames, k, sl) by {}
    }
}

/// The entries of a branch table keep the state but for the fixups their
/// forward target frames record.
proof fn lemma_table(m: LiftModel, targets: Seq<u32>, idx: usize, c: int)
    requires
        0 <= c <= targets.len(),
        forall|e: int| 0 <= e < targets.len() ==> #[trigger] targets[e] < m.frames.len(),
    ensures
        table_m(m, targets, idx, c).succs == m.succs,
        same_frames(m.frames, table_m(m, targets, idx, c).frames),
        keeps(m.frames, table_m(m, targets, idx, c).frames),
        forall|e: int|
            0 <= e < c && m.frames[m.frames.len() - 1 - targets[e]].loop_header is None ==> awaited(
                table_m(m, targets, idx, c).frames,
                idx as int,
                SuccessorSlot::TableEntry(e as usize),
            ),
    decreases c,
{
    if c > 0 {
        lemma_table(m, targets, idx, c - 1);
        let prev = table_m(m, targets, idx, c - 1);
        assert(targets[c - 1] < m.frames.len());
        lemma_branched(prev, targets[c - 1], idx, SuccessorSlot::TableEntry((c - 1) as usize));
        let r = table_m(m, targets, idx, c);
        assert(r == branched_m(prev, targets[c - 1], idx, SuccessorSlot::TableEntry((c - 1) as usize)));
        assert forall|k: int, sl: SuccessorSlot| #[trigger] awaited(m.frames, k, sl) implies awaited(r.frames, k, sl) by {
            assert(awaited(prev.frames, k, sl));
        }
        assert forall|k: int| #[trigger] awaited_else(m.frames, k) implies awaited_else(r.frames, k) by {
            assert(awaited_else(prev.frames, k));
        }
        assert forall|e: int|
            0 <= e < c && m.frames[m.frames.len() - 1 - targets[e]].loop_header is None implies awaited(
                r.frames,
                idx as int,
                SuccessorSlot::TableEntry(e as usize),
            ) by {
            if e < c - 1 {
                assert(awaited(prev.frames, idx as int, SuccessorSlot::TableEntry(e as usize)));
            } else {
                assert(prev.frames[prev.frames.len() - 1 - targets[e]].loop_header == m.frames[m.frames.len() - 1 - targets[e]].loop_header);
            }
        }
    }
}

/// A state that schedules one more point, whose frames keep what the old
/// frames awaited and are sound on their own, and whose new point is sound,
/// keeps the invariant.
proof fn lemma_extend(m: LiftModel, m2: LiftModel, sc: SuccModel)
    requires
        targets_sound(m),
        m2.succs == m.succs.push(sc),
        keeps(m.frames, m2.frames),
        forall|slot: SuccessorSlot| #[trigger] slot_sound(sc, m.succs.len() as int, slot, m2.frames, m.succs.len() + 1int),
        else_sound(sc, m.succs.len() as int, m2.frames, m.succs.len() + 1int),
        forall|i: int|
            0 <= i < m2.frames.len() ==> ((#[trigger] m2.frames[i]).loop_header matches Some(h) ==> resolved(h, m.succs.len() + 1int)),
        forall|i: int|
            0 <= i < m2.frames.len() ==> ((#[trigger] m2.frames[i]).if_instr matches Some(x) ==> x < m.succs.len() + 1
                && m2.succs[x as int] is Branch),
    ensures
        targets_sound(m2),
{
    let n = m.succs.len() as int;
    assert forall|k: int, slot: SuccessorSlot| 0 <= k < n + 1 implies #[trigger] slot_sound(m2.succs[k], k, slot, m2.frames, n + 1) by {
        if k < n {
            assert(m2.succs[k] == m.succs[k]);
            assert(slot_sound(m.succs[k], k, slot, m.frames, n));
            if target_at(m.succs[k], slot) is Some && !resolved(target_at(m.succs[k], slot)->0, n) {
                assert(awaited(m.frames, k, slot));
            }
        } else {
            assert(m2.succs[k] == sc);
        }
    }
    assert forall|k: int| 0 <= k < n + 1 implies #[trigger] else_sound(m2.succs[k], k, m2.frames, n + 1) by {
        if k < n {
            assert(m2.succs[k] == m.succs[k]);
            assert(else_sound(m.succs[k], k, m.frames, n));
            if m.succs[k] is Branch && !resolved(m.succs[k]->not_taken, n) {
                assert(awaited_else(m.frames, k));
            }
        } else {
            assert(m2.succs[k] == sc);
        }
    }
}

/// The frames after opening one: the old frames and the new one.
proof fn lemma_open_frames(m: LiftModel, m2: LiftModel, f: FrameModel)
    requires
        targets_sound(m),
        m2.frames == m.frames.push(f),
        m2.succs.len() == m.succs.len() + 1,
        forall|k: int| 0 <= k < m.succs.len() ==> m2.succs[k] == m.succs[k],
        f.loop_header matches Some(h) ==> resolved(h, m.succs.len() + 1int),
        f.if_instr matches Some(x) ==> x < m.succs.len() + 1 && m2.succs[x as int] is Branch,
    ensures
        keeps(m.frames, m2.frames),
        forall|i: int|
            0 <= i < m2.frames.len() ==> ((#[trigger] m2.frames[i]).loop_header matches Some(h) ==> resolved(h, m.succs.len() + 1int)),
        forall|i: int|
            0 <= i < m2.frames.len() ==> ((#[trigger] m2.frames[i]).if_instr matches Some(x) ==> x < m.succs.len() + 1
                && m2.succs[x as int] is Branch),
{
    lemma_keeps_push(m.frames, f);
    assert forall|i: int| 0 <= i < m2.frames.len() implies ((#[trigger] m2.frames[i]).if_instr matches Some(x) ==> x < m.succs.len() + 1
        && m2.succs[x as int] is Branch) by {
        if i < m.frames.len() {
            assert(m2.frames[i] == m.frames[i]);
        }
    }
    assert forall|i: int| 0 <= i < m2.frames.len() implies ((#[trigger] m2.frames[i]).loop_header matches Some(h) ==> resolved(
        h,
        m.succs.len() + 1int,
    )) by {
        if i < m.frames.len() {
            assert(m2.frames[i] == m.frames[i]);
        }
    }
}

/// Frames the same as those of a sound state, with a point scheduled.
proof fn lemma_same_frames(m: LiftModel, m2: LiftModel)
    requires
        targets_sound(m),
        same_frames(m.frames, m2.frames),
        m2.succs.len() == m.succs.len() + 1,
        forall|k: int| 0 <= k < m.succs.len() ==> m2.succs[k] == m.succs[k],
    ensures
        forall|i: int|
            0 <= i < m2.frames.len() ==> ((#[trigger] m2.frames[i]).loop_header matches Some(h) ==> resolved(h, m.succs.len() + 1int)),
        forall|i: int|
            0 <= i < m2.frames.len() ==> ((#[trigger] m2.frames[i]).if_instr matches Some(x) ==> x < m.succs.len() + 1
                && m2.succs[x as int] is Branch),
{
    assert forall|i: int| 0 <= i < m2.frames.len() implies ((#[trigger] m2.frames[i]).if_instr matches Some(x) ==> x < m.succs.len() + 1
        && m2.succs[x as int] is Branch) by {
        assert(m.frames[i].if_instr == m2.frames[i].if_instr);
    }
    assert forall|i: int| 0 <= i < m2.frames.len() implies ((#[trigger] m2.frames[i]).loop_header matches Some(h) ==> resolved(
        h,
        m.succs.len() + 1int,
    )) by {
        assert(m.frames[i].loop_header == m2.frames[i].loop_header);
    }
}

/// Marking the innermost frame unreachable keeps the frames the same.
proof fn lemma_unreachable_same(f: Seq<FrameModel>)
    requires
        f.len() > 0,
    ensures
        same_frames(f, f.drop_last().push(FrameModel { unreachable: true, ..f.last() })),
{
    let g = f.drop_last().push(FrameModel { unreachable: true, ..f.last() });
    assert forall|i: int| 0 <= i < f.len() implies (#[trigger] g[i]).loop_header == f[i].loop_header && g[i].if_instr == f[i].if_instr by {}
}

proof fn lemma_keeps_trans(f1: Seq<FrameModel>, f2: Seq<FrameModel>, f3: Seq<FrameModel>)
    requires
        keeps(f1, f2),
        keeps(f2, f3),
    ensures
        keeps(f1, f3),
{
    assert forall|k: int, slot: SuccessorSlot| #[trigger] awaited(f1, k, slot) implies awaited(f3, k, slot) by {
        assert(awaited(f2, k, slot));
    }
    assert forall|k: int| #[trigger] awaited_else(f1, k) implies awaited_else(f3, k) by {
        assert(awaited_else(f2, k));
    }
}

proof fn lemma_same_trans(f1: Seq<FrameModel>, f2: Seq<FrameModel>, f3: Seq<FrameModel>)
    requires
        same_frames(f1, f2),
        same_frames(f2, f3),
    ensures
        same_frames(f1, f3),
{
    assert forall|i: int| 0 <= i < f1.len() implies (#[trigger] f3[i]).loop_header == f1[i].loop_header && f3[i].if_instr
        == f1[i].if_instr by {
        assert(f2[i].loop_header == f1[i].loop_header);
    }
}

proof fn lemma_keeps_refl(f: Seq<FrameModel>)
    ensures
        keeps(f, f),
        same_frames(f, f),
{
}

/// A branch to depth `d` from point `n`, scheduled as `sc` with its target in
/// slot `slot`, whose frames end as `m2` (perhaps marked unreachable),
/// keeps the invariant.
proof fn lemma_branch_step(m: LiftModel, b: LiftModel, m2: LiftModel, sc: SuccModel)
    requires
        targets_sound(m),
        same_frames(m.frames, b.frames),
        keeps(m.frames, b.frames),
        same_frames(b.frames, m2.frames),
        keeps(b.frames, m2.frames),
        m2.succs == m.succs.push(sc),
        forall|slot: SuccessorSlot| #[trigger] target_at(sc, slot) matches Some(t) ==> resolved(t, m.succs.len() + 1int) || (t
            == PENDING_BRANCH_TARGET && awaited(b.frames, m.succs.len() as int, slot)),
        sc is Branch ==> resolved(sc->not_taken, m.succs.len() + 1int),
    ensures
        targets_sound(m2),
{
    lemma_keeps_trans(m.frames, b.frames, m2.frames);
    lemma_same_trans(m.frames, b.frames, m2.frames);
    lemma_same_frames(m, m2);
    assert forall|slot: SuccessorSlot| #[trigger] slot_sound(sc, m.succs.len() as int, slot, m2.frames, m.succs.len() + 1int) by {
        if target_at(sc, slot) is Some && !resolved(target_at(sc, slot)->0, m.succs.len() + 1int) {
            assert(awaited(b.frames, m.succs.len() as int, slot));
        }
    }
    lemma_extend(m, m2, sc);
}

/// Interpreting an operator that succeeds keeps the invariant.
pub proof fn lemma_step_sound(m: LiftModel, op: Instruction, ta: Seq<(u32, u32)>, fti: Seq<u32>, ra: u32)
    requires
        targets_sound(m),
        step_ok_m(m, op, ta, fti, ra),
    ensures
        targets_sound(next_m(m, op, ta, fti)),
        next_m(m, op, ta, fti).succs.len() == m.succs.len() + 1,
{
    let n = m.succs.len() as int;
    let fr = m.frames;
    let m2 = next_m(m, op, ta, fti);
    lemma_keeps_refl(fr);
    match op {
        Instruction::Block { .. } | Instruction::Loop { .. } => {
            let f = m2.frames.last();
            assert(m2.frames == fr.push(f));
            lemma_open_frames(m, m2, f);
            lemma_extend(m, m2, SuccModel::Fallthrough);
        },
        Instruction::If { .. } => {
            let f = m2.frames.last();
            assert(m2.frames == fr.push(f));
            lemma_open_frames(m, m2, f);
            let sc = SuccModel::Branch { taken: (n + 1) as u32, not_taken: PENDING_BRANCH_TARGET };
            assert(m2.frames[fr.len() as int].if_instr == Some(n as usize));
            assert(awaited_else(m2.frames, n));
            lemma_extend(m, m2, sc);
        },
        Instruction::Br { relative_depth } => {
            let b = branched_m(m, relative_depth, n as usize, SuccessorSlot::Jump);
            lemma_branched(m, relative_depth, n as usize, SuccessorSlot::Jump);
            lemma_keeps_unreachable(b.frames);
            lemma_unreachable_same(b.frames);
            let sc = SuccModel::Jump(crate::lift::model::target_m(fr, relative_depth));
            lemma_branch_step(m, b, m2, sc);
        },
        Instruction::BrIf { relative_depth } => {
            let p = crate::lift::model::popped_m(m, 1);
            let b = branched_m(p, relative_depth, n as usize, SuccessorSlot::BranchTaken);
            lemma_branched(p, relative_depth, n as usize, SuccessorSlot::BranchTaken);
            lemma_keeps_refl(b.frames);
            let sc = SuccModel::Branch { taken: crate::lift::model::target_m(fr, relative_depth), not_taken: (n + 1) as u32 };
            lemma_branch_step(m, b, m2, sc);
        },
        Instruction::BrTable { targets, default } => {
            let p = crate::lift::model::popped_m(m, 1);
            let t = table_m(p, targets@, n as usize, targets@.len() as int);
            lemma_table(p, targets@, n as usize, targets@.len() as int);
            let b = branched_m(t, default, n as usize, SuccessorSlot::TableDefault);
            lemma_branched(t, default, n as usize, SuccessorSlot::TableDefault);
            lemma_keeps_trans(fr, t.frames, b.frames);
            lemma_same_trans(fr, t.frames, b.frames);
            lemma_keeps_unreachable(b.frames);
            lemma_unreachable_same(b.frames);
            let sc = SuccModel::Table {
                targets: targets@.map_values(|d: u32| crate::lift::model::target_m(fr, d)),
                default: crate::lift::model::target_m(fr, default),
            };
            assert forall|slot: SuccessorSlot| #[trigger] target_at(sc, slot) matches Some(x) ==> resolved(x, n + 1) || (x
                == PENDING_BRANCH_TARGET && awaited(b.frames, n, slot)) by {
                match slot {
                    SuccessorSlot::TableEntry(e) => {
                        if (e as int) < targets@.len() {
                            assert(awaited(t.frames, n, slot) ==> awaited(b.frames, n, slot));
                        }
                    },
                    _ => {},
                }
            }
            lemma_branch_step(m, b, m2, sc);
        },
        Instruction::Return | Instruction::Unreachable => {
            let sc = if op is Return {
                SuccModel::Return
            } else {
                SuccModel::Trap
            };
            let sch = crate::lift::model::scheduled_m(m, sc);
            if fr.len() > 0 {
                lemma_keeps_unreachable(fr);
                lemma_unreachable_same(fr);
            }
            lemma_branch_step(m, sch, m2, sc);
        },
        Instruction::Else | Instruction::End => {
            lemma_step_sound_close(m, op, ta, fti, ra);
        },
        _ => {
            lemma_same_frames(m, m2);
            lemma_extend(m, m2, SuccModel::Fallthrough);
        },
    }
}

/// A slot that holds a target is one the successors have.
proof fn lemma_target_fits(s: SuccModel, slot: SuccessorSlot)
    ensures
        target_at(s, slot) is Some ==> succ_fits(s, slot),
{
}

/// An `else` or an `end` that succeeds keeps the invariant.
proof fn lemma_step_sound_close(m: LiftModel, op: Instruction, ta: Seq<(u32, u32)>, fti: Seq<u32>, ra: u32)
    requires
        targets_sound(m),
        step_ok_m(m, op, ta, fti, ra),
        op is Else || op is End,
    ensures
        targets_sound(next_m(m, op, ta, fti)),
        next_m(m, op, ta, fti).succs.len() == m.succs.len() + 1,
{
    let n = m.succs.len() as int;
    let fr = m.frames;
    let t = fr.last();
    let m2 = next_m(m, op, ta, fti);
    lemma_keeps_drop(fr);
    if op is Else {
        let x = t.if_instr->0 as int;
        assert(fr[fr.len() - 1] == t);
        assert(x < n && m.succs[x] is Branch);
        let f = FrameModel {
            unreachable: false,
            fixups: t.fixups.push(Fixup { instr_index: n as usize, slot: SuccessorSlot::Jump }),
            if_instr: None,
            ..t
        };
        let frames2 = fr.drop_last().push(f);
        let s1 = patch_not_taken_m(m.succs, x, (n + 1) as u32);
        assert(m2.frames == frames2);
        assert(m2.succs == s1.push(SuccModel::Jump(PENDING_BRANCH_TARGET)));
        assert forall|k: int, slot: SuccessorSlot| #[trigger] awaited(fr, k, slot) implies awaited(frames2, k, slot) by {
            if awaited(fr.drop_last(), k, slot) {
                let (a, b) = choose|a: int, b: int|
                    0 <= a < fr.drop_last().len() && 0 <= b < fr.drop_last()[a].fixups.len() && #[trigger] fr.drop_last()[a].fixups[b]
                        == (Fixup { instr_index: k as usize, slot });
                assert(frames2[a] == fr.drop_last()[a]);
            } else {
                let j = choose|j: int| 0 <= j < t.fixups.len() && #[trigger] t.fixups[j] == (Fixup { instr_index: k as usize, slot });
                assert(frames2[fr.len() - 1] == f);
                assert(f.fixups[j] == t.fixups[j]);
            }
        }
        assert(frames2[fr.len() - 1].fixups[t.fixups.len() as int] == (Fixup { instr_index: n as usize, slot: SuccessorSlot::Jump }));
        assert(awaited(frames2, n, SuccessorSlot::Jump));
        assert forall|k: int, slot: SuccessorSlot| 0 <= k < n + 1 implies #[trigger] slot_sound(m2.succs[k], k, slot, m2.frames, n + 1) by {
            if k < n {
                assert(m2.succs[k] == s1[k]);
                assert(target_at(s1[k], slot) == target_at(m.succs[k], slot));
                assert(slot_sound(m.succs[k], k, slot, fr, n));
            }
        }
        assert forall|k: int| 0 <= k < n + 1 implies #[trigger] else_sound(m2.succs[k], k, m2.frames, n + 1) by {
            if k < n && k != x {
                assert(m2.succs[k] == m.succs[k]);
                assert(else_sound(m.succs[k], k, fr, n));
                if m.succs[k] is Branch && !resolved(m.succs[k]->not_taken, n) {
                    assert(awaited_else(fr, k));
                    assert(awaited_else(fr.drop_last(), k));
                    let a = choose|a: int| 0 <= a < fr.drop_last().len() && #[trigger] fr.drop_last()[a].if_instr == Some(k as usize);
                    assert(frames2[a] == fr.drop_last()[a]);
                }
            }
        }
        assert forall|i: int| 0 <= i < m2.frames.len() implies ((#[trigger] m2.frames[i]).loop_header matches Some(h) ==> resolved(
            h,
            n + 1,
        )) by {
            if i < fr.len() - 1 {
                assert(m2.frames[i] == fr[i]);
            } else {
                assert(m2.frames[i].loop_header == fr[fr.len() - 1].loop_header);
            }
        }
        assert forall|i: int| 0 <= i < m2.frames.len() implies ((#[trigger] m2.frames[i]).if_instr matches Some(y) ==> y < n + 1
            && m2.succs[y as int] is Branch) by {
            if i < fr.len() - 1 {
                assert(m2.frames[i] == fr[i]);
            }
        }
    } else {
        let target = (n + 1) as u32;
        let succs1 = m.succs.push(SuccModel::Fallthrough);
        assert(fixups_fit_succs(m.succs, t.fixups));
        assert forall|j: int| 0 <= j < t.fixups.len() implies (#[trigger] t.fixups[j]).instr_index < succs1.len() && succ_fits(
            succs1[t.fixups[j].instr_index as int],
            t.fixups[j].slot,
        ) by {
            assert(succs1[t.fixups[j].instr_index as int] == m.succs[t.fixups[j].instr_index as int]);
        }
        lemma_patch_all(succs1, t.fixups, target, t.fixups.len() as int);
        let sp = patch_all_m(succs1, t.fixups, target, t.fixups.len() as int);
        let s2 = ended_succs(succs1, t, target);
        let s3 = closed_succs(m.succs, t, n, fr.len() == 1);
        assert(m2.succs == s3);
        assert(m2.frames == fr.drop_last());
        assert(s2 == match t.if_instr {
            Some(i) => patch_not_taken_m(sp, i as int, target),
            None => sp,
        });
        assert forall|k: int, slot: SuccessorSlot| 0 <= k < n + 1 implies #[trigger] slot_sound(m2.succs[k], k, slot, m2.frames, n + 1) by {
            lemma_target_fits(s3[k], slot);
            if k == n {
                assert(succ_fits(sp[k], slot) == succ_fits(succs1[k], slot));
                assert(s2[k] == sp[k]);
            } else {
                assert(s3[k] == s2[k]);
                assert(target_at(s2[k], slot) == target_at(sp[k], slot));
                assert(target_at(sp[k], slot) == target_at(succs1[k], slot) || target_at(sp[k], slot) == Some(target));
                assert(succs1[k] == m.succs[k]);
                assert(slot_sound(m.succs[k], k, slot, fr, n));
                if target_at(sp[k], slot) == target_at(m.succs[k], slot) && target_at(m.succs[k], slot) is Some && !resolved(
                    target_at(m.succs[k], slot)->0,
                    n + 1,
                ) {
                    assert(awaited(fr, k, slot));
                    if !awaited(fr.drop_last(), k, slot) {
                        let j = choose|j: int| 0 <= j < t.fixups.len() && #[trigger] t.fixups[j] == (Fixup { instr_index: k as usize, slot });
                        assert(target_at(sp[t.fixups[j].instr_index as int], t.fixups[j].slot) matches Some(tt) ==> tt == target);
                    }
                }
            }
        }
        assert forall|k: int| 0 <= k < n + 1 implies #[trigger] else_sound(m2.succs[k], k, m2.frames, n + 1) by {
            if k < n {
                assert(s3[k] == s2[k]);
                assert(succs1[k] == m.succs[k]);
                assert(sp[k] is Branch <==> m.succs[k] is Branch);
                assert(else_sound(m.succs[k], k, fr, n));
                if m.succs[k] is Branch && t.if_instr != Some(k as usize) {
                    assert(s2[k] == sp[k]);
                    if !resolved(m.succs[k]->not_taken, n) {
                        assert(awaited_else(fr, k));
                        assert(awaited_else(fr.drop_last(), k));
                    }
                }
            } else {
                assert(succ_fits(sp[k], SuccessorSlot::BranchTaken) == succ_fits(succs1[k], SuccessorSlot::BranchTaken));
                assert(!(sp[k] is Branch));
            }
        }
        assert forall|i: int| 0 <= i < m2.frames.len() implies ((#[trigger] m2.frames[i]).loop_header matches Some(h) ==> resolved(
            h,
            n + 1,
        )) by {
            assert(m2.frames[i] == fr[i]);
        }
        assert forall|i: int| 0 <= i < m2.frames.len() implies ((#[trigger] m2.frames[i]).if_instr matches Some(y) ==> y < n + 1
            && m2.succs[y as int] is Branch) by {
            assert(m2.frames[i] == fr[i]);
            if fr[i].if_instr is Some {
                let y = fr[i].if_instr->0 as int;
                assert(y < n && m.succs[y] is Branch);
                assert(sp[y] is Branch);
                assert(s3[y] == s2[y]);
            }
        }
    }
}

/// Whether every target of `succs` is a point of the body or its end.
pub open spec fn targets_within(succs: Seq<SuccModel>) -> bool {
    &&& forall|k: int, slot: SuccessorSlot|
        0 <= k < succs.len() ==> (#[trigger] target_at(succs[k], slot) matches Some(t) ==> t <= succs.len())
    &&& forall|k: int| 0 <= k < succs.len() && (#[trigger] succs[k]) is Branch ==> succs[k]->not_taken <= succs.len()
}

/// Every state a run reaches keeps the invariant.
proof fn lemma_run_sound(start: LiftModel, ops: Seq<Instruction>, k: int, ta: Seq<(u32, u32)>, fti: Seq<u32>, ra: u32)
    requires
        targets_sound(start),
        run_m(start, ops, k, ta, fti, ra) is Some,
    ensures
        targets_sound(run_m(start, ops, k, ta, fti, ra)->0),
        k >= 0 ==> run_m(start, ops, k, ta, fti, ra)->0.succs.len() == start.succs.len() + k,
    decreases k,
{
    if k > 0 {
        lemma_run_sound(start, ops, k - 1, ta, fti, ra);
        lemma_step_sound(run_m(start, ops, k - 1, ta, fti, ra)->0, ops[k - 1], ta, fti, ra);
    }
}

/// A function the lift accepts leaves no branch target pending: every target
/// of every program point is a program point of the body or its end, because a
/// forward target waits only while the frame it leaves is open, and the lift
/// accepts a body only once every frame is closed.
pub proof fn law_lift_resolves_every_target(
    type_arities: Seq<(u32, u32)>,
    func_types: Seq<u32>,
    num_imported: u32,
    num_globals: u32,
    code_index: usize,
    body: BodyDecl,
)
    requires
        lift_ok(type_arities, func_types, num_imported, num_globals, code_index, body),
    ensures
        targets_within(lift_run(type_arities, func_types, num_imported, code_index, body)->0.succs),
{
    let results = type_arities[func_types[num_imported + code_index] as int].1;
    let start = entry_model(results);
    assert(targets_sound(start)) by {
        assert(start.frames.len() == 1);
    }
    lemma_run_sound(start, body.instructions@, body.instructions@.len() as int, type_arities, func_types, results);
    let m = lift_run(type_arities, func_types, num_imported, code_index, body)->0;
    assert(m.frames.len() == 0);
    assert forall|k: int, slot: SuccessorSlot| 0 <= k < m.succs.len() implies (#[trigger] target_at(m.succs[k], slot) matches Some(t)
        ==> t <= m.succs.len()) by {
        assert(slot_sound(m.succs[k], k, slot, m.frames, m.succs.len() as int));
        assert(!awaited(m.frames, k, slot));
    }
    assert forall|k: int| 0 <= k < m.succs.len() && (#[trigger] m.succs[k]) is Branch implies m.succs[k]->not_taken <= m.succs.len() by {
        assert(else_sound(m.succs[k], k, m.frames, m.succs.len() as int));
        assert(!awaited_else(m.frames, k));
    }
}

/// A function the lift accepts whose body ends with an `end` returns from its
/// last program point: with every frame closed at the end of the body, that
/// `end` closes the function's own frame.
pub proof fn law_lift_last_returns(
    type_arities: Seq<(u32, u32)>,
    func_types: Seq<u32>,
    num_imported: u32,
    num_globals: u32,
    code_index: usize,
    body: BodyDecl,
)
    requires
        lift_ok(type_arities, func_types, num_imported, num_globals, code_index, body),
        body.instructions@.len() > 0,
        body.instructions@.last() is End,
    ensures
        lift_run(type_arities, func_types, num_imported, code_index, body)->0.succs.len() == body.instructions@.len(),
        lift_run(type_arities, func_types, num_imported, code_index, body)->0.succs.last() == SuccModel::Return,
{
    let results = type_arities[func_types[num_imported + code_index] as int].1;
    let start = entry_model(results);
    let ops = body.instructions@;
    let k = ops.len() as int;
    assert(targets_sound(start)) by {
        assert(start.frames.len() == 1);
    }
    lemma_run_sound(start, ops, k, type_arities, func_types, results);
    let mp = run_m(start, ops, k - 1, type_arities, func_types, results)->0;
    assert(run_m(start, ops, k - 1, type_arities, func_types, results) is Some);
    assert(step_ok_m(mp, ops[k - 1], type_arities, func_types, results));
    let n = mp.succs.len() as int;
    let t = mp.frames.last();
    assert(mp.frames.len() == 1);
    let s1 = patch_all_m(mp.succs.push(SuccModel::Fallthrough), t.fixups, (n + 1) as u32, t.fixups.len() as int);
    lemma_patch_all(mp.succs.push(SuccModel::Fallthrough), t.fixups, (n + 1) as u32, t.fixups.len() as int);
    assert(ended_succs(mp.succs.push(SuccModel::Fallthrough), t, (n + 1) as u32).len() == n + 1);
}

} // verus!
