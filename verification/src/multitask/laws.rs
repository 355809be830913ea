//! Laws of the dispatch decision, stated over the scheduler's mathematical
//! view and proved once and for all: what the round-robin search returns,
//! that a freed slot never comes back into rotation, that a started task is
//! reached within one full rotation, and that a fixed set of ready slots is
//! served exactly once per rotation, in rotation order.

use vstd::prelude::*;
use vstd::arithmetic::div_mod::lemma_mod_multiples_vanish;
use vstd::arithmetic::div_mod::lemma_small_mod;
use vstd::set_lib::set_int_range;
use vstd::set_lib::lemma_int_range;
use vstd::set_lib::lemma_len_subset;
use vstd::set_lib::lemma_subset_equality;
use crate::multitask::SchedState;

verus! {

/// The slot reached from `from` after walking `offset` places around the
/// rotation of `n` slots.
pub open spec fn rot_index(n: int, from: int, offset: int) -> int {
    (from + offset) % n
}

/// How many places the rotation must advance from `from` to reach `to`:
/// a value in `[1, n]`, with `n` meaning a full turn back to `from` itself.
pub open spec fn rot_offset(n: int, from: int, to: int) -> int {
    if to > from {
        to - from
    } else {
        to - from + n
    }
}

/// Walking `rot_offset` places from `from` indeed reaches `to`.
pub proof fn lemma_rot_offset_reaches(n: int, from: int, to: int)
    requires
        0 <= from < n,
        0 <= to < n,
    ensures
        1 <= rot_offset(n, from, to) <= n,
        rot_index(n, from, rot_offset(n, from, to)) == to,
{
    if to > from {
        lemma_small_mod(to as nat, n as nat);
    } else {
        lemma_mod_multiples_vanish(1, to, n);
        lemma_small_mod(to as nat, n as nat);
    }
}

/// Distinct slots lie at distinct offsets from the same starting point.
pub proof fn lemma_rot_offset_injective(n: int, from: int, t1: int, t2: int)
    requires
        0 <= from < n,
        0 <= t1 < n,
        0 <= t2 < n,
        rot_offset(n, from, t1) == rot_offset(n, from, t2),
    ensures
        t1 == t2,
{
}

/// A walked index is the slot whose offset was walked.
pub proof fn lemma_rot_index_offset(n: int, from: int, offset: int)
    requires
        0 <= from < n,
        1 <= offset <= n,
    ensures
        0 <= rot_index(n, from, offset) < n,
        rot_offset(n, from, rot_index(n, from, offset)) == offset,
{
    if from + offset < n {
        lemma_small_mod((from + offset) as nat, n as nat);
    } else {
        lemma_mod_multiples_vanish(1, from + offset - n, n);
        lemma_small_mod((from + offset - n) as nat, n as nat);
    }
}

/// What the round-robin search means: a found offset is the first one in
/// `[offset, cap]` leading to a runnable slot, and a miss means no offset
/// in that range leads to one.
pub proof fn lemma_search_props(st: SchedState, current: int, offset: int)
    requires
        st.wf(),
        1 <= offset <= st.cap() + 1,
    ensures
        match st.first_runnable_offset_from(current, offset) {
            Some(o) => {
                &&& offset <= o <= st.cap()
                &&& st.runnable(rot_index(st.cap(), current, o))
                &&& forall|k: int|
                    offset <= k < o ==> !st.runnable(rot_index(st.cap(), current, k))
            },
            None => forall|k: int|
                offset <= k <= st.cap() ==> !st.runnable(rot_index(st.cap(), current, k)),
        },
    decreases st.cap() + 1 - offset,
{
    if offset <= st.cap() {
        if !st.runnable(rot_index(st.cap(), current, offset)) {
            lemma_search_props(st, current, offset + 1);
        }
    }
}

/// What the allocation scan means: a found slot is the first unoccupied
/// one at or after `slot`, and a miss means every slot from `slot` on is
/// occupied. With slot 0 reserved, allocation therefore fails exactly when
/// all `cap - 1` usable slots hold tasks.
pub proof fn lemma_first_free_props(st: SchedState, slot: int)
    requires
        st.wf(),
        1 <= slot <= st.cap(),
    ensures
        match st.first_free_from(slot) {
            Some(s) => {
                &&& slot <= s < st.cap()
                &&& st.contexts[s] is None
                &&& forall|j: int| slot <= j < s ==> st.contexts[j] is Some
            },
            None => forall|j: int| slot <= j < st.cap() ==> st.contexts[j] is Some,
        },
    decreases st.cap() - slot,
{
    if slot < st.cap() && !(st.contexts[slot] is None) {
        lemma_first_free_props(st, slot + 1);
    }
}

/// A dispatch decision leaves a well-formed scheduler well-formed, never
/// moves a slot table's length, never touches the start metadata, and only
/// rewrites the outgoing slot's context.
pub proof fn lemma_step_frame(st: SchedState, rsp: usize)
    requires
        st.wf(),
    ensures
        st.step(rsp).wf(),
        st.step(rsp).cap() == st.cap(),
        st.step(rsp).stack_base == st.stack_base,
        st.step(rsp).starts == st.starts,
        forall|j: int|
            0 <= j < st.cap() && j != st.current ==> st.step(rsp).contexts[j] == st.contexts[j],
        st.step(rsp).current == st.current || st.step(rsp).runnable(st.step(rsp).current),
{
    let mid = st.with_current_saved(rsp);
    lemma_search_props(mid, st.current, 1);
    match mid.first_runnable_offset(st.current) {
        Some(o) => {
            lemma_rot_index_offset(st.cap(), st.current, o);
        },
        None => {},
    }
}

/// A slot that holds no task is never chosen by a dispatch decision, and
/// stays empty through it. Together with `clear_slot`'s contract this makes
/// `stop()` permanent: no later decision selects the stopped slot.
pub proof fn lemma_empty_slot_skipped(st: SchedState, rsp: usize, s: int)
    requires
        st.wf(),
        0 <= s < st.cap(),
        st.contexts[s] is None,
    ensures
        st.step(rsp).wf(),
        st.step(rsp).contexts[s] is None,
        st.step(rsp).starts[s] == st.starts[s],
        st.current != s ==> st.step(rsp).current != s,
        // The search never picks the empty slot as a switch target, even
        // when the running slot itself was just freed.
        st.with_current_saved(rsp).next_ready(st.current) != Some(s),
{
    lemma_step_frame(st, rsp);
    let mid = st.with_current_saved(rsp);
    assert(mid.contexts[s] is None);
    assert(!mid.runnable(s));
    lemma_search_props(mid, st.current, 1);
    match mid.first_runnable_offset(st.current) {
        Some(o) => {
            lemma_rot_index_offset(st.cap(), st.current, o);
        },
        None => {},
    }
}

/// The scheduler after a whole sequence of dispatch decisions, each handed
/// the stack handle under which the then-running task was saved.
pub open spec fn run_steps(st: SchedState, rsps: Seq<usize>) -> SchedState
    decreases rsps.len(),
{
    if rsps.len() == 0 {
        st
    } else {
        run_steps(st.step(rsps[0]), rsps.drop_first())
    }
}

/// However many further timer interrupts occur, a freed slot stays empty,
/// keeps no start metadata, and is never selected: stopping is permanent.
pub proof fn lemma_stop_is_permanent(st: SchedState, rsps: Seq<usize>, s: int)
    requires
        st.wf(),
        0 <= s < st.cap(),
        st.contexts[s] is None,
        st.starts[s] is None,
        st.current != s,
    ensures
        run_steps(st, rsps).wf(),
        run_steps(st, rsps).contexts[s] is None,
        run_steps(st, rsps).starts[s] is None,
        run_steps(st, rsps).current != s,
    decreases rsps.len(),
{
    if rsps.len() > 0 {
        lemma_empty_slot_skipped(st, rsps[0], s);
        lemma_step_frame(st, rsps[0]);
        lemma_stop_is_permanent(st.step(rsps[0]), rsps.drop_first(), s);
    }
}

/// Peeling one decision off a prefix of a decision sequence.
pub proof fn lemma_run_take_unfold(st: SchedState, rsps: Seq<usize>, k: int)
    requires
        1 <= k <= rsps.len(),
    ensures
        run_steps(st, rsps.take(k)) == run_steps(st.step(rsps[0]), rsps.drop_first().take(k - 1)),
{
    let t = rsps.take(k);
    assert(t[0] == rsps[0]);
    assert(t.drop_first() =~= rsps.drop_first().take(k - 1));
}

/// A runnable slot is selected after at most `rot_offset` further dispatch
/// decisions — whatever stack handles those decisions are handed.
pub proof fn lemma_runnable_slot_reached(st: SchedState, rsps: Seq<usize>, s: int)
    requires
        st.wf(),
        st.runnable(s),
        rsps.len() >= rot_offset(st.cap(), st.current, s),
    ensures
        exists|k: int|
            0 <= k <= rot_offset(st.cap(), st.current, s) && run_steps(
                st,
                rsps.take(k),
            ).current == s,
    decreases rot_offset(st.cap(), st.current, s),
{
    let n = st.cap();
    let d = rot_offset(n, st.current, s);
    lemma_rot_offset_reaches(n, st.current, s);
    if st.current == s {
        assert(run_steps(st, rsps.take(0)).current == s);
    } else {
        let st1 = st.step(rsps[0]);
        let mid = st.with_current_saved(rsps[0]);
        lemma_step_frame(st, rsps[0]);
        assert(st1.runnable(s));
        lemma_search_props(mid, st.current, 1);
        assert(mid.runnable(s)) by {
            assert(mid.contexts[s] == st.contexts[s]);
        }
        let found = mid.first_runnable_offset(st.current);
        assert(found is Some) by {
            if found is None {
                assert(!mid.runnable(rot_index(n, st.current, d)));
            }
        }
        let o = found->Some_0;
        assert(o <= d) by {
            if o > d {
                assert(!mid.runnable(rot_index(n, st.current, d)));
            }
        }
        lemma_rot_index_offset(n, st.current, o);
        assert(st1.current == rot_index(n, st.current, o));
        if st1.current == s {
            lemma_run_take_unfold(st, rsps, 1);
            assert(run_steps(st, rsps.take(1)).current == s);
        } else {
            assert(o < d) by {
                assert(rot_index(n, st.current, d) == s);
            }
            assert(rot_offset(n, st1.current, s) == d - o) by {
                lemma_rot_index_offset(n, st.current, o);
            }
            lemma_runnable_slot_reached(st1, rsps.drop_first(), s);
            let k1 = choose|k1: int|
                0 <= k1 <= rot_offset(n, st1.current, s) && run_steps(
                    st1,
                    rsps.drop_first().take(k1),
                ).current == s;
            lemma_run_take_unfold(st, rsps, k1 + 1);
            assert(run_steps(st, rsps.take(k1 + 1)).current == s);
        }
    }
}

/// Offsets from a common start compose: reaching `t2` from `t1` takes the
/// difference of their offsets whenever `t1` lies strictly before `t2`.
pub proof fn lemma_rot_offset_chain(n: int, from: int, t1: int, t2: int)
    requires
        0 <= from < n,
        0 <= t1 < n,
        0 <= t2 < n,
        rot_offset(n, from, t1) < rot_offset(n, from, t2),
    ensures
        rot_offset(n, t1, t2) == rot_offset(n, from, t2) - rot_offset(n, from, t1),
{
}

/// After `start()` has made a slot runnable, some dispatch decision within
/// the next full rotation — at most one per slot — selects it.
pub proof fn lemma_started_task_selected(st: SchedState, rsps: Seq<usize>, s: int)
    requires
        st.wf(),
        st.runnable(s),
        rsps.len() >= st.cap(),
    ensures
        exists|k: int| 0 <= k <= st.cap() && run_steps(st, rsps.take(k)).current == s,
{
    lemma_rot_offset_reaches(st.cap(), st.current, s);
    lemma_runnable_slot_reached(st, rsps, s);
    let k = choose|k: int|
        0 <= k <= rot_offset(st.cap(), st.current, s) && run_steps(st, rsps.take(k)).current == s;
    assert(run_steps(st, rsps.take(k)).current == s);
}

/// The rotation's membership: every slot the dispatcher may switch into.
pub open spec fn ready_set(st: SchedState) -> Set<int> {
    Set::new(|i: int| st.runnable(i))
}

/// The running slot, if occupied, is itself fit for rotation. Dispatch
/// decisions whose incoming handle passes validation keep this.
pub open spec fn current_intact(st: SchedState) -> bool {
    st.contexts[st.current] is Some ==> st.runnable(st.current)
}

/// Every decision of the sequence is handed a stack handle that passes
/// validation for the slot it suspends — the normal case, where each task
/// is preempted with an intact stack.
pub open spec fn handles_ok(st: SchedState, rsps: Seq<usize>) -> bool
    decreases rsps.len(),
{
    rsps.len() == 0 || {
        &&& (st.contexts[st.current] is Some ==> st.handle_ok(st.current, rsps[0] as int))
        &&& handles_ok(st.step(rsps[0]), rsps.drop_first())
    }
}

/// The slots chosen by successive dispatch decisions.
pub open spec fn selections(st: SchedState, rsps: Seq<usize>) -> Seq<int>
    decreases rsps.len(),
{
    if rsps.len() == 0 {
        Seq::empty()
    } else {
        seq![st.step(rsps[0]).current] + selections(st.step(rsps[0]), rsps.drop_first())
    }
}

/// The rotation's membership is finite: it is a set of slot indices.
pub proof fn lemma_ready_set_finite(st: SchedState)
    requires
        st.wf(),
    ensures
        ready_set(st).finite(),
        ready_set(st).len() <= st.cap(),
{
    lemma_int_range(0, st.cap());
    assert(ready_set(st).subset_of(set_int_range(0, st.cap())));
    lemma_len_subset(ready_set(st), set_int_range(0, st.cap()));
}

/// One dispatch decision under an intact incoming handle: the rotation's
/// membership does not move, the running slot stays intact, and — when
/// anything is runnable at all — the chosen slot is the member with the
/// smallest rotation offset from the outgoing slot.
pub proof fn lemma_step_keeps_rotation(st: SchedState, rsp: usize)
    requires
        st.wf(),
        current_intact(st),
        st.contexts[st.current] is Some ==> st.handle_ok(st.current, rsp as int),
    ensures
        st.step(rsp).wf(),
        ready_set(st.step(rsp)) =~= ready_set(st),
        current_intact(st.step(rsp)),
        ready_set(st).len() > 0 ==> {
            &&& ready_set(st).contains(st.step(rsp).current)
            &&& forall|r: int|
                ready_set(st).contains(r) ==> rot_offset(st.cap(), st.current, st.step(rsp).current)
                    <= rot_offset(st.cap(), st.current, r)
        },
{
    let n = st.cap();
    let mid = st.with_current_saved(rsp);
    lemma_step_frame(st, rsp);
    lemma_ready_set_finite(st);
    assert(ready_set(mid) =~= ready_set(st)) by {
        assert forall|j: int| mid.runnable(j) == st.runnable(j) by {
            if 0 <= j < n && j != st.current {
                assert(mid.contexts[j] == st.contexts[j]);
            }
        }
    }
    lemma_search_props(mid, st.current, 1);
    match mid.first_runnable_offset(st.current) {
        Some(o) => {
            lemma_rot_index_offset(n, st.current, o);
            let c1 = rot_index(n, st.current, o);
            assert(st.step(rsp).current == c1);
            assert(mid.runnable(c1));
            assert(st.step(rsp).contexts == mid.contexts);
            assert(st.step(rsp).runnable(c1));
            assert forall|r: int| ready_set(st).contains(r) implies rot_offset(n, st.current, c1)
                <= rot_offset(n, st.current, r) by {
                lemma_rot_offset_reaches(n, st.current, r);
                if rot_offset(n, st.current, r) < o {
                    assert(!mid.runnable(rot_index(n, st.current, rot_offset(n, st.current, r))));
                }
            }
        },
        None => {
            // No slot passed validation; the decision stands pat. Were any
            // slot runnable, the search would have found one.
            assert forall|r: int| !ready_set(st).contains(r) by {
                if st.runnable(r) {
                    lemma_rot_offset_reaches(n, st.current, r);
                    assert(!mid.runnable(rot_index(n, st.current, rot_offset(n, st.current, r))));
                }
            }
            assert(ready_set(st).len() == 0) by {
                assert(ready_set(st) =~= Set::<int>::empty());
            }
        },
    }
}

/// Selections of a run, one decision at a time: each chosen slot is in the
/// rotation, their offsets from the starting slot strictly increase, and
/// they are exactly the members with the smallest offsets.
pub proof fn lemma_fair_aux(st: SchedState, rsps: Seq<usize>)
    requires
        st.wf(),
        current_intact(st),
        handles_ok(st, rsps),
        rsps.len() <= ready_set(st).len(),
    ensures
        selections(st, rsps).len() == rsps.len(),
        forall|i: int|
            0 <= i < rsps.len() ==> ready_set(st).contains(#[trigger] selections(st, rsps)[i]),
        forall|i: int, j: int|
            0 <= i < j < rsps.len() ==> rot_offset(st.cap(), st.current, selections(st, rsps)[i])
                < rot_offset(st.cap(), st.current, selections(st, rsps)[j]),
        rsps.len() >= 1 ==> forall|r: int|
            ready_set(st).contains(r) && rot_offset(st.cap(), st.current, r) <= rot_offset(
                st.cap(),
                st.current,
                selections(st, rsps).last(),
            ) ==> selections(st, rsps).contains(r),
    decreases rsps.len(),
{
    let n = st.cap();
    let c0 = st.current;
    let sel = selections(st, rsps);
    if rsps.len() > 0 {
        lemma_ready_set_finite(st);
        let st1 = st.step(rsps[0]);
        let dr = rsps.drop_first();
        let c1 = st1.current;
        let sel1 = selections(st1, dr);
        assert(sel == seq![c1] + sel1);
        lemma_step_keeps_rotation(st, rsps[0]);
        assert(ready_set(st).len() > 0);
        assert(ready_set(st).contains(c1));
        assert(0 <= c1 < n);
        lemma_fair_aux(st1, dr);
        lemma_rot_offset_reaches(n, c0, c1);

        // Selected slots never repeat the head: the head sits at the
        // maximal offset from itself, a full turn.
        assert forall|i: int| 0 <= i < sel1.len() implies sel1[i] != c1 by {
            if sel1[i] == c1 {
                assert(rot_offset(n, c1, c1) == n);
                // every member would then be among the first i + 1 selections
                assert forall|r: int|
                    ready_set(st1).contains(r) implies sel1.contains(r) by {
                    lemma_rot_offset_reaches(n, c1, r);
                    assert(rot_offset(n, c1, r) <= rot_offset(n, c1, sel1.last()));
                }
                assert(ready_set(st1).subset_of(sel1.to_set()));
                sel1.unique_seq_to_set();
                vstd::seq_lib::seq_to_set_is_finite(sel1);
                lemma_len_subset(ready_set(st1), sel1.to_set());
                assert(ready_set(st1).len() <= sel1.len());
                assert(ready_set(st1) == ready_set(st));
            }
        }
        assert(sel1.no_duplicates());

        // Translate offsets measured from the new running slot back to
        // offsets measured from the starting slot.
        assert forall|i: int| 0 <= i < sel1.len() implies rot_offset(n, c0, c1) < rot_offset(
            n,
            c0,
            sel1[i],
        ) && rot_offset(n, c1, sel1[i]) == rot_offset(n, c0, sel1[i]) - rot_offset(n, c0, c1) by {
            lemma_rot_offset_reaches(n, c0, sel1[i]);
            assert(rot_offset(n, c0, c1) <= rot_offset(n, c0, sel1[i]));
            if rot_offset(n, c0, c1) == rot_offset(n, c0, sel1[i]) {
                lemma_rot_offset_injective(n, c0, c1, sel1[i]);
            }
            lemma_rot_offset_chain(n, c0, c1, sel1[i]);
        }

        assert forall|i: int, j: int| 0 <= i < j < rsps.len() implies rot_offset(n, c0, sel[i])
            < rot_offset(n, c0, sel[j]) by {
            if i == 0 {
                assert(sel[j] == sel1[j - 1]);
            } else {
                assert(sel[i] == sel1[i - 1] && sel[j] == sel1[j - 1]);
            }
        }

        // Completeness: everything at or below the last selection's offset
        // has been selected.
        assert(rsps.len() >= 1);
        assert forall|r: int|
            ready_set(st).contains(r) && rot_offset(n, c0, r) <= rot_offset(n, c0, sel.last())
                implies sel.contains(r) by {
            lemma_rot_offset_reaches(n, c0, r);
            if r == c1 {
                assert(sel[0] == c1);
            } else {
                assert(rot_offset(n, c0, c1) <= rot_offset(n, c0, r));
                if rot_offset(n, c0, c1) == rot_offset(n, c0, r) {
                    lemma_rot_offset_injective(n, c0, c1, r);
                }
                assert(rot_offset(n, c0, c1) < rot_offset(n, c0, r));
                lemma_rot_offset_chain(n, c0, c1, r);
                if sel1.len() == 0 {
                    assert(sel.last() == c1);
                    assert(false);
                } else {
                    assert(sel.last() == sel1.last());
                    assert(rot_offset(n, c1, r) <= rot_offset(n, c1, sel1.last()));
                    assert(sel1.contains(r));
                    let w = choose|w: int| 0 <= w < sel1.len() && sel1[w] == r;
                    assert(sel[w + 1] == r);
                }
            }
        }
    }
}

/// Round-robin fairness. In a scheduler whose rotation holds `k` slots,
/// `k` consecutive dispatch decisions — each handed a handle that passes
/// validation for the slot it suspends — select every member of the
/// rotation exactly once, in rotation order starting just after the
/// previously running slot. The starting state is arbitrary, so this holds
/// of every window of `k` consecutive decisions.
pub proof fn lemma_round_robin_fairness(st: SchedState, rsps: Seq<usize>)
    requires
        st.wf(),
        current_intact(st),
        handles_ok(st, rsps),
        rsps.len() == ready_set(st).len(),
        ready_set(st).len() >= 1,
    ensures
        selections(st, rsps).len() == ready_set(st).len(),
        selections(st, rsps).no_duplicates(),
        forall|r: int| ready_set(st).contains(r) <==> selections(st, rsps).contains(r),
        forall|i: int, j: int|
            0 <= i < j < selections(st, rsps).len() ==> rot_offset(
                st.cap(),
                st.current,
                selections(st, rsps)[i],
            ) < rot_offset(st.cap(), st.current, selections(st, rsps)[j]),
{
    let n = st.cap();
    let sel = selections(st, rsps);
    lemma_fair_aux(st, rsps);
    lemma_ready_set_finite(st);
    assert(sel.no_duplicates());
    sel.unique_seq_to_set();
    assert(sel.to_set().subset_of(ready_set(st))) by {
        assert forall|r: int| sel.to_set().contains(r) implies ready_set(st).contains(r) by {}
    }
    lemma_subset_equality(sel.to_set(), ready_set(st));
    assert forall|r: int| ready_set(st).contains(r) implies sel.contains(r) by {
        assert(sel.to_set().contains(r));
    }
}

} // verus!
