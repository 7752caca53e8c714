//! What the worker's decisions guarantee, over one wake-up and over runs.

use vstd::prelude::*;
use crate::coordinator::{
    cooldowns_after_writes, cooling, device_writes, last_request, poll_actions, poll_due, step_spec,
    target_value, write_actions, CoordinatorState, Wake, WorkerAction,
};
use crate::protocol::{clamp_spec, MonitorCmd};

verus! {

/// The values carried, in order, by the actions that `pick` selects.
pub open spec fn picked(actions: Seq<WorkerAction>, pick: spec_fn(WorkerAction) -> Option<u32>) -> Seq<u32>
    decreases actions.len(),
{
    if actions.len() == 0 {
        seq![]
    } else {
        match pick(actions.last()) {
            Some(v) => picked(actions.drop_last(), pick).push(v),
            None => picked(actions.drop_last(), pick),
        }
    }
}

pub open spec fn write_pick(index: int) -> spec_fn(WorkerAction) -> Option<u32> {
    |a: WorkerAction|
        match a {
            WorkerAction::Write { index: i, value } => if i as int == index {
                Some(value)
            } else {
                None
            },
            _ => None,
        }
}

pub open spec fn publish_pick(index: int) -> spec_fn(WorkerAction) -> Option<u32> {
    |a: WorkerAction|
        match a {
            WorkerAction::Publish(u) => if u.index as int == index {
                Some(u.brightness)
            } else {
                None
            },
            _ => None,
        }
}

pub open spec fn poll_pick(index: int) -> spec_fn(WorkerAction) -> Option<u32> {
    |a: WorkerAction|
        match a {
            WorkerAction::Poll { index: i } => if i as int == index {
                Some(0u32)
            } else {
                None
            },
            _ => None,
        }
}

pub open spec fn release_pick() -> spec_fn(WorkerAction) -> Option<u32> {
    |a: WorkerAction|
        match a {
            WorkerAction::Release => Some(0u32),
            _ => None,
        }
}

/// The values written to device `index`, in order.
pub open spec fn writes_to(actions: Seq<WorkerAction>, index: int) -> Seq<u32> {
    picked(actions, write_pick(index))
}

/// The brightness values published for device `index`, in order.
pub open spec fn published_to(actions: Seq<WorkerAction>, index: int) -> Seq<u32> {
    picked(actions, publish_pick(index))
}

/// How many times device `index` is polled.
pub open spec fn polls_of(actions: Seq<WorkerAction>, index: int) -> nat {
    picked(actions, poll_pick(index)).len()
}

/// How many times the devices are released.
pub open spec fn releases(actions: Seq<WorkerAction>) -> nat {
    picked(actions, release_pick()).len()
}

/// The state after a run of wake-ups and every action taken, in order.
pub open spec fn run(s: CoordinatorState, wakes: Seq<Wake>) -> (CoordinatorState, Seq<WorkerAction>)
    decreases wakes.len(),
{
    if wakes.len() == 0 {
        (s, seq![])
    } else {
        let before = run(s, wakes.drop_last());
        let last = step_spec(before.0, wakes.last());
        (last.0, before.1 + last.1)
    }
}

/// The actions of wake-up `j` of a run.
pub open spec fn actions_at(s: CoordinatorState, wakes: Seq<Wake>, j: int) -> Seq<WorkerAction> {
    step_spec(run(s, wakes.take(j)).0, wakes[j]).1
}

/// The wake-ups of a run happen at non-decreasing times.
pub open spec fn times_ordered(wakes: Seq<Wake>) -> bool {
    forall|a: int, b: int| 0 <= a <= b < wakes.len() ==> wakes[a].now <= wakes[b].now
}

proof fn lemma_picked_concat(a: Seq<WorkerAction>, b: Seq<WorkerAction>, pick: spec_fn(WorkerAction) -> Option<u32>)
    ensures
        picked(a + b, pick) == picked(a, pick) + picked(b, pick),
    decreases b.len(),
{
    if b.len() == 0 {
        assert(a + b =~= a);
        assert(picked(b, pick) =~= seq![]);
        assert(picked(a, pick) + picked(b, pick) =~= picked(a, pick));
    } else {
        lemma_picked_concat(a, b.drop_last(), pick);
        assert((a + b).drop_last() =~= a + b.drop_last());
        assert((a + b).last() == b.last());
        match pick(b.last()) {
            Some(v) => {
                assert(picked(a, pick) + picked(b.drop_last(), pick).push(v) =~= (picked(a, pick)
                    + picked(b.drop_last(), pick)).push(v));
            },
            None => {},
        }
    }
}

proof fn lemma_picked_one(x: WorkerAction, pick: spec_fn(WorkerAction) -> Option<u32>)
    ensures
        picked(seq![x], pick) == match pick(x) {
            Some(v) => seq![v],
            None => Seq::<u32>::empty(),
        },
{
    assert(seq![x].drop_last() =~= Seq::<WorkerAction>::empty());
    assert(seq![x].last() == x);
    assert(picked(Seq::<WorkerAction>::empty(), pick) =~= Seq::<u32>::empty());
    match pick(x) {
        Some(v) => assert(Seq::<u32>::empty().push(v) =~= seq![v]),
        None => {},
    }
}

proof fn lemma_picked_two(x: WorkerAction, y: WorkerAction, pick: spec_fn(WorkerAction) -> Option<u32>)
    ensures
        picked(seq![x, y], pick) == picked(seq![x], pick) + picked(seq![y], pick),
{
    assert(seq![x, y] =~= seq![x] + seq![y]);
    lemma_picked_concat(seq![x], seq![y], pick);
}

/// Selections from the writes and echoes of devices `0..k`.
proof fn lemma_write_actions(s: CoordinatorState, commands: Seq<MonitorCmd>, k: int, index: int)
    requires
        0 <= index,
        k <= usize::MAX + 1,
    ensures
        writes_to(write_actions(s, commands, k), index) == (if index < k && last_request(
            commands,
            index,
        ) is Some {
            seq![target_value(s, index, last_request(commands, index)->0)]
        } else {
            Seq::<u32>::empty()
        }),
        published_to(write_actions(s, commands, k), index) == (if index < k && last_request(
            commands,
            index,
        ) is Some {
            seq![target_value(s, index, last_request(commands, index)->0)]
        } else {
            Seq::<u32>::empty()
        }),
        polls_of(write_actions(s, commands, k), index) == 0,
        releases(write_actions(s, commands, k)) == 0,
    decreases k,
{
    if k <= 0 {
        assert(picked(Seq::<WorkerAction>::empty(), write_pick(index)) =~= Seq::<u32>::empty());
    } else {
        lemma_write_actions(s, commands, k - 1, index);
        let prev = write_actions(s, commands, k - 1);
        let dev = device_writes(s, commands, k - 1);
        lemma_picked_concat(prev, dev, write_pick(index));
        lemma_picked_concat(prev, dev, publish_pick(index));
        lemma_picked_concat(prev, dev, poll_pick(index));
        lemma_picked_concat(prev, dev, release_pick());
        match last_request(commands, k - 1) {
            Some(v) => {
                let c = target_value(s, k - 1, v);
                let w = WorkerAction::Write { index: (k - 1) as usize, value: c };
                let p = WorkerAction::Publish(
                    crate::protocol::MonitorUpdate { index: (k - 1) as usize, brightness: c },
                );
                assert(dev == seq![w, p]);
                lemma_picked_two(w, p, write_pick(index));
                lemma_picked_two(w, p, publish_pick(index));
                lemma_picked_two(w, p, poll_pick(index));
                lemma_picked_two(w, p, release_pick());
                lemma_picked_one(w, write_pick(index));
                lemma_picked_one(p, write_pick(index));
                lemma_picked_one(w, publish_pick(index));
                lemma_picked_one(p, publish_pick(index));
                lemma_picked_one(w, poll_pick(index));
                lemma_picked_one(p, poll_pick(index));
                lemma_picked_one(w, release_pick());
                lemma_picked_one(p, release_pick());
                if index == k - 1 {
                    assert(picked(dev, write_pick(index)) =~= seq![c]);
                    assert(picked(dev, publish_pick(index)) =~= seq![c]);
                } else {
                    assert(picked(dev, write_pick(index)) =~= Seq::<u32>::empty());
                    assert(picked(dev, publish_pick(index)) =~= Seq::<u32>::empty());
                }
                assert(picked(dev, poll_pick(index)) =~= Seq::<u32>::empty());
                assert(picked(dev, release_pick()) =~= Seq::<u32>::empty());
            },
            None => {
                assert(dev == Seq::<WorkerAction>::empty());
                assert(picked(dev, write_pick(index)) =~= Seq::<u32>::empty());
                assert(picked(dev, publish_pick(index)) =~= Seq::<u32>::empty());
                assert(picked(dev, poll_pick(index)) =~= Seq::<u32>::empty());
                assert(picked(dev, release_pick()) =~= Seq::<u32>::empty());
            },
        }
        assert(writes_to(write_actions(s, commands, k), index) =~= (if index < k && last_request(
            commands,
            index,
        ) is Some {
            seq![target_value(s, index, last_request(commands, index)->0)]
        } else {
            Seq::<u32>::empty()
        }));
        assert(published_to(write_actions(s, commands, k), index) =~= (if index < k
            && last_request(commands, index) is Some {
            seq![target_value(s, index, last_request(commands, index)->0)]
        } else {
            Seq::<u32>::empty()
        }));
    }
}

/// Selections from the polls of devices `0..k`.
proof fn lemma_poll_actions(cooldowns: Seq<Option<u64>>, now: u64, window: u64, k: int, index: int)
    requires
        0 <= index,
        k <= usize::MAX + 1,
    ensures
        writes_to(poll_actions(cooldowns, now, window, k), index) == Seq::<u32>::empty(),
        published_to(poll_actions(cooldowns, now, window, k), index) == Seq::<u32>::empty(),
        polls_of(poll_actions(cooldowns, now, window, k), index) == (if index < k && !cooling(
            cooldowns[index],
            now,
            window,
        ) {
            1nat
        } else {
            0nat
        }),
        releases(poll_actions(cooldowns, now, window, k)) == 0,
    decreases k,
{
    if k <= 0 {
    } else {
        lemma_poll_actions(cooldowns, now, window, k - 1, index);
        let prev = poll_actions(cooldowns, now, window, k - 1);
        if !cooling(cooldowns[k - 1], now, window) {
            let p = WorkerAction::Poll { index: (k - 1) as usize };
            assert(prev.push(p).drop_last() =~= prev);
        }
    }
}

/// What one wake-up does to device `index`.
proof fn lemma_step_device(s: CoordinatorState, wake: Wake, index: int)
    requires
        s.wf(),
        !s.released,
        !wake.disconnected,
        0 <= index < s.device_count(),
    ensures
        ({
            let (t, acts) = step_spec(s, wake);
            let written = cooldowns_after_writes(s, wake.commands, wake.now);
            let polled = poll_due(s, wake.visible, wake.now) && !cooling(
                written[index],
                wake.now,
                s.cooldown_ms,
            );
            &&& writes_to(acts, index) == match last_request(wake.commands, index) {
                Some(v) => seq![target_value(s, index, v)],
                None => Seq::<u32>::empty(),
            }
            &&& published_to(acts, index) == match last_request(wake.commands, index) {
                Some(v) => seq![target_value(s, index, v)],
                None => Seq::<u32>::empty(),
            }
            &&& polls_of(acts, index) == if polled {
                1nat
            } else {
                0nat
            }
            &&& releases(acts) == 0
            &&& t.cooldowns[index] == if polled {
                None
            } else {
                written[index]
            }
            &&& !poll_due(s, wake.visible, wake.now) ==> acts == write_actions(
                s,
                wake.commands,
                s.device_count(),
            )
        }),
{
    let n = s.device_count();
    let written = cooldowns_after_writes(s, wake.commands, wake.now);
    let writes = write_actions(s, wake.commands, n);
    lemma_write_actions(s, wake.commands, n, index);
    if poll_due(s, wake.visible, wake.now) {
        let polls = poll_actions(written, wake.now, s.cooldown_ms, n);
        lemma_poll_actions(written, wake.now, s.cooldown_ms, n, index);
        lemma_picked_concat(writes, polls, write_pick(index));
        lemma_picked_concat(writes, polls, publish_pick(index));
        lemma_picked_concat(writes, polls, poll_pick(index));
        lemma_picked_concat(writes, polls, release_pick());
        assert(writes_to(writes + polls, index) =~= writes_to(writes, index));
        assert(published_to(writes + polls, index) =~= published_to(writes, index));
    }
}

/// Every state reached by a run keeps the device table and the configuration.
proof fn lemma_run_keeps(s: CoordinatorState, wakes: Seq<Wake>)
    requires
        s.wf(),
    ensures
        run(s, wakes).0.wf(),
        run(s, wakes).0.ranges.len() == s.ranges.len(),
        run(s, wakes).0.cooldown_ms == s.cooldown_ms,
        s.released ==> run(s, wakes).0.released,
    decreases wakes.len(),
{
    if wakes.len() > 0 {
        lemma_run_keeps(s, wakes.drop_last());
    }
}

proof fn lemma_run_take(s: CoordinatorState, wakes: Seq<Wake>, m: int)
    requires
        0 <= m < wakes.len(),
    ensures
        run(s, wakes.take(m + 1)).0 == step_spec(run(s, wakes.take(m)).0, wakes[m]).0,
        run(s, wakes.take(m + 1)).1 == run(s, wakes.take(m)).1 + actions_at(s, wakes, m),
{
    assert(wakes.take(m + 1).drop_last() =~= wakes.take(m));
    assert(wakes.take(m + 1).last() == wakes[m]);
}

/// Coalescing: whatever sequence of commands for device `index` was queued
/// before a wake-up, that wake-up writes the device exactly once, with the
/// last requested value (brought into the device's range), and publishes
/// exactly one update for it, carrying that same value; the device is not
/// polled in the same wake-up.
pub proof fn coalescing_law(s: CoordinatorState, wake: Wake, index: int, value: u32)
    requires
        s.wf(),
        !s.released,
        !wake.disconnected,
        0 <= index < s.device_count(),
        last_request(wake.commands, index) == Some(value),
        s.cooldown_ms > 0,
    ensures
        writes_to(step_spec(s, wake).1, index) == seq![target_value(s, index, value)],
        published_to(step_spec(s, wake).1, index) == seq![target_value(s, index, value)],
        polls_of(step_spec(s, wake).1, index) == 0,
{
    lemma_step_device(s, wake, index);
}

/// Clamping: a requested value outside a device's range reaches the device
/// clamped, and the echoed update carries the clamped value, not the request.
pub proof fn clamping_law(s: CoordinatorState, wake: Wake, index: int, value: u32)
    requires
        s.wf(),
        !s.released,
        !wake.disconnected,
        0 <= index < s.device_count(),
        last_request(wake.commands, index) == Some(value),
    ensures
        ({
            let (min, max) = s.ranges[index];
            let acts = step_spec(s, wake).1;
            &&& writes_to(acts, index) == seq![clamp_spec(value, min, max)]
            &&& published_to(acts, index) == seq![clamp_spec(value, min, max)]
            &&& value > max ==> writes_to(acts, index) == seq![max]
            &&& value < min <= max ==> writes_to(acts, index) == seq![min]
        }),
{
    lemma_step_device(s, wake, index);
}

/// Visibility gating: a wake-up while the UI is hidden polls no device, and
/// a single command received while hidden still gives exactly one write and
/// its echo.
pub proof fn hidden_wake_law(s: CoordinatorState, wake: Wake, index: int, value: u32)
    requires
        s.wf(),
        !wake.visible,
    ensures
        forall|j: int| 0 <= j ==> polls_of(#[trigger] step_spec(s, wake).1, j) == 0,
        !s.released && !wake.disconnected && 0 <= index < s.device_count() && wake.commands
            == seq![MonitorCmd::SetBrightness(index as usize, value)] ==> step_spec(s, wake).1
            == seq![
            WorkerAction::Write { index: index as usize, value: target_value(s, index, value) },
            WorkerAction::Publish(
                crate::protocol::MonitorUpdate {
                    index: index as usize,
                    brightness: target_value(s, index, value),
                },
            ),
        ],
{
    let acts = step_spec(s, wake).1;
    assert forall|j: int| 0 <= j implies polls_of(#[trigger] step_spec(s, wake).1, j) == 0 by {
        if s.released {
            assert(picked(acts, poll_pick(j)) =~= Seq::<u32>::empty());
        } else if wake.disconnected {
            lemma_picked_one(WorkerAction::Release, poll_pick(j));
        } else {
            lemma_write_actions(s, wake.commands, s.device_count(), j);
        }
    }
    if !s.released && !wake.disconnected && 0 <= index < s.device_count() && wake.commands
        == seq![MonitorCmd::SetBrightness(index as usize, value)] {
        lemma_single_command(s, wake.commands, index, value, s.device_count());
    }
}

proof fn lemma_single_command(
    s: CoordinatorState,
    commands: Seq<MonitorCmd>,
    index: int,
    value: u32,
    k: int,
)
    requires
        0 <= index <= usize::MAX,
        commands == seq![MonitorCmd::SetBrightness(index as usize, value)],
    ensures
        write_actions(s, commands, k) == if index < k {
            device_writes(s, commands, index)
        } else {
            Seq::<WorkerAction>::empty()
        },
        device_writes(s, commands, index) == seq![
            WorkerAction::Write { index: index as usize, value: target_value(s, index, value) },
            WorkerAction::Publish(
                crate::protocol::MonitorUpdate {
                    index: index as usize,
                    brightness: target_value(s, index, value),
                },
            ),
        ],
    decreases k,
{
    assert(commands.drop_last() =~= Seq::<MonitorCmd>::empty());
    assert(commands.last().target() == index);
    assert(last_request(commands, index) == Some(value));
    if k > 0 {
        lemma_single_command(s, commands, index, value, k - 1);
        if k - 1 != index {
            assert(last_request(commands.drop_last(), k - 1) is None);
            assert(last_request(commands, k - 1) is None);
            assert(write_actions(s, commands, k) =~= write_actions(s, commands, k - 1));
        } else {
            assert(write_actions(s, commands, k) =~= device_writes(s, commands, index));
        }
    }
}

/// Holds of each wake-up after one that wrote device `index` at time `from`,
/// while the cooldown window has not elapsed.
proof fn lemma_cooldown_persists(
    s: CoordinatorState,
    wakes: Seq<Wake>,
    k: int,
    m: int,
    j: int,
    index: int,
)
    requires
        s.wf(),
        times_ordered(wakes),
        0 <= k < m <= j < wakes.len(),
        0 <= index < s.device_count(),
        writes_to(actions_at(s, wakes, k), index).len() > 0,
        wakes[j].now < wakes[k].now + s.cooldown_ms,
    ensures
        ({
            let st = run(s, wakes.take(m)).0;
            st.released || (st.cooldowns[index] is Some && st.cooldowns[index]->0 >= wakes[k].now)
        }),
    decreases m - k,
{
    lemma_run_keeps(s, wakes.take(m - 1));
    lemma_run_take(s, wakes, m - 1);
    let prev = run(s, wakes.take(m - 1)).0;
    let wake = wakes[m - 1];
    if prev.released {
        return;
    }
    if wake.disconnected {
        return;
    }
    lemma_step_device(prev, wake, index);
    let written = cooldowns_after_writes(prev, wake.commands, wake.now);
    if m - 1 == k {
        assert(last_request(wake.commands, index) is Some);
        assert(written[index] == Some(wake.now));
    } else {
        lemma_cooldown_persists(s, wakes, k, m - 1, j, index);
        assert(wakes[k].now <= wake.now);
    }
    assert(wake.now <= wakes[j].now);
    assert(cooling(written[index], wake.now, prev.cooldown_ms));
}

/// Write cooldown: once a wake-up at time `T` has written device `index`, no
/// wake-up before `T + cooldown` polls that device, so no poll-derived update
/// for it can be published in that window.
pub proof fn write_cooldown_law(s: CoordinatorState, wakes: Seq<Wake>, k: int, j: int, index: int)
    requires
        s.wf(),
        times_ordered(wakes),
        0 <= k <= j < wakes.len(),
        0 <= index < s.device_count(),
        writes_to(actions_at(s, wakes, k), index).len() > 0,
        wakes[j].now < wakes[k].now + s.cooldown_ms,
    ensures
        polls_of(actions_at(s, wakes, j), index) == 0,
{
    lemma_run_keeps(s, wakes.take(j));
    let st = run(s, wakes.take(j)).0;
    let wake = wakes[j];
    if st.released {
        assert(picked(actions_at(s, wakes, j), poll_pick(index)) =~= Seq::<u32>::empty());
        return;
    }
    if wake.disconnected {
        lemma_picked_one(WorkerAction::Release, poll_pick(index));
        return;
    }
    lemma_step_device(st, wake, index);
    let written = cooldowns_after_writes(st, wake.commands, wake.now);
    if j == k {
        assert(last_request(wake.commands, index) is Some);
    } else {
        lemma_cooldown_persists(s, wakes, k, j, j, index);
        assert(wakes[k].now <= wake.now);
    }
    assert(cooling(written[index], wake.now, st.cooldown_ms));
}

/// Shutdown: when the command queue is first seen disconnected, the devices
/// are released exactly once over the whole run, and nothing at all is done
/// after the release.
pub proof fn shutdown_law(s: CoordinatorState, wakes: Seq<Wake>, k: int)
    requires
        s.wf(),
        !s.released,
        0 <= k < wakes.len(),
        wakes[k].disconnected,
        forall|m: int| 0 <= m < k ==> !(#[trigger] wakes[m]).disconnected,
    ensures
        releases(run(s, wakes).1) == 1,
        run(s, wakes).1.last() == WorkerAction::Release,
{
    lemma_release_once(s, wakes, k, wakes.len() as int);
    assert(wakes.take(wakes.len() as int) =~= wakes);
}

proof fn lemma_release_once(s: CoordinatorState, wakes: Seq<Wake>, k: int, m: int)
    requires
        s.wf(),
        !s.released,
        0 <= k < wakes.len(),
        wakes[k].disconnected,
        forall|i: int| 0 <= i < k ==> !(#[trigger] wakes[i]).disconnected,
        0 <= m <= wakes.len(),
    ensures
        m <= k ==> !run(s, wakes.take(m)).0.released && releases(run(s, wakes.take(m)).1) == 0,
        m > k ==> run(s, wakes.take(m)).0.released && releases(run(s, wakes.take(m)).1) == 1
            && run(s, wakes.take(m)).1.last() == WorkerAction::Release,
    decreases m,
{
    if m == 0 {
        assert(wakes.take(0) =~= Seq::<Wake>::empty());
        assert(picked(Seq::<WorkerAction>::empty(), release_pick()) =~= Seq::<u32>::empty());
    } else {
        lemma_release_once(s, wakes, k, m - 1);
        lemma_run_take(s, wakes, m - 1);
        lemma_run_keeps(s, wakes.take(m - 1));
        let prev = run(s, wakes.take(m - 1));
        let acts = actions_at(s, wakes, m - 1);
        lemma_picked_concat(prev.1, acts, release_pick());
        if m - 1 < k {
            let wake = wakes[m - 1];
            assert(!wake.disconnected);
            let st = prev.0;
            if st.device_count() > 0 {
                lemma_step_device(st, wake, 0);
            } else {
                lemma_write_actions(st, wake.commands, st.device_count(), 0);
                if poll_due(st, wake.visible, wake.now) {
                    lemma_poll_actions(
                        cooldowns_after_writes(st, wake.commands, wake.now),
                        wake.now,
                        st.cooldown_ms,
                        st.device_count(),
                        0,
                    );
                    lemma_picked_concat(
                        write_actions(st, wake.commands, st.device_count()),
                        poll_actions(
                            cooldowns_after_writes(st, wake.commands, wake.now),
                            wake.now,
                            st.cooldown_ms,
                            st.device_count(),
                        ),
                        release_pick(),
                    );
                }
            }
        } else if m - 1 == k {
            lemma_picked_one(WorkerAction::Release, release_pick());
            assert(acts == seq![WorkerAction::Release]);
        } else {
            assert(acts == Seq::<WorkerAction>::empty());
            assert(prev.1 + acts =~= prev.1);
            assert(picked(acts, release_pick()) =~= Seq::<u32>::empty());
        }
    }
}

} // verus!
