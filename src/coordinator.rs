//! The worker's decisions, as a state machine.
//!
//! The worker owns every device handle. Each time it wakes it hands this
//! module what it saw (visibility, the commands it drained, whether the
//! command queue was disconnected, the time) and receives the ordered list of
//! actions to carry out: hardware writes, updates to publish, hardware polls
//! and, once, the release of all devices.

use vstd::prelude::*;
use crate::protocol::{clamp_brightness, clamp_spec, MonitorCmd, MonitorUpdate};

verus! {

/// How long polled values of a device are distrusted after a write.
pub const WRITE_COOLDOWN_MS: u64 = 4000;

/// How often devices are polled while the UI is visible.
pub const POLL_INTERVAL_MS: u64 = 5000;

/// One thing the worker has to do.
#[derive(Clone, Copy, Debug, PartialEq, Eq, Structural)]
pub enum WorkerAction {
    /// Call `set(value)` on the device at `index`.
    Write { index: usize, value: u32 },
    /// Send this update to the UI.
    Publish(MonitorUpdate),
    /// Call `poll()` on the device at `index` and pass the outcome to
    /// `Coordinator::record_poll`.
    Poll { index: usize },
    /// Release every device handle; the worker then stops.
    Release,
}

/// The abstract state of the worker.
pub struct CoordinatorState {
    /// The `(min, max)` range that writes to each device are clamped to.
    pub ranges: Seq<(u32, u32)>,
    /// Per device, the time of the last write while its cooldown may still run.
    pub cooldowns: Seq<Option<u64>>,
    /// When the last poll round started.
    pub last_poll: u64,
    pub cooldown_ms: u64,
    pub poll_interval_ms: u64,
    /// Whether the devices have been released.
    pub released: bool,
}

impl CoordinatorState {
    pub open spec fn wf(self) -> bool {
        &&& self.ranges.len() == self.cooldowns.len()
        &&& self.ranges.len() <= usize::MAX
    }

    pub open spec fn device_count(self) -> int {
        self.ranges.len() as int
    }
}

/// What the worker observed when it woke up.
pub struct Wake {
    pub visible: bool,
    pub commands: Seq<MonitorCmd>,
    pub disconnected: bool,
    pub now: u64,
}

pub open spec fn commands_in_range(commands: Seq<MonitorCmd>, n: int) -> bool {
    forall|k: int| 0 <= k < commands.len() ==> 0 <= #[trigger] commands[k].target() < n
}

/// The value of the last command in `commands` addressed to `index`.
pub open spec fn last_request(commands: Seq<MonitorCmd>, index: int) -> Option<u32>
    decreases commands.len(),
{
    if commands.len() == 0 {
        None
    } else if commands.last().target() == index {
        Some(commands.last().requested())
    } else {
        last_request(commands.drop_last(), index)
    }
}

/// Whether a cooldown entry still suppresses polling at `now`.
pub open spec fn cooling(entry: Option<u64>, now: u64, window: u64) -> bool {
    match entry {
        Some(t) => now < t + window,
        None => false,
    }
}

pub open spec fn poll_due(s: CoordinatorState, visible: bool, now: u64) -> bool {
    visible && now >= s.last_poll + s.poll_interval_ms
}

/// The value written to device `index` when `value` is requested.
pub open spec fn target_value(s: CoordinatorState, index: int, value: u32) -> u32 {
    clamp_spec(value, s.ranges[index].0, s.ranges[index].1)
}

/// The write and its echo for one device, if a command addressed it.
pub open spec fn device_writes(
    s: CoordinatorState,
    commands: Seq<MonitorCmd>,
    index: int,
) -> Seq<WorkerAction> {
    match last_request(commands, index) {
        Some(v) => seq![
            WorkerAction::Write { index: index as usize, value: target_value(s, index, v) },
            WorkerAction::Publish(
                MonitorUpdate { index: index as usize, brightness: target_value(s, index, v) },
            ),
        ],
        None => seq![],
    }
}

/// The writes and echoes for devices `0..k`, in device order.
pub open spec fn write_actions(s: CoordinatorState, commands: Seq<MonitorCmd>, k: int) -> Seq<
    WorkerAction,
>
    decreases k,
{
    if k <= 0 {
        seq![]
    } else {
        write_actions(s, commands, k - 1) + device_writes(s, commands, k - 1)
    }
}

pub open spec fn cooldowns_after_writes(
    s: CoordinatorState,
    commands: Seq<MonitorCmd>,
    now: u64,
) -> Seq<Option<u64>> {
    Seq::new(
        s.cooldowns.len(),
        |i: int|
            if last_request(commands, i) is Some {
                Some(now)
            } else {
                s.cooldowns[i]
            },
    )
}

/// The polls of devices `0..k` whose cooldown does not suppress them.
pub open spec fn poll_actions(cooldowns: Seq<Option<u64>>, now: u64, window: u64, k: int) -> Seq<
    WorkerAction,
>
    decreases k,
{
    if k <= 0 {
        seq![]
    } else if cooling(cooldowns[k - 1], now, window) {
        poll_actions(cooldowns, now, window, k - 1)
    } else {
        poll_actions(cooldowns, now, window, k - 1).push(WorkerAction::Poll { index: (k - 1) as usize })
    }
}

/// Entries whose window has elapsed are cleared by a poll round.
pub open spec fn cooldowns_after_poll(cooldowns: Seq<Option<u64>>, now: u64, window: u64) -> Seq<
    Option<u64>,
> {
    Seq::new(
        cooldowns.len(),
        |i: int|
            if cooling(cooldowns[i], now, window) {
                cooldowns[i]
            } else {
                None
            },
    )
}

/// One wake-up of the worker: the next state and the actions, in order.
pub open spec fn step_spec(s: CoordinatorState, wake: Wake) -> (CoordinatorState, Seq<WorkerAction>) {
    if s.released {
        (s, seq![])
    } else if wake.disconnected {
        (
            CoordinatorState {
                ranges: s.ranges,
                cooldowns: s.cooldowns,
                last_poll: s.last_poll,
                cooldown_ms: s.cooldown_ms,
                poll_interval_ms: s.poll_interval_ms,
                released: true,
            },
            seq![WorkerAction::Release],
        )
    } else {
        let written = cooldowns_after_writes(s, wake.commands, wake.now);
        let writes = write_actions(s, wake.commands, s.device_count());
        if poll_due(s, wake.visible, wake.now) {
            (
                CoordinatorState {
                    ranges: s.ranges,
                    cooldowns: cooldowns_after_poll(written, wake.now, s.cooldown_ms),
                    last_poll: wake.now,
                    cooldown_ms: s.cooldown_ms,
                    poll_interval_ms: s.poll_interval_ms,
                    released: false,
                },
                writes + poll_actions(written, wake.now, s.cooldown_ms, s.device_count()),
            )
        } else {
            (
                CoordinatorState {
                    ranges: s.ranges,
                    cooldowns: written,
                    last_poll: s.last_poll,
                    cooldown_ms: s.cooldown_ms,
                    poll_interval_ms: s.poll_interval_ms,
                    released: false,
                },
                writes,
            )
        }
    }
}

/// The state after a poll of device `index` came back with `polled`.
pub open spec fn record_poll_spec(
    s: CoordinatorState,
    index: int,
    polled: Option<(u32, u32, u32)>,
) -> (CoordinatorState, Option<MonitorUpdate>) {
    match polled {
        Some((current, min, max)) => (
            CoordinatorState {
                ranges: s.ranges.update(index, (min, max)),
                cooldowns: s.cooldowns,
                last_poll: s.last_poll,
                cooldown_ms: s.cooldown_ms,
                poll_interval_ms: s.poll_interval_ms,
                released: s.released,
            },
            Some(MonitorUpdate { index: index as usize, brightness: current }),
        ),
        None => (s, None),
    }
}

/// The per-device table of the latest requested values, one slot per device.
pub fn coalesce(commands: &Vec<MonitorCmd>, device_count: usize) -> (pending: Vec<Option<u32>>)
    requires
        commands_in_range(commands@, device_count as int),
    ensures
        pending@.len() == device_count,
        forall|i: int| 0 <= i < device_count ==> #[trigger] pending@[i] == last_request(commands@, i),
{
    let mut pending: Vec<Option<u32>> = Vec::new();
    let mut i: usize = 0;
    while i < device_count
        invariant
            i <= device_count,
            pending@.len() == i,
            forall|j: int| 0 <= j < i ==> #[trigger] pending@[j] == None::<u32>,
        decreases device_count - i,
    {
        pending.push(None);
        i = i + 1;
    }
    let mut k: usize = 0;
    while k < commands.len()
        invariant
            k <= commands.len(),
            pending@.len() == device_count,
            commands_in_range(commands@, device_count as int),
            forall|j: int|
                0 <= j < device_count ==> #[trigger] pending@[j] == last_request(
                    commands@.subrange(0, k as int),
                    j,
                ),
        decreases commands.len() - k,
    {
        proof {
            assert(commands@.subrange(0, k + 1).drop_last() =~= commands@.subrange(0, k as int));
            assert(0 <= commands@[k as int].target() < device_count);
        }
        match commands[k] {
            MonitorCmd::SetBrightness(index, value) => {
                pending.set(index, Some(value));
            },
        }
        k = k + 1;
    }
    proof {
        assert(commands@.subrange(0, commands@.len() as int) =~= commands@);
    }
    pending
}

/// The worker's bookkeeping: device ranges, write cooldowns, poll schedule.
pub struct Coordinator {
    ranges: Vec<(u32, u32)>,
    cooldowns: Vec<Option<u64>>,
    last_poll: u64,
    cooldown_ms: u64,
    poll_interval_ms: u64,
    released: bool,
}

impl View for Coordinator {
    type V = CoordinatorState;

    closed spec fn view(&self) -> CoordinatorState {
        CoordinatorState {
            ranges: self.ranges@,
            cooldowns: self.cooldowns@,
            last_poll: self.last_poll,
            cooldown_ms: self.cooldown_ms,
            poll_interval_ms: self.poll_interval_ms,
            released: self.released,
        }
    }
}

impl Coordinator {
    /// A coordinator for devices with the given write ranges, started at `now`.
    pub fn new(ranges: Vec<(u32, u32)>, now: u64, cooldown_ms: u64, poll_interval_ms: u64) -> (r:
        Coordinator)
        ensures
            r@.wf(),
            r@.ranges == ranges@,
            r@.cooldowns == Seq::new(ranges@.len(), |i: int| None::<u64>),
            r@.last_poll == now,
            r@.cooldown_ms == cooldown_ms,
            r@.poll_interval_ms == poll_interval_ms,
            !r@.released,
    {
        let mut cooldowns: Vec<Option<u64>> = Vec::new();
        let mut i: usize = 0;
        while i < ranges.len()
            invariant
                i <= ranges.len(),
                cooldowns@ == Seq::new(i as nat, |j: int| None::<u64>),
            decreases ranges.len() - i,
        {
            cooldowns.push(None);
            i = i + 1;
            proof {
                assert(cooldowns@ =~= Seq::new(i as nat, |j: int| None::<u64>));
            }
        }
        Coordinator { ranges, cooldowns, last_poll: now, cooldown_ms, poll_interval_ms, released: false }
    }

    pub fn device_count(&self) -> (n: usize)
        ensures
            n == self@.device_count(),
    {
        self.ranges.len()
    }

    pub fn is_released(&self) -> (r: bool)
        ensures
            r == self@.released,
    {
        self.released
    }

    /// Decides what the worker does on one wake-up.
    ///
    /// Commands are coalesced to the last value per device; each device with
    /// a pending value gets one clamped write followed by its echo, and its
    /// cooldown restarts at `now`. Only while visible, and once the poll
    /// interval has passed, devices whose cooldown has elapsed are polled. A
    /// disconnected command queue releases the devices once; afterwards
    /// nothing more is done.
    pub fn step(&mut self, visible: bool, commands: &Vec<MonitorCmd>, disconnected: bool, now: u64) -> (actions: Vec<WorkerAction>)
        requires
            old(self)@.wf(),
            commands_in_range(commands@, old(self)@.device_count()),
        ensures
            final(self)@.wf(),
            (final(self)@, actions@) == step_spec(
                old(self)@,
                (Wake { visible, commands: commands@, disconnected, now }),
            ),
    {
        let ghost s0 = self@;
        let ghost wake = Wake { visible, commands: commands@, disconnected, now };
        if self.released {
            return Vec::new();
        }
        if disconnected {
            self.released = true;
            let mut actions: Vec<WorkerAction> = Vec::new();
            actions.push(WorkerAction::Release);
            proof {
                assert(actions@ =~= seq![WorkerAction::Release]);
            }
            return actions;
        }
        let n = self.ranges.len();
        let pending = coalesce(commands, n);
        let mut actions: Vec<WorkerAction> = Vec::new();
        let mut i: usize = 0;
        while i < n
            invariant
                i <= n,
                n == s0.device_count(),
                s0.wf(),
                self.ranges@ == s0.ranges,
                self.cooldowns@.len() == n,
                self.last_poll == s0.last_poll,
                self.cooldown_ms == s0.cooldown_ms,
                self.poll_interval_ms == s0.poll_interval_ms,
                !self.released,
                !s0.released,
                pending@.len() == n,
                forall|j: int| 0 <= j < n ==> #[trigger] pending@[j] == last_request(commands@, j),
                actions@ == write_actions(s0, commands@, i as int),
                forall|j: int|
                    0 <= j < i ==> #[trigger] self.cooldowns@[j] == cooldowns_after_writes(
                        s0,
                        commands@,
                        now,
                    )[j],
                forall|j: int| i <= j < n ==> #[trigger] self.cooldowns@[j] == s0.cooldowns[j],
            decreases n - i,
        {
            match pending[i] {
                Some(value) => {
                    let (min, max) = self.ranges[i];
                    let target = clamp_brightness(value, min, max);
                    actions.push(WorkerAction::Write { index: i, value: target });
                    actions.push(
                        WorkerAction::Publish(MonitorUpdate { index: i, brightness: target }),
                    );
                    self.cooldowns.set(i, Some(now));
                },
                None => {},
            }
            proof {
                assert(actions@ =~= write_actions(s0, commands@, i + 1));
            }
            i = i + 1;
        }
        let ghost written = self.cooldowns@;
        proof {
            assert(written =~= cooldowns_after_writes(s0, commands@, now));
        }
        if visible && now >= self.last_poll && now - self.last_poll >= self.poll_interval_ms {
            let ghost writes = actions@;
            let mut i: usize = 0;
            while i < n
                invariant
                    i <= n,
                    n == s0.device_count(),
                    s0.wf(),
                    written.len() == n,
                    self.ranges@ == s0.ranges,
                    self.cooldowns@.len() == n,
                    self.last_poll == s0.last_poll,
                    self.cooldown_ms == s0.cooldown_ms,
                    self.poll_interval_ms == s0.poll_interval_ms,
                    !self.released,
                    actions@ == writes + poll_actions(written, now, s0.cooldown_ms, i as int),
                    forall|j: int|
                        0 <= j < i ==> #[trigger] self.cooldowns@[j] == cooldowns_after_poll(
                            written,
                            now,
                            s0.cooldown_ms,
                        )[j],
                    forall|j: int| i <= j < n ==> #[trigger] self.cooldowns@[j] == written[j],
                decreases n - i,
            {
                let suppressed = match self.cooldowns[i] {
                    Some(t) => now < t || now - t < self.cooldown_ms,
                    None => false,
                };
                if !suppressed {
                    self.cooldowns.set(i, None);
                    actions.push(WorkerAction::Poll { index: i });
                }
                proof {
                    assert(actions@ =~= writes + poll_actions(written, now, s0.cooldown_ms, i + 1));
                }
                i = i + 1;
            }
            self.last_poll = now;
            proof {
                assert(self.cooldowns@ =~= cooldowns_after_poll(written, now, s0.cooldown_ms));
            }
        } else {
            proof {
                assert(self.cooldowns@ =~= written);
            }
        }
        actions
    }

    /// Takes in the outcome of a poll of device `index`.
    ///
    /// A successful poll updates the device's write range and yields the
    /// update to publish; a failed one changes nothing and yields none.
    pub fn record_poll(&mut self, index: usize, polled: Option<(u32, u32, u32)>) -> (update: Option<
        MonitorUpdate,
    >)
        requires
            old(self)@.wf(),
            index < old(self)@.device_count(),
        ensures
            final(self)@.wf(),
            (final(self)@, update) == record_poll_spec(old(self)@, index as int, polled),
    {
        match polled {
            Some((current, min, max)) => {
                self.ranges.set(index, (min, max));
                Some(MonitorUpdate { index, brightness: current })
            },
            None => None,
        }
    }
}

} // verus!
