//! Decisions of the bidirectional sync engine between the store and the gateway.
//!
//! The engine keeps its queues and bookkeeping here; whoever drives it performs the gateway
//! calls, sleeps and event broadcasts that the decisions ask for and reports back.
use vstd::prelude::*;
use crate::keyed::{keys_unique, pair_key, table_get, table_insert, table_remove, table_find, table_insert_exec, table_remove_exec};
use crate::state::{DeviceId, Timestamp, DeviceStateValue, LightState, OutletState};
use crate::store::{StateStore, StateError, update_state_result};
use crate::text::str_eq;
use vstd::string::StringExecFns;
use vstd::arithmetic::power2::pow2;
use vstd::bits::{lemma_u64_shl_is_mul, lemma_u64_pow2_no_overflow};

verus! {

/// How urgently a sync task should run; earlier variants run first.
#[derive(Clone, Copy, Debug, PartialEq, Eq, Structural, PartialOrd, Ord)]
pub enum SyncPriority {
    /// User-initiated changes.
    Critical,
    /// State conflicts.
    High,
    /// Regular sync.
    Normal,
    /// Background refresh.
    Low,
}

/// The position of a priority in running order.
pub open spec fn priority_rank(p: SyncPriority) -> nat {
    match p {
        SyncPriority::Critical => 0,
        SyncPriority::High => 1,
        SyncPriority::Normal => 2,
        SyncPriority::Low => 3,
    }
}

/// The position of a priority in running order.
pub fn rank_of(p: SyncPriority) -> (r: u8)
    ensures
        r == priority_rank(p),
{
    match p {
        SyncPriority::Critical => 0,
        SyncPriority::High => 1,
        SyncPriority::Normal => 2,
        SyncPriority::Low => 3,
    }
}

/// What a sync task does.
#[derive(Debug)]
pub enum SyncTaskType {
    PushToGateway { new_state: DeviceStateValue },
    PullFromGateway,
    ForceRefresh,
}

/// What a sync worker asks of the gateway for a task.
#[derive(Debug)]
pub enum TaskCall {
    /// Write this state to the device.
    Push(DeviceStateValue),
    /// Read the device and hand the reading to `SyncEngine::handle_gateway_state_change`.
    PullAndReconcile,
    /// Read the device and write the reading into the store as it is.
    ReadAndOverwrite,
}

/// The gateway work that a task stands for.
pub fn task_call(task: &SyncTask) -> (res: TaskCall)
    ensures
        match task.task_type {
            SyncTaskType::PushToGateway { new_state } => res == TaskCall::Push(new_state),
            SyncTaskType::PullFromGateway => res is PullAndReconcile,
            SyncTaskType::ForceRefresh => res is ReadAndOverwrite,
        },
{
    match &task.task_type {
        SyncTaskType::PushToGateway { new_state } => TaskCall::Push(new_state.clone()),
        SyncTaskType::PullFromGateway => TaskCall::PullAndReconcile,
        SyncTaskType::ForceRefresh => TaskCall::ReadAndOverwrite,
    }
}

impl Clone for SyncTaskType {
    fn clone(&self) -> (res: Self)
        ensures
            res == *self,
    {
        match self {
            SyncTaskType::PushToGateway { new_state } => SyncTaskType::PushToGateway { new_state: new_state.clone() },
            SyncTaskType::PullFromGateway => SyncTaskType::PullFromGateway,
            SyncTaskType::ForceRefresh => SyncTaskType::ForceRefresh,
        }
    }
}

/// A unit of sync work for one device. `created_at` is a reading of the monotonic clock in
/// milliseconds.
#[derive(Debug)]
pub struct SyncTask {
    pub device_id: DeviceId,
    pub task_type: SyncTaskType,
    pub created_at: u64,
    pub priority: SyncPriority,
}

impl Clone for SyncTask {
    fn clone(&self) -> (res: Self)
        ensures
            res == *self,
    {
        SyncTask {
            device_id: self.device_id.clone(),
            task_type: self.task_type.clone(),
            created_at: self.created_at,
            priority: self.priority,
        }
    }
}

/// A failed task waiting to be retried. `next_retry` is a monotonic reading in milliseconds.
#[derive(Debug)]
pub struct RetryEntry {
    pub task: SyncTask,
    pub attempts: u32,
    pub next_retry: u64,
    pub last_error: Option<String>,
}

impl Clone for RetryEntry {
    fn clone(&self) -> (res: Self)
        ensures
            res == *self,
    {
        RetryEntry {
            task: self.task.clone(),
            attempts: self.attempts,
            next_retry: self.next_retry,
            last_error: match &self.last_error {
                Some(e) => Some(e.clone()),
                None => None,
            },
        }
    }
}

/// Where a device stands in syncing. Times are wall-clock milliseconds.
#[derive(Debug)]
pub enum SyncStatus {
    InSync { last_synced: Timestamp },
    PendingSync { queued_at: Timestamp },
    Syncing { started_at: Timestamp },
    Failed { error: String, failed_at: Timestamp },
    Conflict { server_state: DeviceStateValue, gateway_state: DeviceStateValue },
}

impl Clone for SyncStatus {
    fn clone(&self) -> (res: Self)
        ensures
            res == *self,
    {
        match self {
            SyncStatus::InSync { last_synced } => SyncStatus::InSync { last_synced: *last_synced },
            SyncStatus::PendingSync { queued_at } => SyncStatus::PendingSync { queued_at: *queued_at },
            SyncStatus::Syncing { started_at } => SyncStatus::Syncing { started_at: *started_at },
            SyncStatus::Failed { error, failed_at } => SyncStatus::Failed { error: error.clone(), failed_at: *failed_at },
            SyncStatus::Conflict { server_state, gateway_state } => SyncStatus::Conflict {
                server_state: server_state.clone(),
                gateway_state: gateway_state.clone(),
            },
        }
    }
}

/// The latest state a client asked for, not yet confirmed by the gateway. `updated_at` is a
/// monotonic reading in milliseconds.
#[derive(Debug)]
pub struct OptimisticState {
    pub client_state: DeviceStateValue,
    pub pending_sync: bool,
    pub updated_at: u64,
}

/// The latest state waiting to be pushed for a device; newer writes overwrite older ones.
#[derive(Debug)]
pub struct SyncBufferEntry {
    pub state: DeviceStateValue,
    pub updated_at: u64,
    pub priority: SyncPriority,
}

/// A user-initiated change sent to the gateway, protected for `protection_window`
/// milliseconds after `sent_at` (monotonic) against contradicting gateway readings.
#[derive(Debug)]
pub struct PendingConfirmation {
    pub device_id: DeviceId,
    pub expected_state: DeviceStateValue,
    pub sent_at: u64,
    pub protection_window: u64,
}

/// Which side wins when the store and the gateway disagree.
#[derive(Clone, Copy, Debug, PartialEq, Eq, Structural)]
pub enum ConflictResolution {
    ServerWins,
    GatewayWins,
    TimestampWins,
    Manual,
}

/// Tuning of the sync engine. Durations are in milliseconds.
#[derive(Clone, Copy, Debug, PartialEq, Eq, Structural)]
pub struct SyncConfig {
    pub push_interval_ms: u64,
    pub pull_interval_ms: u64,
    pub max_retry_attempts: u32,
    pub base_retry_delay_ms: u64,
    pub max_retry_delay_ms: u64,
    pub batch_size: usize,
    pub conflict_resolution: ConflictResolution,
    pub optimistic_updates: bool,
    /// Maximum requests per second to the gateway.
    pub gateway_rate_limit: u32,
    /// Run client-initiated changes first.
    pub client_priority_boost: bool,
}

/// The default tuning: fast pushes, two-second pulls, five retries, the gateway wins conflicts.
pub open spec fn default_sync_config() -> SyncConfig {
    SyncConfig {
        push_interval_ms: 50,
        pull_interval_ms: 2000,
        max_retry_attempts: 5,
        base_retry_delay_ms: 500,
        max_retry_delay_ms: 30000,
        batch_size: 10,
        conflict_resolution: ConflictResolution::GatewayWins,
        optimistic_updates: true,
        gateway_rate_limit: 10,
        client_priority_boost: true,
    }
}

impl Default for SyncConfig {
    fn default() -> (res: Self)
        ensures
            res == default_sync_config(),
    {
        SyncConfig {
            push_interval_ms: 50,
            pull_interval_ms: 2000,
            max_retry_attempts: 5,
            base_retry_delay_ms: 500,
            max_retry_delay_ms: 30000,
            batch_size: 10,
            conflict_resolution: ConflictResolution::GatewayWins,
            optimistic_updates: true,
            gateway_rate_limit: 10,
            client_priority_boost: true,
        }
    }
}

/// Counts of devices per sync status and queue sizes.
#[derive(Debug, PartialEq, Eq, Structural)]
pub struct SyncStats {
    pub in_sync_devices: u32,
    pub pending_sync_devices: u32,
    pub syncing_devices: u32,
    pub failed_devices: u32,
    pub conflict_devices: u32,
    pub pending_sync_tasks: u32,
    pub retry_queue_size: u32,
}

impl Default for SyncStats {
    fn default() -> (res: Self)
        ensures
            res == (SyncStats {
                in_sync_devices: 0,
                pending_sync_devices: 0,
                syncing_devices: 0,
                failed_devices: 0,
                conflict_devices: 0,
                pending_sync_tasks: 0,
                retry_queue_size: 0,
            }),
    {
        SyncStats {
            in_sync_devices: 0,
            pending_sync_devices: 0,
            syncing_devices: 0,
            failed_devices: 0,
            conflict_devices: 0,
            pending_sync_tasks: 0,
            retry_queue_size: 0,
        }
    }
}

// ------------------------------------------------------------------
// State comparison
// ------------------------------------------------------------------

/// The bits of an IEEE-754 single are a NaN.
pub open spec fn f32_bits_is_nan(b: u32) -> bool {
    (b & 0x7fff_ffffu32) > 0x7f80_0000u32
}

/// IEEE-754 equality of two singles given by their bits: NaN equals nothing, and the two
/// zeros are equal.
pub open spec fn f32_bits_eq(a: u32, b: u32) -> bool {
    !f32_bits_is_nan(a) && !f32_bits_is_nan(b)
        && (a == b || ((a & 0x7fff_ffffu32) == 0 && (b & 0x7fff_ffffu32) == 0))
}

/// Equality of two optional singles, as `==` on `Option<f32>` decides it.
pub open spec fn opt_f32_bits_eq(a: Option<u32>, b: Option<u32>) -> bool {
    match (a, b) {
        (None, None) => true,
        (Some(x), Some(y)) => f32_bits_eq(x, y),
        _ => false,
    }
}

fn f32_eq_exec(a: u32, b: u32) -> (res: bool)
    ensures
        res == f32_bits_eq(a, b),
{
    let ma = a & 0x7fff_ffffu32;
    let mb = b & 0x7fff_ffffu32;
    !(ma > 0x7f80_0000u32) && !(mb > 0x7f80_0000u32) && (a == b || (ma == 0 && mb == 0))
}

fn opt_f32_eq_exec(a: Option<u32>, b: Option<u32>) -> (res: bool)
    ensures
        res == opt_f32_bits_eq(a, b),
{
    match (a, b) {
        (None, None) => true,
        (Some(x), Some(y)) => f32_eq_exec(x, y),
        _ => false,
    }
}

/// Two device states count as the same reading. Only the fields that matter per kind are
/// compared, and states of different kinds (and two empty states) never match.
pub open spec fn states_equal_spec(s1: DeviceStateValue, s2: DeviceStateValue) -> bool {
    match (s1, s2) {
        (DeviceStateValue::Light(l1), DeviceStateValue::Light(l2)) =>
            l1.is_on == l2.is_on && l1.brightness == l2.brightness && l1.color_temp == l2.color_temp
                && l1.rgb_color == l2.rgb_color,
        (DeviceStateValue::Outlet(o1), DeviceStateValue::Outlet(o2)) => o1.is_on == o2.is_on,
        (DeviceStateValue::Sensor(a), DeviceStateValue::Sensor(b)) =>
            opt_f32_bits_eq(a.temperature_bits, b.temperature_bits) && opt_f32_bits_eq(a.humidity_bits, b.humidity_bits),
        (DeviceStateValue::Switch(a), DeviceStateValue::Switch(b)) =>
            a.is_pressed == b.is_pressed && a.battery_level == b.battery_level,
        (DeviceStateValue::MotionSensor(a), DeviceStateValue::MotionSensor(b)) =>
            a.motion_detected == b.motion_detected && a.battery_level == b.battery_level,
        (DeviceStateValue::Scene(a), DeviceStateValue::Scene(b)) => a.is_active == b.is_active,
        (DeviceStateValue::Timer(a), DeviceStateValue::Timer(b)) =>
            a.timer_name@ == b.timer_name@ && a.action == b.action,
        _ => false,
    }
}

/// Compares two device states as the sync engine does.
pub fn states_equal(state1: &DeviceStateValue, state2: &DeviceStateValue) -> (res: bool)
    ensures
        res == states_equal_spec(*state1, *state2),
{
    match (state1, state2) {
        (DeviceStateValue::Light(l1), DeviceStateValue::Light(l2)) =>
            l1.is_on == l2.is_on && l1.brightness == l2.brightness && l1.color_temp == l2.color_temp
                && l1.rgb_color == l2.rgb_color,
        (DeviceStateValue::Outlet(o1), DeviceStateValue::Outlet(o2)) => o1.is_on == o2.is_on,
        (DeviceStateValue::Sensor(a), DeviceStateValue::Sensor(b)) =>
            opt_f32_eq_exec(a.temperature_bits, b.temperature_bits) && opt_f32_eq_exec(a.humidity_bits, b.humidity_bits),
        (DeviceStateValue::Switch(a), DeviceStateValue::Switch(b)) =>
            a.is_pressed == b.is_pressed && a.battery_level == b.battery_level,
        (DeviceStateValue::MotionSensor(a), DeviceStateValue::MotionSensor(b)) =>
            a.motion_detected == b.motion_detected && a.battery_level == b.battery_level,
        (DeviceStateValue::Scene(a), DeviceStateValue::Scene(b)) => a.is_active == b.is_active,
        (DeviceStateValue::Timer(a), DeviceStateValue::Timer(b)) =>
            str_eq(a.timer_name.as_str(), b.timer_name.as_str()) && a.action == b.action,
        _ => false,
    }
}

/// A state of this kind can be pushed back to the gateway (sensors and empty states cannot).
pub open spec fn is_writable_spec(s: DeviceStateValue) -> bool {
    match s {
        DeviceStateValue::Sensor(_) => false,
        DeviceStateValue::MotionSensor(_) => false,
        DeviceStateValue::Empty => false,
        _ => true,
    }
}

/// Whether a state of this kind can be pushed back to the gateway.
pub fn is_device_writable(state: &DeviceStateValue) -> (res: bool)
    ensures
        res == is_writable_spec(*state),
{
    match state {
        DeviceStateValue::Light(_) => true,
        DeviceStateValue::Switch(_) => true,
        DeviceStateValue::Sensor(_) => false,
        DeviceStateValue::Scene(_) => true,
        DeviceStateValue::Timer(_) => true,
        DeviceStateValue::MotionSensor(_) => false,
        DeviceStateValue::Outlet(_) => true,
        DeviceStateValue::Empty => false,
    }
}

/// The outlets whose writes the gateway answers with server errors; the engine never pushes
/// to them on its own.
pub open spec fn problematic_outlets() -> Seq<Seq<char>> {
    seq![
        "f996b7c9-dd18-44c6-ab84-c10a64175df6_1"@,
        "c6438f6d-e3b9-4abe-8356-81554b9d7602_1"@,
        "132e021a-b407-4448-ac45-cc7cdadf7f02_1"@,
        "0d3698c6-7712-42f8-ab6b-f067cdb8ce82_1"@,
        "a316fc31-3199-4c65-91ef-c7934435e6c2_3"@
    ]
}

/// Whether `device_id` is one of the outlets the engine leaves alone.
pub fn is_problematic_outlet(device_id: &str) -> (res: bool)
    ensures
        res == problematic_outlets().contains(device_id@),
{
    let a = "f996b7c9-dd18-44c6-ab84-c10a64175df6_1";
    let b = "c6438f6d-e3b9-4abe-8356-81554b9d7602_1";
    let c = "132e021a-b407-4448-ac45-cc7cdadf7f02_1";
    let d = "0d3698c6-7712-42f8-ab6b-f067cdb8ce82_1";
    let e = "a316fc31-3199-4c65-91ef-c7934435e6c2_3";
    let r = str_eq(device_id, a) || str_eq(device_id, b) || str_eq(device_id, c) || str_eq(device_id, d)
        || str_eq(device_id, e);
    proof {
        let ps = problematic_outlets();
        assert(ps[0] == a@ && ps[1] == b@ && ps[2] == c@ && ps[3] == d@ && ps[4] == e@);
        if ps.contains(device_id@) {
            let k = choose|k: int| 0 <= k < ps.len() && ps[k] == device_id@;
            assert(k == 0 || k == 1 || k == 2 || k == 3 || k == 4);
        }
        if r {
            if device_id@ == a@ { assert(ps[0] == device_id@); }
            else if device_id@ == b@ { assert(ps[1] == device_id@); }
            else if device_id@ == c@ { assert(ps[2] == device_id@); }
            else if device_id@ == d@ { assert(ps[3] == device_id@); }
            else { assert(ps[4] == device_id@); }
        }
    }
    r
}


// ------------------------------------------------------------------
// The engine
// ------------------------------------------------------------------

/// A change of a device's state that subscribers must hear about: the driver publishes it as
/// an attribute change of `"state"` whose old and new values are the serialized states (or
/// null when `old_state` is absent).
#[derive(Debug)]
pub struct StateChangeNotice {
    pub device_id: DeviceId,
    pub old_state: Option<DeviceStateValue>,
    pub new_state: DeviceStateValue,
}

/// Readings of the two clocks the engine uses: the wall clock (milliseconds since the epoch)
/// for statuses and store timestamps, and the monotonic clock (milliseconds) for queue timing.
#[derive(Clone, Copy, Debug)]
pub struct SyncClock {
    pub wall_ms: u64,
    pub mono_ms: u64,
}

/// Queues and bookkeeping of the sync engine.
pub struct SyncEngine {
    sync_queue: Vec<SyncTask>,
    retry_queue: Vec<(DeviceId, RetryEntry)>,
    sync_status: Vec<(DeviceId, SyncStatus)>,
    config: SyncConfig,
    optimistic_states: Vec<(DeviceId, OptimisticState)>,
    sync_buffer: Vec<(DeviceId, SyncBufferEntry)>,
    pending_confirmations: Vec<(DeviceId, PendingConfirmation)>,
    shutdown_requested: bool,
}

/// The queue runs in priority order: no task waits behind one of lower priority.
pub open spec fn queue_sorted(q: Seq<SyncTask>) -> bool {
    forall|i: int, j: int| 0 <= i < j < q.len() ==> priority_rank(q[i].priority) <= priority_rank(q[j].priority)
}

/// `q2` is `q` with `t` inserted after every task of the same or higher priority and before
/// every task of lower priority.
pub open spec fn priority_inserted(q: Seq<SyncTask>, t: SyncTask, q2: Seq<SyncTask>) -> bool {
    exists|pos: int| 0 <= pos <= q.len()
        && (forall|i: int| 0 <= i < pos ==> priority_rank(#[trigger] q[i].priority) <= priority_rank(t.priority))
        && (pos < q.len() ==> priority_rank(q[pos].priority) > priority_rank(t.priority))
        && q2 == q.insert(pos, t)
}

impl SyncEngine {
    pub closed spec fn queue(&self) -> Seq<SyncTask> { self.sync_queue@ }
    pub closed spec fn retries(&self) -> Seq<(DeviceId, RetryEntry)> { self.retry_queue@ }
    pub closed spec fn statuses(&self) -> Seq<(DeviceId, SyncStatus)> { self.sync_status@ }
    pub closed spec fn config(&self) -> SyncConfig { self.config }
    pub closed spec fn optimistic(&self) -> Seq<(DeviceId, OptimisticState)> { self.optimistic_states@ }
    pub closed spec fn buffer(&self) -> Seq<(DeviceId, SyncBufferEntry)> { self.sync_buffer@ }
    pub closed spec fn pending(&self) -> Seq<(DeviceId, PendingConfirmation)> { self.pending_confirmations@ }
    pub closed spec fn shutdown(&self) -> bool { self.shutdown_requested }

    /// Every table holds at most one entry per device and the queue is in priority order.
    pub open spec fn wf(&self) -> bool {
        &&& keys_unique(self.retries(), pair_key::<RetryEntry>())
        &&& keys_unique(self.statuses(), pair_key::<SyncStatus>())
        &&& keys_unique(self.optimistic(), pair_key::<OptimisticState>())
        &&& keys_unique(self.buffer(), pair_key::<SyncBufferEntry>())
        &&& keys_unique(self.pending(), pair_key::<PendingConfirmation>())
        &&& queue_sorted(self.queue())
    }

    /// An idle engine with the given tuning, or the default tuning.
    pub fn new(config: Option<SyncConfig>) -> (res: SyncEngine)
        ensures
            res.wf(),
            res.config() == match config { Some(c) => c, None => default_sync_config() },
            res.queue().len() == 0,
            res.retries().len() == 0,
            res.statuses().len() == 0,
            res.optimistic().len() == 0,
            res.buffer().len() == 0,
            res.pending().len() == 0,
            !res.shutdown(),
    {
        let config = match config {
            Some(c) => c,
            None => SyncConfig::default(),
        };
        SyncEngine {
            sync_queue: Vec::new(),
            retry_queue: Vec::new(),
            sync_status: Vec::new(),
            config,
            optimistic_states: Vec::new(),
            sync_buffer: Vec::new(),
            pending_confirmations: Vec::new(),
            shutdown_requested: false,
        }
    }

    /// The tuning in force.
    pub fn get_config(&self) -> (res: SyncConfig)
        ensures
            res == self.config(),
    {
        self.config
    }

    /// Asks the workers to stop.
    pub fn stop(&mut self)
        ensures
            final(self).shutdown(),
            final(self).wf() == old(self).wf(),
            final(self).queue() == old(self).queue(),
            final(self).retries() == old(self).retries(),
            final(self).statuses() == old(self).statuses(),
            final(self).optimistic() == old(self).optimistic(),
            final(self).buffer() == old(self).buffer(),
            final(self).pending() == old(self).pending(),
            final(self).config() == old(self).config(),
    {
        self.shutdown_requested = true;
    }

    /// Whether the workers were asked to stop.
    pub fn is_shutdown(&self) -> (res: bool)
        ensures
            res == self.shutdown(),
    {
        self.shutdown_requested
    }

    /// Queues a task: its device is marked pending; a push only overwrites the device's entry
    /// in the push buffer (so that the latest state wins), any other task enters the queue in
    /// priority order.
    pub fn queue_sync(&mut self, task: SyncTask, clock: SyncClock)
        requires
            old(self).wf(),
        ensures
            final(self).wf(),
            final(self).statuses() == table_insert(old(self).statuses(), task.device_id,
                SyncStatus::PendingSync { queued_at: clock.wall_ms }),
            match task.task_type {
                SyncTaskType::PushToGateway { new_state } => {
                    &&& final(self).buffer() == table_insert(old(self).buffer(), task.device_id,
                        SyncBufferEntry { state: new_state, updated_at: clock.mono_ms, priority: task.priority })
                    &&& final(self).queue() == old(self).queue()
                },
                _ => {
                    &&& priority_inserted(old(self).queue(), task, final(self).queue())
                    &&& final(self).buffer() == old(self).buffer()
                },
            },
            final(self).retries() == old(self).retries(),
            final(self).optimistic() == old(self).optimistic(),
            final(self).pending() == old(self).pending(),
            final(self).config() == old(self).config(),
            final(self).shutdown() == old(self).shutdown(),
    {
        table_insert_exec(&mut self.sync_status, task.device_id.clone(), SyncStatus::PendingSync { queued_at: clock.wall_ms });
        match &task.task_type {
            SyncTaskType::PushToGateway { new_state } => {
                let entry = SyncBufferEntry { state: new_state.clone(), updated_at: clock.mono_ms, priority: task.priority };
                table_insert_exec(&mut self.sync_buffer, task.device_id.clone(), entry);
            },
            _ => {
                let r = rank_of(task.priority);
                let mut pos: usize = 0;
                while pos < self.sync_queue.len() && rank_of(self.sync_queue[pos].priority) <= r
                    invariant
                        pos <= self.sync_queue@.len(),
                        r == priority_rank(task.priority),
                        forall|i: int| 0 <= i < pos ==> priority_rank(#[trigger] self.sync_queue@[i].priority) <= r,
                    decreases self.sync_queue@.len() - pos,
                {
                    pos = pos + 1;
                }
                let ghost q = self.sync_queue@;
                self.sync_queue.insert(pos, task);
                proof {
                    assert(priority_inserted(q, task, self.sync_queue@));
                    lemma_insert_keeps_sorted(q, task, pos as int);
                }
            },
        }
    }

    /// The recorded status of device `device_id`.
    pub fn get_sync_status(&self, device_id: &DeviceId) -> (res: Option<SyncStatus>)
        requires
            self.wf(),
        ensures
            res == table_get(self.statuses(), device_id@),
    {
        match table_find(&self.sync_status, device_id.as_str()) {
            Some(i) => {
                proof { crate::keyed::lemma_lookup_at(self.statuses(), pair_key::<SyncStatus>(), device_id@, i as int); }
                Some(self.sync_status[i].1.clone())
            },
            None => None,
        }
    }

    /// Counts of devices per status, with the queue and retry table sizes (truncated to 32 bits).
    pub fn get_sync_stats(&self) -> (res: SyncStats)
        ensures
            res.in_sync_devices == count_status(self.statuses(), 0) as u32,
            res.pending_sync_devices == count_status(self.statuses(), 1) as u32,
            res.syncing_devices == count_status(self.statuses(), 2) as u32,
            res.failed_devices == count_status(self.statuses(), 3) as u32,
            res.conflict_devices == count_status(self.statuses(), 4) as u32,
            res.pending_sync_tasks == self.queue().len() as u32,
            res.retry_queue_size == self.retries().len() as u32,
    {
        let mut c0: usize = 0;
        let mut c1: usize = 0;
        let mut c2: usize = 0;
        let mut c3: usize = 0;
        let mut c4: usize = 0;
        let mut i: usize = 0;
        while i < self.sync_status.len()
            invariant
                i <= self.sync_status@.len(),
                c0 == count_status(self.sync_status@.take(i as int), 0),
                c1 == count_status(self.sync_status@.take(i as int), 1),
                c2 == count_status(self.sync_status@.take(i as int), 2),
                c3 == count_status(self.sync_status@.take(i as int), 3),
                c4 == count_status(self.sync_status@.take(i as int), 4),
                c0 <= i && c1 <= i && c2 <= i && c3 <= i && c4 <= i,
            decreases self.sync_status@.len() - i,
        {
            proof {
                assert(self.sync_status@.take(i + 1) =~= self.sync_status@.take(i as int).push(self.sync_status@[i as int]));
                lemma_count_push(self.sync_status@.take(i as int), self.sync_status@[i as int]);
            }
            match &self.sync_status[i].1 {
                SyncStatus::InSync { .. } => { c0 = c0 + 1; },
                SyncStatus::PendingSync { .. } => { c1 = c1 + 1; },
                SyncStatus::Syncing { .. } => { c2 = c2 + 1; },
                SyncStatus::Failed { .. } => { c3 = c3 + 1; },
                SyncStatus::Conflict { .. } => { c4 = c4 + 1; },
            }
            i = i + 1;
        }
        proof { assert(self.sync_status@.take(self.sync_status@.len() as int) =~= self.sync_status@); }
        SyncStats {
            in_sync_devices: c0 as u32,
            pending_sync_devices: c1 as u32,
            syncing_devices: c2 as u32,
            failed_devices: c3 as u32,
            conflict_devices: c4 as u32,
            pending_sync_tasks: self.sync_queue.len() as u32,
            retry_queue_size: self.retry_queue.len() as u32,
        }
    }
}

/// The outcome of a reading of a device's state from the gateway.
#[derive(Debug)]
pub enum GatewayChangeOutcome {
    /// A user change awaiting confirmation was confirmed; the store took the reading.
    Confirmed(StateChangeNotice),
    /// A contradicting reading arrived while a user change was protected, and was ignored.
    Ignored,
    /// The store holds no such device.
    UnknownDevice,
    /// The store already agrees with the reading.
    AlreadyInSync,
    /// The store's state wins: the driver must push this state to the gateway.
    PushServerState(DeviceStateValue),
    /// The store took the gateway's reading; subscribers must hear of the change if a notice is given.
    AdoptedGatewayState(Option<StateChangeNotice>),
    /// The disagreement was recorded for manual resolution.
    ConflictRecorded,
    /// The store could not take the reading: it holds no such device. Carries the error's text.
    StoreUpdateFailed(String),
}

/// How long ago `since` was, on the monotonic clock (zero if the clock reads earlier).
pub open spec fn elapsed_ms(now: u64, since: u64) -> u64 {
    if now >= since { (now - since) as u64 } else { 0 }
}

/// The wait before the next attempt of a task that has failed `attempts` times:
/// the base delay doubled per earlier attempt, capped by the maximum delay.
pub open spec fn backoff_ms(config: SyncConfig, attempts: nat) -> int {
    let d = config.base_retry_delay_ms * pow2((attempts - 1) as nat);
    if d <= config.max_retry_delay_ms { d } else { config.max_retry_delay_ms as int }
}

/// The retry table after recording another failure of `task`:
/// a first failure is filed with one attempt and the base delay; a later one counts the
/// attempt and the error, and unless the attempts reach the maximum, backs off further.
pub open spec fn retry_result(retries: Seq<(DeviceId, RetryEntry)>, config: SyncConfig, task: SyncTask, error: String, now: u64)
    -> Seq<(DeviceId, RetryEntry)>
{
    match table_get(retries, task.device_id@) {
        Some(e) => {
            let attempts = (e.attempts + 1) as u32;
            let next = if attempts >= config.max_retry_attempts {
                e.next_retry
            } else {
                (now + backoff_ms(config, attempts as nat)) as u64
            };
            table_insert(retries, retries[crate::keyed::index_of_key(retries, pair_key::<RetryEntry>(), task.device_id@)].0,
                RetryEntry { attempts: attempts, next_retry: next, last_error: Some(error), ..e })
        },
        None => table_insert(retries, task.device_id,
            RetryEntry { task: task, attempts: 1, next_retry: (now + config.base_retry_delay_ms) as u64, last_error: Some(error) }),
    }
}

/// Recording another failure of a task on `device` at `now` keeps the attempt count and the
/// next retry time within their integer types.
pub open spec fn retry_in_range(retries: Seq<(DeviceId, RetryEntry)>, config: SyncConfig, device: Seq<char>, now: u64) -> bool {
    match table_get(retries, device) {
        Some(e) => {
            &&& e.attempts < u32::MAX
            &&& (e.attempts + 1 < config.max_retry_attempts ==> {
                &&& e.attempts < 32
                &&& config.base_retry_delay_ms * pow2(e.attempts as nat) <= u64::MAX
                &&& now + backoff_ms(config, (e.attempts + 1) as nat) <= u64::MAX
            })
        },
        None => now + config.base_retry_delay_ms <= u64::MAX,
    }
}

impl SyncEngine {
    /// Applies a client's change at once: the store takes the state, subscribers are notified
    /// (the returned notice), the change is remembered as unconfirmed, and a push is queued,
    /// critical when client changes are boosted and high otherwise. With optimistic updates
    /// switched off, only a critical push is queued. Refused, changing nothing, when the store
    /// holds no such device.
    pub fn apply_optimistic_update(&mut self, store: &mut StateStore, device_id: &DeviceId, new_state: DeviceStateValue,
        clock: SyncClock) -> (res: Result<Option<StateChangeNotice>, StateError>)
        requires
            old(self).wf(),
            old(store).wf(),
        ensures
            final(self).wf(),
            final(store).wf(),
            final(store).groups() == old(store).groups(),
            final(self).config() == old(self).config(),
            final(self).queue() == old(self).queue(),
            final(self).retries() == old(self).retries(),
            final(self).pending() == old(self).pending(),
            final(self).shutdown() == old(self).shutdown(),
            !old(self).config().optimistic_updates ==> {
                &&& res matches Ok(None)
                &&& final(store).entries() == old(store).entries()
                &&& final(self).optimistic() == old(self).optimistic()
                &&& final(self).statuses() == table_insert(old(self).statuses(), *device_id,
                    SyncStatus::PendingSync { queued_at: clock.wall_ms })
                &&& final(self).buffer() == table_insert(old(self).buffer(), *device_id,
                    SyncBufferEntry { state: new_state, updated_at: clock.mono_ms, priority: SyncPriority::Critical })
            },
            old(self).config().optimistic_updates && old(store).device(device_id@) is None ==> {
                &&& res matches Err(StateError::DeviceNotFound(id)) && id@ == device_id@
                &&& final(store).entries() == old(store).entries()
                &&& final(self).optimistic() == old(self).optimistic()
                &&& final(self).statuses() == old(self).statuses()
                &&& final(self).buffer() == old(self).buffer()
            },
            old(self).config().optimistic_updates && old(store).device(device_id@) is Some ==> {
                &&& res matches Ok(Some(n)) && n.device_id@ == device_id@ && n.old_state is None && n.new_state == new_state
                &&& final(store).entries() == update_state_result(old(store).entries(), device_id@, new_state, clock.wall_ms)
                &&& final(self).optimistic() == table_insert(old(self).optimistic(), *device_id,
                    OptimisticState { client_state: new_state, pending_sync: true, updated_at: clock.mono_ms })
                &&& final(self).statuses() == table_insert(old(self).statuses(), *device_id,
                    SyncStatus::PendingSync { queued_at: clock.wall_ms })
                &&& final(self).buffer() == table_insert(old(self).buffer(), *device_id,
                    SyncBufferEntry { state: new_state, updated_at: clock.mono_ms,
                        priority: if old(self).config().client_priority_boost { SyncPriority::Critical } else { SyncPriority::High } })
            },
    {
        if !self.config.optimistic_updates {
            let task = SyncTask {
                device_id: device_id.clone(),
                task_type: SyncTaskType::PushToGateway { new_state },
                created_at: clock.mono_ms,
                priority: SyncPriority::Critical,
            };
            self.queue_sync(task, clock);
            return Ok(None);
        }
        let r = store.update_device_state(device_id, new_state.clone(), clock.wall_ms);
        match r {
            Err(e) => Err(e),
            Ok(()) => {
                let notice = StateChangeNotice { device_id: device_id.clone(), old_state: None, new_state: new_state.clone() };
                table_insert_exec(&mut self.optimistic_states, device_id.clone(),
                    OptimisticState { client_state: new_state.clone(), pending_sync: true, updated_at: clock.mono_ms });
                let priority = if self.config.client_priority_boost { SyncPriority::Critical } else { SyncPriority::High };
                let task = SyncTask {
                    device_id: device_id.clone(),
                    task_type: SyncTaskType::PushToGateway { new_state },
                    created_at: clock.mono_ms,
                    priority,
                };
                self.queue_sync(task, clock);
                Ok(Some(notice))
            },
        }
    }

    /// Takes every buffered push, leaving the buffer empty.
    pub fn drain_sync_buffer(&mut self) -> (res: Vec<(DeviceId, SyncBufferEntry)>)
        requires
            old(self).wf(),
        ensures
            final(self).wf(),
            res@ == old(self).buffer(),
            final(self).buffer().len() == 0,
            final(self).queue() == old(self).queue(),
            final(self).retries() == old(self).retries(),
            final(self).statuses() == old(self).statuses(),
            final(self).optimistic() == old(self).optimistic(),
            final(self).pending() == old(self).pending(),
            final(self).config() == old(self).config(),
            final(self).shutdown() == old(self).shutdown(),
    {
        let mut taken: Vec<(DeviceId, SyncBufferEntry)> = Vec::new();
        std::mem::swap(&mut taken, &mut self.sync_buffer);
        taken
    }

    /// Turns a buffered push into a task; a critical (user-initiated) push also starts a
    /// five-second protection window for the expected state.
    pub fn prepare_buffered_task(&mut self, device_id: DeviceId, entry: SyncBufferEntry, clock: SyncClock) -> (res: SyncTask)
        requires
            old(self).wf(),
        ensures
            final(self).wf(),
            res == (SyncTask {
                device_id: device_id,
                task_type: SyncTaskType::PushToGateway { new_state: entry.state },
                created_at: entry.updated_at,
                priority: entry.priority,
            }),
            final(self).pending() == if entry.priority == SyncPriority::Critical {
                table_insert(old(self).pending(), device_id, PendingConfirmation {
                    device_id: device_id,
                    expected_state: entry.state,
                    sent_at: clock.mono_ms,
                    protection_window: 5000,
                })
            } else {
                old(self).pending()
            },
            final(self).queue() == old(self).queue(),
            final(self).retries() == old(self).retries(),
            final(self).statuses() == old(self).statuses(),
            final(self).optimistic() == old(self).optimistic(),
            final(self).buffer() == old(self).buffer(),
            final(self).config() == old(self).config(),
            final(self).shutdown() == old(self).shutdown(),
    {
        if entry.priority == SyncPriority::Critical {
            let confirmation = PendingConfirmation {
                device_id: device_id.clone(),
                expected_state: entry.state.clone(),
                sent_at: clock.mono_ms,
                protection_window: 5000,
            };
            table_insert_exec(&mut self.pending_confirmations, device_id.clone(), confirmation);
        }
        SyncTask {
            device_id,
            task_type: SyncTaskType::PushToGateway { new_state: entry.state },
            created_at: entry.updated_at,
            priority: entry.priority,
        }
    }

    /// Takes the next batch of queued tasks: the first `batch_size` (or all, if fewer).
    #[verifier::loop_isolation(false)]
    pub fn take_push_batch(&mut self) -> (res: Vec<SyncTask>)
        requires
            old(self).wf(),
        ensures
            final(self).wf(),
            res@ == old(self).queue().take(min_nat(old(self).config().batch_size as nat, old(self).queue().len()) as int),
            final(self).queue() == old(self).queue().skip(min_nat(old(self).config().batch_size as nat, old(self).queue().len()) as int),
            final(self).retries() == old(self).retries(),
            final(self).statuses() == old(self).statuses(),
            final(self).optimistic() == old(self).optimistic(),
            final(self).buffer() == old(self).buffer(),
            final(self).pending() == old(self).pending(),
            final(self).config() == old(self).config(),
            final(self).shutdown() == old(self).shutdown(),
    {
        let n = if self.config.batch_size < self.sync_queue.len() { self.config.batch_size } else { self.sync_queue.len() };
        let ghost q = self.sync_queue@;
        let mut rest: Vec<SyncTask> = Vec::new();
        std::mem::swap(&mut rest, &mut self.sync_queue);
        let mut batch: Vec<SyncTask> = Vec::new();
        let mut i: usize = 0;
        while i < n
            invariant
                n <= q.len(),
                i <= n,
                rest@ == q.skip(i as int),
                batch@ == q.take(i as int),
            decreases n - i,
        {
            let t = rest.remove(0);
            batch.push(t);
            i = i + 1;
            assert(rest@ =~= q.skip(i as int));
            assert(batch@ =~= q.take(i as int));
        }
        proof {
            assert forall|a: int, b: int| 0 <= a < b < rest@.len() implies
                priority_rank(rest@[a].priority) <= priority_rank(rest@[b].priority) by {
                assert(rest@[a] == q[a + n]);
                assert(rest@[b] == q[b + n]);
            }
        }
        self.sync_queue = rest;
        batch
    }

    /// Marks device `device_id` as syncing.
    pub fn begin_sync_task(&mut self, device_id: &DeviceId, clock: SyncClock)
        requires
            old(self).wf(),
        ensures
            final(self).wf(),
            final(self).statuses() == table_insert(old(self).statuses(), *device_id, SyncStatus::Syncing { started_at: clock.wall_ms }),
            final(self).queue() == old(self).queue(),
            final(self).retries() == old(self).retries(),
            final(self).optimistic() == old(self).optimistic(),
            final(self).buffer() == old(self).buffer(),
            final(self).pending() == old(self).pending(),
            final(self).config() == old(self).config(),
            final(self).shutdown() == old(self).shutdown(),
    {
        table_insert_exec(&mut self.sync_status, device_id.clone(), SyncStatus::Syncing { started_at: clock.wall_ms });
    }

    /// Records a task that succeeded: the device is in sync, no longer waits for a retry, and
    /// after a push its change is no longer unconfirmed.
    pub fn complete_sync_task(&mut self, task: &SyncTask, clock: SyncClock)
        requires
            old(self).wf(),
        ensures
            final(self).wf(),
            final(self).statuses() == table_insert(old(self).statuses(), task.device_id, SyncStatus::InSync { last_synced: clock.wall_ms }),
            final(self).retries() == table_remove(old(self).retries(), task.device_id@),
            final(self).optimistic() == if task.task_type is PushToGateway {
                table_remove(old(self).optimistic(), task.device_id@)
            } else {
                old(self).optimistic()
            },
            final(self).queue() == old(self).queue(),
            final(self).buffer() == old(self).buffer(),
            final(self).pending() == old(self).pending(),
            final(self).config() == old(self).config(),
            final(self).shutdown() == old(self).shutdown(),
    {
        table_insert_exec(&mut self.sync_status, task.device_id.clone(), SyncStatus::InSync { last_synced: clock.wall_ms });
        let _ = table_remove_exec(&mut self.retry_queue, task.device_id.as_str());
        if let SyncTaskType::PushToGateway { .. } = &task.task_type {
            let _ = table_remove_exec(&mut self.optimistic_states, task.device_id.as_str());
        }
    }

    /// Records a task that failed with the given error.
    pub fn fail_sync_task(&mut self, device_id: &DeviceId, error: String, clock: SyncClock)
        requires
            old(self).wf(),
        ensures
            final(self).wf(),
            final(self).statuses() == table_insert(old(self).statuses(), *device_id,
                SyncStatus::Failed { error: error, failed_at: clock.wall_ms }),
            final(self).queue() == old(self).queue(),
            final(self).retries() == old(self).retries(),
            final(self).optimistic() == old(self).optimistic(),
            final(self).buffer() == old(self).buffer(),
            final(self).pending() == old(self).pending(),
            final(self).config() == old(self).config(),
            final(self).shutdown() == old(self).shutdown(),
    {
        table_insert_exec(&mut self.sync_status, device_id.clone(), SyncStatus::Failed { error, failed_at: clock.wall_ms });
    }

    /// Records how a task's gateway work ended: completed on success, failed with the message
    /// otherwise.
    pub fn finish_sync_task(&mut self, task: &SyncTask, outcome: Result<(), String>, clock: SyncClock)
        requires
            old(self).wf(),
        ensures
            final(self).wf(),
            match outcome {
                Ok(_) => final(self).statuses() == table_insert(old(self).statuses(), task.device_id,
                        SyncStatus::InSync { last_synced: clock.wall_ms })
                    && final(self).retries() == table_remove(old(self).retries(), task.device_id@)
                    && final(self).optimistic() == if task.task_type is PushToGateway {
                        table_remove(old(self).optimistic(), task.device_id@)
                    } else {
                        old(self).optimistic()
                    },
                Err(m) => final(self).statuses() == table_insert(old(self).statuses(), task.device_id,
                        SyncStatus::Failed { error: m, failed_at: clock.wall_ms })
                    && final(self).retries() == old(self).retries()
                    && final(self).optimistic() == old(self).optimistic(),
            },
            final(self).queue() == old(self).queue(),
            final(self).buffer() == old(self).buffer(),
            final(self).pending() == old(self).pending(),
            final(self).config() == old(self).config(),
            final(self).shutdown() == old(self).shutdown(),
    {
        match outcome {
            Ok(()) => self.complete_sync_task(task, clock),
            Err(m) => self.fail_sync_task(&task.device_id, m, clock),
        }
    }

    /// Whether the device has a client change that the gateway has not yet confirmed.
    pub fn was_optimistic(&self, device_id: &DeviceId) -> (res: bool)
        requires
            self.wf(),
        ensures
            res == (table_get(self.optimistic(), device_id@) is Some),
    {
        match table_find(&self.optimistic_states, device_id.as_str()) {
            Some(i) => {
                proof { crate::keyed::lemma_lookup_at(self.optimistic(), pair_key::<OptimisticState>(), device_id@, i as int); }
                true
            },
            None => false,
        }
    }

    /// Records another failure of `task` for a later retry, with exponential backoff.
    pub fn queue_retry(&mut self, task: &SyncTask, error: String, clock: SyncClock)
        requires
            old(self).wf(),
            retry_in_range(old(self).retries(), old(self).config(), task.device_id@, clock.mono_ms),
        ensures
            final(self).wf(),
            final(self).retries() == retry_result(old(self).retries(), old(self).config(), *task, error, clock.mono_ms),
            final(self).queue() == old(self).queue(),
            final(self).statuses() == old(self).statuses(),
            final(self).optimistic() == old(self).optimistic(),
            final(self).buffer() == old(self).buffer(),
            final(self).pending() == old(self).pending(),
            final(self).config() == old(self).config(),
            final(self).shutdown() == old(self).shutdown(),
    {
        let now = clock.mono_ms;
        match table_find(&self.retry_queue, task.device_id.as_str()) {
            Some(i) => {
                proof { crate::keyed::lemma_lookup_at(self.retries(), pair_key::<RetryEntry>(), task.device_id@, i as int); }
                let key = self.retry_queue[i].0.clone();
                let e = self.retry_queue[i].1.clone();
                let attempts = e.attempts + 1;
                let next = if attempts >= self.config.max_retry_attempts {
                    e.next_retry
                } else {
                    let shift = (attempts - 1) as u64;
                    proof {
                        lemma_u64_pow2_no_overflow(shift as nat);
                        lemma_u64_shl_is_mul(1u64, shift);
                    }
                    let factor: u64 = 1u64 << shift;
                    proof {
                        assert(self.config.base_retry_delay_ms * factor <= u64::MAX) by (nonlinear_arith)
                            requires
                                factor == pow2(shift as nat),
                                self.config.base_retry_delay_ms * pow2(shift as nat) <= u64::MAX;
                    }
                    let d = self.config.base_retry_delay_ms * factor;
                    let delay = if d <= self.config.max_retry_delay_ms { d } else { self.config.max_retry_delay_ms };
                    now + delay
                };
                let entry = RetryEntry { task: e.task, attempts, next_retry: next, last_error: Some(error) };
                table_insert_exec(&mut self.retry_queue, key, entry);
            },
            None => {
                let entry = RetryEntry {
                    task: task.clone(),
                    attempts: 1,
                    next_retry: now + self.config.base_retry_delay_ms,
                    last_error: Some(error),
                };
                table_insert_exec(&mut self.retry_queue, task.device_id.clone(), entry);
            },
        }
    }

    /// Whether another failure of a task on `device_id` can be recorded at `clock` within the
    /// machine's integers.
    pub fn retry_fits(&self, device_id: &DeviceId, clock: SyncClock) -> (res: bool)
        requires
            self.wf(),
        ensures
            res == retry_in_range(self.retries(), self.config(), device_id@, clock.mono_ms),
    {
        let now = clock.mono_ms;
        match table_find(&self.retry_queue, device_id.as_str()) {
            None => {
                proof { crate::keyed::lemma_lookup_absent(self.retries(), pair_key::<RetryEntry>(), device_id@); }
                now.checked_add(self.config.base_retry_delay_ms).is_some()
            },
            Some(i) => {
                proof { crate::keyed::lemma_lookup_at(self.retries(), pair_key::<RetryEntry>(), device_id@, i as int); }
                let attempts = self.retry_queue[i].1.attempts;
                if attempts == u32::MAX {
                    return false;
                }
                if attempts + 1 >= self.config.max_retry_attempts {
                    return true;
                }
                if attempts >= 32 {
                    return false;
                }
                proof {
                    lemma_u64_pow2_no_overflow(attempts as nat);
                    lemma_u64_shl_is_mul(1u64, attempts as u64);
                }
                let factor: u64 = 1u64 << (attempts as u64);
                match self.config.base_retry_delay_ms.checked_mul(factor) {
                    None => false,
                    Some(d) => {
                        let delay = if d <= self.config.max_retry_delay_ms { d } else { self.config.max_retry_delay_ms };
                        assert(backoff_ms(self.config, (attempts + 1) as nat) == delay);
                        now.checked_add(delay).is_some()
                    },
                }
            },
        }
    }

    /// The tasks whose retry time has come, in table order.
    pub fn ready_retries(&self, clock: SyncClock) -> (res: Vec<SyncTask>)
        ensures
            res@ == ready_retry_tasks(self.retries(), clock.mono_ms),
    {
        let mut out: Vec<SyncTask> = Vec::new();
        let mut i: usize = 0;
        while i < self.retry_queue.len()
            invariant
                i <= self.retry_queue@.len(),
                out@ == ready_retry_tasks(self.retry_queue@.take(i as int), clock.mono_ms),
            decreases self.retry_queue@.len() - i,
        {
            proof {
                assert(self.retry_queue@.take(i + 1).drop_last() =~= self.retry_queue@.take(i as int));
                assert(self.retry_queue@.take(i + 1).last() == self.retry_queue@[i as int]);
            }
            if self.retry_queue[i].1.next_retry <= clock.mono_ms {
                out.push(self.retry_queue[i].1.task.clone());
            }
            i = i + 1;
        }
        proof { assert(self.retry_queue@.take(self.retry_queue@.len() as int) =~= self.retry_queue@); }
        out
    }
}

/// The store's side wins the conflict under this tuning (for timestamp resolution, when the
/// store's reading is not older than the gateway's).
pub open spec fn server_side_wins(config: SyncConfig, server_ts: u64, gateway_ts: u64) -> bool {
    match config.conflict_resolution {
        ConflictResolution::ServerWins => true,
        ConflictResolution::TimestampWins => server_ts >= gateway_ts,
        _ => false,
    }
}

impl SyncEngine {
    /// Handles a reading of device `device_id` from the gateway.
    ///
    /// While a user change is protected (less than its window since it was sent), a reading
    /// equal to the expected state confirms it (the store takes the reading) and any other
    /// reading is ignored. Once the window has passed, the protection is dropped. Otherwise a
    /// reading that differs from the store is a conflict, resolved per the tuning: the store's
    /// state is pushed back if it wins and can be written (never for the troublesome outlets),
    /// the gateway's reading is taken if it wins (or the store's state cannot be pushed), or
    /// the conflict is recorded for manual resolution. `server_ts` and `gateway_ts` are the two
    /// clock readings that timestamp resolution compares.
    pub fn handle_gateway_state_change(&mut self, store: &mut StateStore, device_id: &DeviceId,
        gateway_state: DeviceStateValue, clock: SyncClock, server_ts: u64, gateway_ts: u64)
        -> (res: GatewayChangeOutcome)
        requires
            old(self).wf(),
            old(store).wf(),
        ensures
            final(self).wf(),
            final(store).wf(),
            final(store).groups() == old(store).groups(),
            final(self).queue() == old(self).queue(),
            final(self).retries() == old(self).retries(),
            final(self).optimistic() == old(self).optimistic(),
            final(self).buffer() == old(self).buffer(),
            final(self).config() == old(self).config(),
            final(self).shutdown() == old(self).shutdown(),
            ({
                let pending = table_get(old(self).pending(), device_id@);
                let protected = pending is Some
                    && elapsed_ms(clock.mono_ms, pending->0.sent_at) < pending->0.protection_window;
                if protected {
                    let c = pending->0;
                    &&& final(self).statuses() == old(self).statuses()
                    &&& if states_equal_spec(gateway_state, c.expected_state) {
                        &&& res matches GatewayChangeOutcome::Confirmed(n) && n.device_id@ == device_id@
                            && n.old_state == Some(c.expected_state) && n.new_state == gateway_state
                        &&& final(self).pending() == table_remove(old(self).pending(), device_id@)
                        &&& final(store).entries() == if old(store).device(device_id@) is Some {
                            update_state_result(old(store).entries(), device_id@, gateway_state, clock.wall_ms)
                        } else {
                            old(store).entries()
                        }
                    } else {
                        &&& res is Ignored
                        &&& final(self).pending() == old(self).pending()
                        &&& final(store).entries() == old(store).entries()
                    }
                } else {
                    &&& final(self).pending() == table_remove(old(self).pending(), device_id@)
                    &&& match old(store).device(device_id@) {
                        None => {
                            &&& res is UnknownDevice
                            &&& final(store).entries() == old(store).entries()
                            &&& final(self).statuses() == old(self).statuses()
                        },
                        Some(d) => if states_equal_spec(d.state, gateway_state) {
                            &&& res is AlreadyInSync
                            &&& final(store).entries() == old(store).entries()
                            &&& final(self).statuses() == old(self).statuses()
                        } else if old(self).config().conflict_resolution == ConflictResolution::Manual {
                            &&& res is ConflictRecorded
                            &&& final(store).entries() == old(store).entries()
                            &&& final(self).statuses() == table_insert(old(self).statuses(), *device_id,
                                SyncStatus::Conflict { server_state: d.state, gateway_state: gateway_state })
                        } else if server_side_wins(old(self).config(), server_ts, gateway_ts) {
                            &&& final(self).statuses() == old(self).statuses()
                            &&& if is_writable_spec(d.state) && !problematic_outlets().contains(device_id@) {
                                &&& res == GatewayChangeOutcome::PushServerState(d.state)
                                &&& final(store).entries() == old(store).entries()
                            } else {
                                &&& res matches GatewayChangeOutcome::AdoptedGatewayState(None)
                                &&& final(store).entries() == update_state_result(old(store).entries(), device_id@, gateway_state, clock.wall_ms)
                            }
                        } else {
                            &&& res matches GatewayChangeOutcome::AdoptedGatewayState(Some(n)) && n.device_id@ == device_id@
                                && n.old_state == Some(d.state) && n.new_state == gateway_state
                            &&& final(store).entries() == update_state_result(old(store).entries(), device_id@, gateway_state, clock.wall_ms)
                            &&& final(self).statuses() == old(self).statuses()
                        },
                    }
                }
            }),
    {
        match table_find(&self.pending_confirmations, device_id.as_str()) {
            Some(i) => {
                proof { crate::keyed::lemma_lookup_at(self.pending(), pair_key::<PendingConfirmation>(), device_id@, i as int); }
                let sent_at = self.pending_confirmations[i].1.sent_at;
                let window = self.pending_confirmations[i].1.protection_window;
                let elapsed = if clock.mono_ms >= sent_at { clock.mono_ms - sent_at } else { 0 };
                if elapsed < window {
                    let expected = self.pending_confirmations[i].1.expected_state.clone();
                    if states_equal(&gateway_state, &expected) {
                        let _ = table_remove_exec(&mut self.pending_confirmations, device_id.as_str());
                        let _ = store.update_device_state(device_id, gateway_state.clone(), clock.wall_ms);
                        return GatewayChangeOutcome::Confirmed(StateChangeNotice {
                            device_id: device_id.clone(),
                            old_state: Some(expected),
                            new_state: gateway_state,
                        });
                    } else {
                        return GatewayChangeOutcome::Ignored;
                    }
                } else {
                    let _ = table_remove_exec(&mut self.pending_confirmations, device_id.as_str());
                }
            },
            None => {},
        }
        match store.get_device(device_id) {
            None => GatewayChangeOutcome::UnknownDevice,
            Some(server_device) => {
                if states_equal(&server_device.state, &gateway_state) {
                    GatewayChangeOutcome::AlreadyInSync
                } else {
                    self.resolve_conflict(store, device_id, server_device.state, gateway_state, clock, server_ts, gateway_ts)
                }
            },
        }
    }

    /// Settles a disagreement between the store's state and a gateway reading as the configured
    /// resolution says; a store that holds no such device is reported when the store must change.
    pub fn resolve_conflict(&mut self, store: &mut StateStore, device_id: &DeviceId, server_state: DeviceStateValue,
        gateway_state: DeviceStateValue, clock: SyncClock, server_ts: u64, gateway_ts: u64) -> (res: GatewayChangeOutcome)
        requires
            old(self).wf(),
            old(store).wf(),
        ensures
            final(self).wf(),
            final(store).wf(),
            final(store).groups() == old(store).groups(),
            final(self).queue() == old(self).queue(),
            final(self).retries() == old(self).retries(),
            final(self).optimistic() == old(self).optimistic(),
            final(self).buffer() == old(self).buffer(),
            final(self).pending() == old(self).pending(),
            final(self).config() == old(self).config(),
            final(self).shutdown() == old(self).shutdown(),
            if old(self).config().conflict_resolution == ConflictResolution::Manual {
                &&& res is ConflictRecorded
                &&& final(store).entries() == old(store).entries()
                &&& final(self).statuses() == table_insert(old(self).statuses(), *device_id,
                    SyncStatus::Conflict { server_state: server_state, gateway_state: gateway_state })
            } else if server_side_wins(old(self).config(), server_ts, gateway_ts) {
                &&& final(self).statuses() == old(self).statuses()
                &&& if is_writable_spec(server_state) && !problematic_outlets().contains(device_id@) {
                    &&& res == GatewayChangeOutcome::PushServerState(server_state)
                    &&& final(store).entries() == old(store).entries()
                } else if old(store).device(device_id@) is None {
                    &&& res matches GatewayChangeOutcome::StoreUpdateFailed(m) && m@ == "Device not found: "@ + device_id@
                    &&& final(store).entries() == old(store).entries()
                } else {
                    &&& res matches GatewayChangeOutcome::AdoptedGatewayState(None)
                    &&& final(store).entries() == update_state_result(old(store).entries(), device_id@, gateway_state, clock.wall_ms)
                }
            } else if old(store).device(device_id@) is None {
                &&& res matches GatewayChangeOutcome::StoreUpdateFailed(m) && m@ == "Device not found: "@ + device_id@
                &&& final(store).entries() == old(store).entries()
                &&& final(self).statuses() == old(self).statuses()
            } else {
                &&& res matches GatewayChangeOutcome::AdoptedGatewayState(Some(n)) && n.device_id@ == device_id@
                    && n.old_state == Some(server_state) && n.new_state == gateway_state
                &&& final(store).entries() == update_state_result(old(store).entries(), device_id@, gateway_state, clock.wall_ms)
                &&& final(self).statuses() == old(self).statuses()
            },
    {
        let server_wins = match self.config.conflict_resolution {
            ConflictResolution::ServerWins => true,
            ConflictResolution::TimestampWins => server_ts >= gateway_ts,
            _ => false,
        };
        if self.config.conflict_resolution == ConflictResolution::Manual {
            table_insert_exec(&mut self.sync_status, device_id.clone(),
                SyncStatus::Conflict { server_state, gateway_state });
            GatewayChangeOutcome::ConflictRecorded
        } else if server_wins {
            if is_device_writable(&server_state) && !is_problematic_outlet(device_id.as_str()) {
                GatewayChangeOutcome::PushServerState(server_state)
            } else {
                match store.update_device_state(device_id, gateway_state, clock.wall_ms) {
                    Ok(()) => GatewayChangeOutcome::AdoptedGatewayState(None),
                    Err(e) => GatewayChangeOutcome::StoreUpdateFailed(crate::gateway::state_error_message(&e)),
                }
            }
        } else {
            match store.update_device_state(device_id, gateway_state.clone(), clock.wall_ms) {
                Ok(()) => GatewayChangeOutcome::AdoptedGatewayState(Some(StateChangeNotice {
                    device_id: device_id.clone(),
                    old_state: Some(server_state),
                    new_state: gateway_state,
                })),
                Err(e) => GatewayChangeOutcome::StoreUpdateFailed(crate::gateway::state_error_message(&e)),
            }
        }
    }
}

/// A pulled reading needs handling when it differs from the store's state.
pub fn needs_pull_handling(store_state: &DeviceStateValue, gateway_state: &DeviceStateValue) -> (res: bool)
    ensures
        res == !states_equal_spec(*store_state, *gateway_state),
{
    !states_equal(store_state, gateway_state)
}

/// The smaller of two naturals.
pub open spec fn min_nat(a: nat, b: nat) -> nat {
    if a < b { a } else { b }
}

/// The tasks of the retry entries due at `now`, in table order.
pub open spec fn ready_retry_tasks(t: Seq<(DeviceId, RetryEntry)>, now: u64) -> Seq<SyncTask>
    decreases t.len(),
{
    if t.len() == 0 {
        Seq::empty()
    } else {
        let rest = ready_retry_tasks(t.drop_last(), now);
        if t.last().1.next_retry <= now { rest.push(t.last().1.task) } else { rest }
    }
}

/// The index of a status variant: in sync, pending, syncing, failed, conflict.
pub open spec fn status_kind(s: SyncStatus) -> nat {
    match s {
        SyncStatus::InSync { .. } => 0,
        SyncStatus::PendingSync { .. } => 1,
        SyncStatus::Syncing { .. } => 2,
        SyncStatus::Failed { .. } => 3,
        SyncStatus::Conflict { .. } => 4,
    }
}

/// How many devices have a status of the given kind.
pub open spec fn count_status(t: Seq<(DeviceId, SyncStatus)>, kind: nat) -> nat
    decreases t.len(),
{
    if t.len() == 0 {
        0
    } else {
        count_status(t.drop_last(), kind) + if status_kind(t.last().1) == kind { 1nat } else { 0nat }
    }
}

proof fn lemma_count_push(p: Seq<(DeviceId, SyncStatus)>, e: (DeviceId, SyncStatus))
    ensures
        forall|k: nat| #[trigger] count_status(p.push(e), k) == count_status(p, k) + if status_kind(e.1) == k { 1nat } else { 0nat },
{
    assert forall|k: nat| #[trigger] count_status(p.push(e), k) == count_status(p, k) + if status_kind(e.1) == k { 1nat } else { 0nat } by {
        assert(p.push(e).drop_last() =~= p);
    }
}

/// Inserting a task at its priority position keeps the queue in priority order.
pub proof fn lemma_insert_keeps_sorted(q: Seq<SyncTask>, t: SyncTask, pos: int)
    requires
        queue_sorted(q),
        0 <= pos <= q.len(),
        forall|i: int| 0 <= i < pos ==> priority_rank(#[trigger] q[i].priority) <= priority_rank(t.priority),
        pos < q.len() ==> priority_rank(q[pos].priority) > priority_rank(t.priority),
    ensures
        queue_sorted(q.insert(pos, t)),
{
    let q2 = q.insert(pos, t);
    assert forall|i: int, j: int| 0 <= i < j < q2.len() implies priority_rank(q2[i].priority) <= priority_rank(q2[j].priority) by {
        if j == pos {
            assert(q2[i] == q[i]);
        } else if i == pos {
            assert(q2[j] == q[j - 1]);
            assert(priority_rank(q[pos].priority) <= priority_rank(q[j - 1].priority));
        } else {
            let i2 = if i < pos { i } else { i - 1 };
            let j2 = if j < pos { j } else { j - 1 };
            assert(q2[i] == q[i2]);
            assert(q2[j] == q[j2]);
        }
    }
}

/// Two light states count as equal exactly when they are the same state: on/off, brightness,
/// colour temperature and colour all agree. A change of any one of them at the hub is a change.
pub proof fn law_light_states_equal_iff_same(l1: LightState, l2: LightState)
    ensures
        states_equal_spec(DeviceStateValue::Light(l1), DeviceStateValue::Light(l2)) <==> l1 == l2,
{
}

/// A light state never counts as equal to a state of another kind.
pub proof fn law_light_never_equals_other_kind(l: LightState, s: DeviceStateValue)
    requires
        !(s is Light),
    ensures
        !states_equal_spec(DeviceStateValue::Light(l), s),
        !states_equal_spec(s, DeviceStateValue::Light(l)),
{
}

/// Comparing states does not depend on their order.
pub proof fn law_states_equal_symmetric(s1: DeviceStateValue, s2: DeviceStateValue)
    ensures
        states_equal_spec(s1, s2) == states_equal_spec(s2, s1),
{
}

/// A state counts as equal to itself, except sensor readings (an unset-or-NaN reading never
/// compares equal) and the empty state, which never counts as equal to anything.
pub proof fn law_states_equal_reflexive(s: DeviceStateValue)
    requires
        !(s is Sensor),
        !(s is Empty),
    ensures
        states_equal_spec(s, s),
{
}

/// States of different kinds never count as equal.
pub proof fn law_states_equal_same_kind(s1: DeviceStateValue, s2: DeviceStateValue)
    requires
        states_equal_spec(s1, s2),
    ensures
        (s1 is Light) == (s2 is Light),
        (s1 is Outlet) == (s2 is Outlet),
        (s1 is Sensor) == (s2 is Sensor),
        (s1 is Switch) == (s2 is Switch),
        (s1 is MotionSensor) == (s2 is MotionSensor),
        (s1 is Scene) == (s2 is Scene),
        (s1 is Timer) == (s2 is Timer),
        !(s1 is Empty) && !(s2 is Empty),
{
}

/// Two outlets count as equal exactly when both are on or both are off; power readings do not
/// matter.
pub proof fn law_outlet_states_equal_iff_same_switch(o1: OutletState, o2: OutletState)
    ensures
        states_equal_spec(DeviceStateValue::Outlet(o1), DeviceStateValue::Outlet(o2)) <==> o1.is_on == o2.is_on,
{
}

/// A reading of a light that differs from the stored light in any of on/off, brightness, colour
/// temperature or colour needs handling; one that matches it does not.
pub proof fn law_changed_light_needs_handling(stored: LightState, reported: LightState)
    ensures
        !states_equal_spec(DeviceStateValue::Light(stored), DeviceStateValue::Light(reported)) <==> stored != reported,
{
}
} // verus!
