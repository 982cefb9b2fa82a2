//! Microkernel process supervisor: boot lifecycle, process registration and
//! crash recovery under restart policies.
use crate::clock::{duration_debug, duration_nanos, span_debug_text, span_from_secs, span_nanos};
use crate::event_bus::{
    Event, EventBus, EventBusError, EventIds, after_notice, dispatched, insert_field, lemma_one_field,
    lemma_two_fields, state_field, event_bus_error_text, notice_answers, notified,
};
use crate::text::{decimal, join2, join3, join4, join5, owned, u64_to_decimal};
use std::collections::BTreeMap;
use std::time::Duration;
use vstd::prelude::*;

verus! {

/// Capability that guards process supervision.
pub const CAP_KERNEL_SUPERVISE: &'static str = "CAP_KERNEL_SUPERVISE";

/// Cold boot budget in nanoseconds (2 seconds).
pub const COLD_BOOT_BUDGET_NANOS: u128 = 2_000_000_000;

/// Unique identifier for a monitored process.
#[derive(Clone, Copy, Debug, PartialEq, Eq, PartialOrd, Ord, Hash)]
pub struct ProcessId(pub u64);

/// Lifecycle states of the microkernel.
#[derive(Clone, Copy, Debug, PartialEq, Eq)]
pub enum KernelState {
    Uninitialized,
    Booting,
    Running,
    ShuttingDown,
    Stopped,
    Failed,
}

/// Execution and health states of a monitored process.
#[derive(Clone, Debug, PartialEq, Eq)]
pub enum ProcessState {
    Registered,
    Starting,
    Running,
    Stopped,
    Failed { error: String },
}

/// Restart policy for crash recovery under supervision.
#[derive(Clone, Copy, Debug, PartialEq, Eq)]
pub enum RestartPolicy {
    Never,
    OnFailure { max_retries: u32 },
}

/// Record of a monitored subsystem process.
#[derive(Clone, Debug, PartialEq, Eq)]
pub struct ProcessRecord {
    pub id: ProcessId,
    pub name: String,
    pub state: ProcessState,
    pub policy: RestartPolicy,
    pub restart_count: u32,
}

/// Configuration of the supervisor.
#[derive(Clone, Debug, PartialEq, Eq)]
pub struct KernelConfig {
    pub boot_timeout: Duration,
    pub max_process_restarts: u32,
}

impl Default for KernelConfig {
    /// A two-second boot timeout and at most three restarts.
    fn default() -> (c: Self)
        ensures
            duration_nanos(c.boot_timeout) == 2_000_000_000,
            c.max_process_restarts == 3,
    {
        KernelConfig { boot_timeout: span_from_secs(2), max_process_restarts: 3 }
    }
}

/// What an authority answered when asked for a capability: granted, refused as
/// unauthorized for the named capability, or failed for another reason.
#[derive(Clone, Debug, PartialEq, Eq)]
pub enum CapabilityCheck {
    Granted,
    Unauthorized { capability_id: String },
    Rejected { message: String },
}

/// Errors produced by the supervisor.
#[derive(Clone, Debug, PartialEq, Eq)]
pub enum KernelError {
    BootFailed { message: String },
    ProcessNotFound { id: ProcessId },
    ProcessFailed { id: ProcessId, message: String },
    Unauthorized { capability_id: String },
    InvalidState { current: String, expected: String },
    LockError { message: String },
    Capability { message: String },
    EventBus(EventBusError),
}

/// The text of a [`KernelError`].
pub open spec fn kernel_error_text(e: KernelError) -> Seq<char> {
    match e {
        KernelError::BootFailed { message } => "Kernel boot failed: "@ + message@,
        KernelError::ProcessNotFound { id } => "Process not found: "@ + decimal(id.0 as nat),
        KernelError::ProcessFailed { id, message } => "Process "@ + decimal(id.0 as nat)
            + " failed: "@ + message@,
        KernelError::Unauthorized { capability_id } => "Unauthorized capability '"@
            + capability_id@ + "' for kernel operation"@,
        KernelError::InvalidState { current, expected } =>
            "Invalid kernel state transition: current '"@ + current@ + "', expected '"@
                + expected@ + "'"@,
        KernelError::LockError { message } => "Kernel lock error: "@ + message@,
        KernelError::Capability { message } => "Capability error: "@ + message@,
        KernelError::EventBus(err) => "EventBus error: "@ + event_bus_error_text(err),
    }
}

impl KernelError {
    /// Renders the error as text.
    pub fn to_string(&self) -> (s: String)
        ensures
            s@ == kernel_error_text(*self),
    {
        match self {
            KernelError::BootFailed { message } => join2("Kernel boot failed: ", message.as_str()),
            KernelError::ProcessNotFound { id } => {
                let n = u64_to_decimal(id.0);
                join2("Process not found: ", n.as_str())
            },
            KernelError::ProcessFailed { id, message } => {
                let n = u64_to_decimal(id.0);
                join4("Process ", n.as_str(), " failed: ", message.as_str())
            },
            KernelError::Unauthorized { capability_id } => join3(
                "Unauthorized capability '",
                capability_id.as_str(),
                "' for kernel operation",
            ),
            KernelError::InvalidState { current, expected } => {
                let mut s = join5(
                    "Invalid kernel state transition: current '",
                    current.as_str(),
                    "', expected '",
                    expected.as_str(),
                    "'",
                );
                s
            },
            KernelError::LockError { message } => join2("Kernel lock error: ", message.as_str()),
            KernelError::Capability { message } => join2("Capability error: ", message.as_str()),
            KernelError::EventBus(err) => {
                let inner = err.to_string();
                join2("EventBus error: ", inner.as_str())
            },
        }
    }
}

/// The name of a kernel state, as its debug rendering spells it.
pub open spec fn kernel_state_name(s: KernelState) -> Seq<char> {
    match s {
        KernelState::Uninitialized => "Uninitialized"@,
        KernelState::Booting => "Booting"@,
        KernelState::Running => "Running"@,
        KernelState::ShuttingDown => "ShuttingDown"@,
        KernelState::Stopped => "Stopped"@,
        KernelState::Failed => "Failed"@,
    }
}

/// Returns the name of a kernel state.
pub fn kernel_state_label(s: KernelState) -> (r: &'static str)
    ensures
        r@ == kernel_state_name(s),
{
    match s {
        KernelState::Uninitialized => "Uninitialized",
        KernelState::Booting => "Booting",
        KernelState::Running => "Running",
        KernelState::ShuttingDown => "ShuttingDown",
        KernelState::Stopped => "Stopped",
        KernelState::Failed => "Failed",
    }
}

impl ProcessState {
    /// A copy of the state.
    pub fn duplicate(&self) -> (r: ProcessState)
        ensures
            r == *self,
    {
        match self {
            ProcessState::Registered => ProcessState::Registered,
            ProcessState::Starting => ProcessState::Starting,
            ProcessState::Running => ProcessState::Running,
            ProcessState::Stopped => ProcessState::Stopped,
            ProcessState::Failed { error } => ProcessState::Failed { error: error.clone() },
        }
    }
}

impl ProcessRecord {
    /// A copy of the record.
    pub fn duplicate(&self) -> (r: ProcessRecord)
        ensures
            r == *self,
    {
        ProcessRecord {
            id: self.id,
            name: self.name.clone(),
            state: self.state.duplicate(),
            policy: self.policy,
            restart_count: self.restart_count,
        }
    }
}

/// The payload of a failure notice: the process identifier in decimal and the
/// error.
pub open spec fn failure_fields(id: ProcessId, error: Seq<char>) -> Seq<(Seq<char>, Seq<char>)> {
    seq![("process_id"@, decimal(id.0 as nat)), ("error"@, error)]
}

/// How a lifecycle step that announces itself ends: the event of type `topic` from
/// the kernel with payload `{state: <state>}` is dispatched; the step answers `Ok`
/// when the handlers accept it, the bus error otherwise.
pub open spec fn announced(
    bus: Option<&EventBus>,
    topic: Seq<char>,
    state: Seq<char>,
    r: Result<(), KernelError>,
) -> bool {
    match r {
        Ok(_) => notice_answers(bus, topic, "kernel"@, state_field(state), Ok(())),
        Err(KernelError::EventBus(e)) => notice_answers(bus, topic, "kernel"@, state_field(state), Err(e)),
        Err(_) => false,
    }
}

/// The restart-count bound that every supervised record keeps: a record under
/// `OnFailure { max_retries }` has been restarted at most `max_retries` times, one
/// under `Never` not at all.
pub open spec fn within_restart_budget(r: ProcessRecord) -> bool {
    match r.policy {
        RestartPolicy::Never => r.restart_count == 0,
        RestartPolicy::OnFailure { max_retries } => r.restart_count <= max_retries,
    }
}

/// The record after the supervisor started: registered and starting processes run.
pub open spec fn started_record(r: ProcessRecord) -> ProcessRecord {
    match r.state {
        ProcessState::Registered | ProcessState::Starting => ProcessRecord {
            state: ProcessState::Running,
            ..r
        },
        _ => r,
    }
}

/// Starting the supervisor wakes only the processes waiting to run: a registered
/// or starting process is set running, while a running, stopped or failed one
/// keeps its state (a failed process keeps its error); identity, name, policy and
/// restart count never change.
pub proof fn law_start_wakes_only_waiting(r: ProcessRecord)
    ensures
        started_record(r).id == r.id,
        started_record(r).name == r.name,
        started_record(r).policy == r.policy,
        started_record(r).restart_count == r.restart_count,
        (r.state is Registered || r.state is Starting) ==> started_record(r).state
            == ProcessState::Running,
        !(r.state is Registered || r.state is Starting) ==> started_record(r).state == r.state,
{
}

/// The record after shutdown: the process is stopped.
pub open spec fn stopped_record(r: ProcessRecord) -> ProcessRecord {
    ProcessRecord { state: ProcessState::Stopped, ..r }
}

/// Shutting down stops every process and changes nothing else of its record.
pub proof fn law_shutdown_stops(r: ProcessRecord)
    ensures
        stopped_record(r).state == ProcessState::Stopped,
        stopped_record(r).id == r.id,
        stopped_record(r).name == r.name,
        stopped_record(r).policy == r.policy,
        stopped_record(r).restart_count == r.restart_count,
{
}

/// Microkernel process supervisor and lifecycle manager.
#[derive(Debug)]
pub struct Kernel {
    config: KernelConfig,
    state: KernelState,
    processes: Vec<ProcessRecord>,
    next_process_id: u64,
    events: EventIds,
}

impl Kernel {
    /// The lifecycle state.
    pub closed spec fn lifecycle(&self) -> KernelState {
        self.state
    }

    /// The configuration the supervisor was created with.
    pub closed spec fn config_view(&self) -> KernelConfig {
        self.config
    }

    /// The identifier the next registered process receives.
    pub closed spec fn next_pid(&self) -> u64 {
        self.next_process_id
    }

    /// The sequence number the kernel's next event receives.
    pub closed spec fn event_number(&self) -> u64 {
        self.events.upcoming()
    }

    /// The supervised processes, keyed by identifier.
    pub closed spec fn table(&self) -> Map<u64, ProcessRecord> {
        Map::new(
            |k: u64| 1 <= k <= self.processes@.len(),
            |k: u64| self.processes@[k - 1],
        )
    }

    /// Well-formedness: process `k` sits at position `k - 1`, identifiers are handed
    /// out in order, and every record keeps its restart budget.
    pub closed spec fn wf(&self) -> bool {
        &&& forall|i: int|
            0 <= i < self.processes@.len() ==> (#[trigger] self.processes@[i]).id.0 == i + 1
        &&& forall|i: int|
            0 <= i < self.processes@.len() ==> within_restart_budget(#[trigger] self.processes@[i])
        &&& self.next_process_id == self.processes@.len() + 1
    }

    /// Process identifiers are handed out in order from 1: the supervised
    /// processes are exactly those numbered below the next identifier, each
    /// recorded under its own number.
    pub proof fn law_process_numbering(&self, id: u64)
        requires
            self.wf(),
        ensures
            self.table().contains_key(id) <==> 1 <= id < self.next_pid(),
            self.table().contains_key(id) ==> self.table()[id].id == ProcessId(id),
    {
        if 1 <= id <= self.processes@.len() {
            self.lemma_table_index(id);
        }
    }

    /// Every supervised process stays within its restart budget: under
    /// `OnFailure { max_retries }` it has been restarted at most `max_retries`
    /// times, under `Never` not at all.
    pub proof fn law_restart_budget(&self, id: u64)
        requires
            self.wf(),
            self.table().contains_key(id),
        ensures
            within_restart_budget(self.table()[id]),
    {
        self.lemma_table_index(id);
    }

    proof fn lemma_table_index(&self, k: u64)
        requires
            1 <= k <= self.processes@.len(),
        ensures
            self.table().contains_key(k),
            self.table()[k] == self.processes@[k - 1],
    {
    }

    /// Position of process `id` in the record list, if it is supervised.
    fn slot_of(&self, id: ProcessId) -> (r: Option<usize>)
        requires
            self.wf(),
        ensures
            r matches Some(i) ==> i == id.0 - 1 && i < self.processes@.len()
                && self.table().contains_key(id.0) && self.table()[id.0] == self.processes@[i as int],
            r is None ==> !self.table().contains_key(id.0),
    {
        let n = self.processes.len();
        if id.0 >= 1 && id.0 - 1 < n as u64 {
            let i = (id.0 - 1) as usize;
            Some(i)
        } else {
            None
        }
    }

    /// Creates a supervisor in the `Uninitialized` state with no processes.
    pub fn new(config: KernelConfig) -> (k: Kernel)
        ensures
            k.wf(),
            k.lifecycle() == KernelState::Uninitialized,
            k.table() == Map::<u64, ProcessRecord>::empty(),
            k.next_pid() == 1,
            k.config_view() == config,
            k.event_number() == 1,
    {
        let k = Kernel {
            config,
            state: KernelState::Uninitialized,
            processes: Vec::new(),
            next_process_id: 1,
            events: EventIds::new(),
        };
        assert(k.table() =~= Map::<u64, ProcessRecord>::empty());
        k
    }

    /// Returns the current lifecycle state.
    pub fn state(&self) -> (s: KernelState)
        ensures
            s == self.lifecycle(),
    {
        self.state
    }

    fn publish_notice(
        bus: Option<&EventBus>,
        ids: &mut EventIds,
        topic: &str,
        source: &str,
        value: &str,
    ) -> (r: Result<(), EventBusError>)
        ensures
            notice_answers(bus, topic@, source@, state_field(value@), r),
            final(ids).upcoming() == after_notice(bus, old(ids).upcoming()),
    {
        match bus {
            None => Ok(()),
            Some(b) => {
                let mut payload: BTreeMap<String, String> = BTreeMap::new();
                let key = owned("state");
                let val = owned(value);
                let ghost (k, v) = (key, val);
                insert_field(&mut payload, key, val);
                let event = Event::new(topic, source, ids).with_payload(payload);
                let r = b.publish(&event);
                proof {
                    reveal_strlit("state");
                    lemma_one_field(event, k, v);
                    assert(seq![(k@, v@)] =~= state_field(value@));
                    let answers = choose|a: Seq<Result<(), EventBusError>>| dispatched(b, event, a, r);
                    assert(dispatched(b, event, answers, r));
                }
                r
            },
        }
    }

    /// Publishes, on behalf of `source`, an event of type `topic` with payload
    /// `{state: <value>}`, numbered by the kernel's numbering, so that the events of
    /// the kernel and of the components around it are numbered together. Nothing
    /// else of the kernel changes.
    pub(crate) fn announce_for(
        &mut self,
        bus: Option<&EventBus>,
        topic: &str,
        source: &str,
        value: &str,
    ) -> (r: Result<(), EventBusError>)
        requires
            old(self).wf(),
        ensures
            final(self).wf(),
            final(self).lifecycle() == old(self).lifecycle(),
            final(self).table() == old(self).table(),
            final(self).next_pid() == old(self).next_pid(),
            final(self).config_view() == old(self).config_view(),
            notice_answers(bus, topic@, source@, state_field(value@), r),
            final(self).event_number() == after_notice(bus, old(self).event_number()),
    {
        Self::publish_notice(bus, &mut self.events, topic, source, value)
    }

    /// Boots the supervisor: only from `Uninitialized`; a boot timeout beyond the
    /// two-second cold boot budget fails the kernel; otherwise the kernel enters
    /// `Booting` and announces `system.booting`.
    pub fn boot(&mut self, event_bus: Option<&EventBus>) -> (r: Result<(), KernelError>)
        requires
            old(self).wf(),
        ensures
            final(self).wf(),
            final(self).table() == old(self).table(),
            final(self).next_pid() == old(self).next_pid(),
            final(self).config_view() == old(self).config_view(),
            old(self).lifecycle() != KernelState::Uninitialized ==> {
                &&& final(self).lifecycle() == old(self).lifecycle()
                &&& r matches Err(KernelError::InvalidState { current, expected })
                &&& current@ == kernel_state_name(old(self).lifecycle())
                &&& expected@ == "Uninitialized"@
                &&& final(self).event_number() == old(self).event_number()
            },
            old(self).lifecycle() == KernelState::Uninitialized && duration_nanos(
                old(self).config_view().boot_timeout,
            ) > 2_000_000_000 ==> {
                &&& final(self).lifecycle() == KernelState::Failed
                &&& r matches Err(KernelError::BootFailed { message })
                &&& message@ == "Boot timeout "@ + duration_debug(old(self).config_view().boot_timeout)
                    + " exceeds 2.0s cold boot budget"@
                &&& final(self).event_number() == old(self).event_number()
            },
            old(self).lifecycle() == KernelState::Uninitialized && duration_nanos(
                old(self).config_view().boot_timeout,
            ) <= 2_000_000_000 ==> {
                &&& final(self).lifecycle() == KernelState::Booting
                &&& announced(event_bus, "system.booting"@, "booting"@, r)
                &&& final(self).event_number() == after_notice(event_bus, old(self).event_number())
            },
    {
        if !matches!(self.state, KernelState::Uninitialized) {
            proof {
                reveal_strlit("Uninitialized");
            }
            return Err(
                KernelError::InvalidState {
                    current: owned(kernel_state_label(self.state)),
                    expected: owned("Uninitialized"),
                },
            );
        }
        let timeout = span_nanos(self.config.boot_timeout);
        if timeout > COLD_BOOT_BUDGET_NANOS {
            self.state = KernelState::Failed;
            let shown = span_debug_text(self.config.boot_timeout);
            let message = join3(
                "Boot timeout ",
                shown.as_str(),
                " exceeds 2.0s cold boot budget",
            );
            return Err(KernelError::BootFailed { message });
        }
        self.state = KernelState::Booting;
        proof {
            reveal_strlit("system.booting");
        }
        let answer = Self::publish_notice(event_bus, &mut self.events, "system.booting", "kernel", "booting");
        match answer {
            Ok(u) => {
                assert(answer == Ok::<(), EventBusError>(()));
                Ok(u)
            },
            Err(e) => Err(KernelError::EventBus(e)),
        }
    }

    /// Starts the supervisor: only from `Booting`. The kernel runs, every
    /// registered or starting process runs, and `system.started` is announced.
    pub fn start(&mut self, event_bus: Option<&EventBus>) -> (r: Result<(), KernelError>)
        requires
            old(self).wf(),
        ensures
            final(self).wf(),
            final(self).next_pid() == old(self).next_pid(),
            final(self).config_view() == old(self).config_view(),
            old(self).lifecycle() != KernelState::Booting ==> {
                &&& final(self).lifecycle() == old(self).lifecycle()
                &&& final(self).table() == old(self).table()
                &&& r matches Err(KernelError::InvalidState { current, expected })
                &&& current@ == kernel_state_name(old(self).lifecycle())
                &&& expected@ == "Booting"@
                &&& final(self).event_number() == old(self).event_number()
            },
            old(self).lifecycle() == KernelState::Booting ==> {
                &&& final(self).lifecycle() == KernelState::Running
                &&& final(self).table().dom() == old(self).table().dom()
                &&& forall|k: u64|
                    old(self).table().contains_key(k) ==> #[trigger] final(self).table()[k]
                        == started_record(old(self).table()[k])
                &&& announced(event_bus, "system.started"@, "running"@, r)
                &&& final(self).event_number() == after_notice(event_bus, old(self).event_number())
            },
    {
        if !matches!(self.state, KernelState::Booting) {
            proof {
                reveal_strlit("Booting");
            }
            return Err(
                KernelError::InvalidState {
                    current: owned(kernel_state_label(self.state)),
                    expected: owned("Booting"),
                },
            );
        }
        self.state = KernelState::Running;
        let n = self.processes.len();
        let mut i: usize = 0;
        while i < n
            invariant
                n == self.processes@.len(),
                n == old(self).processes@.len(),
                i <= n,
                self.state == KernelState::Running,
                self.config == old(self).config,
                self.next_process_id == old(self).next_process_id,
                self.events == old(self).events,
                old(self).wf(),
                forall|k: int|
                    0 <= k < i ==> #[trigger] self.processes@[k] == started_record(
                        old(self).processes@[k],
                    ),
                forall|k: int| i <= k < n ==> #[trigger] self.processes@[k] == old(self).processes@[k],
            decreases n - i,
        {
            let is_waiting = matches!(
                self.processes[i].state,
                ProcessState::Registered | ProcessState::Starting
            );
            if is_waiting {
                let mut rec = self.processes[i].duplicate();
                rec.state = ProcessState::Running;
                self.processes.set(i, rec);
            }
            i = i + 1;
        }
        assert(self.wf()) by {
            assert forall|k: int| 0 <= k < self.processes@.len() implies (
            #[trigger] self.processes@[k]).id.0 == k + 1 && within_restart_budget(
                self.processes@[k],
            ) by {
                assert(old(self).processes@[k].id.0 == k + 1);
                assert(within_restart_budget(old(self).processes@[k]));
            }
        }
        assert forall|k: u64| old(self).table().contains_key(k) implies #[trigger] self.table()[k]
            == started_record(old(self).table()[k]) by {
            self.lemma_table_index(k);
            old(self).lemma_table_index(k);
        }
        assert(self.table().dom() =~= old(self).table().dom());
        proof {
            reveal_strlit("system.started");
        }
        let answer = Self::publish_notice(event_bus, &mut self.events, "system.started", "kernel", "running");
        match answer {
            Ok(u) => {
                assert(answer == Ok::<(), EventBusError>(()));
                Ok(u)
            },
            Err(e) => Err(KernelError::EventBus(e)),
        }
    }

    /// Shuts the supervisor down: a stopped kernel stays as it is; otherwise
    /// `system.shutdown` is announced (its outcome is ignored), every process is
    /// stopped and the kernel ends `Stopped`.
    pub fn shutdown(&mut self, event_bus: Option<&EventBus>) -> (r: Result<(), KernelError>)
        requires
            old(self).wf(),
        ensures
            final(self).wf(),
            r is Ok,
            final(self).next_pid() == old(self).next_pid(),
            final(self).config_view() == old(self).config_view(),
            final(self).lifecycle() == KernelState::Stopped,
            old(self).lifecycle() == KernelState::Stopped ==> final(self).table() == old(
                self,
            ).table() && final(self).event_number() == old(self).event_number(),
            old(self).lifecycle() != KernelState::Stopped ==> {
                &&& notified(event_bus, "system.shutdown"@, "kernel"@, state_field("shutdown"@))
                &&& final(self).event_number() == after_notice(event_bus, old(self).event_number())
                &&& final(self).table().dom() == old(self).table().dom()
                &&& forall|k: u64|
                    old(self).table().contains_key(k) ==> #[trigger] final(self).table()[k]
                        == stopped_record(old(self).table()[k])
            },
    {
        if matches!(self.state, KernelState::Stopped) {
            return Ok(());
        }
        self.state = KernelState::ShuttingDown;
        let answer = Self::publish_notice(event_bus, &mut self.events, "system.shutdown", "kernel", "shutdown");
        assert(notified(event_bus, "system.shutdown"@, "kernel"@, state_field("shutdown"@)));
        let n = self.processes.len();
        let mut i: usize = 0;
        while i < n
            invariant
                n == self.processes@.len(),
                n == old(self).processes@.len(),
                i <= n,
                self.config == old(self).config,
                self.next_process_id == old(self).next_process_id,
                self.events.upcoming() == after_notice(event_bus, old(self).events.upcoming()),
                old(self).wf(),
                forall|k: int|
                    0 <= k < i ==> #[trigger] self.processes@[k] == stopped_record(
                        old(self).processes@[k],
                    ),
                forall|k: int| i <= k < n ==> #[trigger] self.processes@[k] == old(self).processes@[k],
            decreases n - i,
        {
            let mut rec = self.processes[i].duplicate();
            rec.state = ProcessState::Stopped;
            self.processes.set(i, rec);
            i = i + 1;
        }
        self.state = KernelState::Stopped;
        assert(self.wf()) by {
            assert forall|k: int| 0 <= k < self.processes@.len() implies (
            #[trigger] self.processes@[k]).id.0 == k + 1 && within_restart_budget(
                self.processes@[k],
            ) by {
                assert(old(self).processes@[k].id.0 == k + 1);
                assert(within_restart_budget(old(self).processes@[k]));
            }
        }
        assert forall|k: u64| old(self).table().contains_key(k) implies #[trigger] self.table()[k]
            == stopped_record(old(self).table()[k]) by {
            self.lemma_table_index(k);
            old(self).lemma_table_index(k);
        }
        assert(self.table().dom() =~= old(self).table().dom());
        Ok(())
    }

    /// Registers a new process under `policy`. When `authorization` is given it is
    /// the answer to a request for [`CAP_KERNEL_SUPERVISE`]: a refusal is reported
    /// and nothing is registered. The process starts `Running` on a running kernel
    /// and `Registered` otherwise.
    pub fn register_process(
        &mut self,
        name: &str,
        policy: RestartPolicy,
        authorization: Option<CapabilityCheck>,
    ) -> (r: Result<ProcessId, KernelError>)
        requires
            old(self).wf(),
            old(self).next_pid() < u64::MAX,
        ensures
            final(self).wf(),
            final(self).event_number() == old(self).event_number(),
            final(self).lifecycle() == old(self).lifecycle(),
            final(self).config_view() == old(self).config_view(),
            match authorization {
                Some(CapabilityCheck::Unauthorized { capability_id }) => {
                    &&& r == Err::<ProcessId, KernelError>(
                        KernelError::Unauthorized { capability_id },
                    )
                    &&& final(self).table() == old(self).table()
                    &&& final(self).next_pid() == old(self).next_pid()
                },
                Some(CapabilityCheck::Rejected { message }) => {
                    &&& r == Err::<ProcessId, KernelError>(KernelError::Capability { message })
                    &&& final(self).table() == old(self).table()
                    &&& final(self).next_pid() == old(self).next_pid()
                },
                _ => {
                    let id = old(self).next_pid();
                    &&& r == Ok::<ProcessId, KernelError>(ProcessId(id))
                    &&& final(self).next_pid() == id + 1
                    &&& final(self).table().dom() == old(self).table().dom().insert(id)
                    &&& forall|k: u64|
                        old(self).table().contains_key(k) ==> #[trigger] final(self).table()[k]
                            == old(self).table()[k]
                    &&& final(self).table()[id].id == ProcessId(id)
                    &&& final(self).table()[id].name@ == name@
                    &&& final(self).table()[id].state == (if old(self).lifecycle()
                        == KernelState::Running {
                        ProcessState::Running
                    } else {
                        ProcessState::Registered
                    })
                    &&& final(self).table()[id].policy == policy
                    &&& final(self).table()[id].restart_count == 0
                },
            },
    {
        match authorization {
            Some(CapabilityCheck::Unauthorized { capability_id }) => {
                return Err(KernelError::Unauthorized { capability_id });
            },
            Some(CapabilityCheck::Rejected { message }) => {
                return Err(KernelError::Capability { message });
            },
            _ => {},
        }
        let id = ProcessId(self.next_process_id);
        let initial = if matches!(self.state, KernelState::Running) {
            ProcessState::Running
        } else {
            ProcessState::Registered
        };
        let record = ProcessRecord {
            id,
            name: owned(name),
            state: initial,
            policy,
            restart_count: 0,
        };
        self.processes.push(record);
        self.next_process_id = self.next_process_id + 1;
        assert(self.wf()) by {
            assert forall|k: int| 0 <= k < self.processes@.len() implies (
            #[trigger] self.processes@[k]).id.0 == k + 1 && within_restart_budget(
                self.processes@[k],
            ) by {
                if k < old(self).processes@.len() {
                    assert(self.processes@[k] == old(self).processes@[k]);
                }
            }
        }
        assert(self.table().dom() =~= old(self).table().dom().insert(id.0));
        assert forall|k: u64| old(self).table().contains_key(k) implies #[trigger] self.table()[k]
            == old(self).table()[k] by {
            self.lemma_table_index(k);
            old(self).lemma_table_index(k);
        }
        proof {
            self.lemma_table_index(id.0);
        }
        Ok(id)
    }

    /// Stops the process `id`: answers `Ok(true)` and marks it `Stopped`, or
    /// reports that no such process is supervised.
    pub fn stop_process(&mut self, id: ProcessId) -> (r: Result<bool, KernelError>)
        requires
            old(self).wf(),
        ensures
            final(self).wf(),
            final(self).event_number() == old(self).event_number(),
            final(self).lifecycle() == old(self).lifecycle(),
            final(self).config_view() == old(self).config_view(),
            final(self).next_pid() == old(self).next_pid(),
            old(self).table().contains_key(id.0) ==> {
                &&& r == Ok::<bool, KernelError>(true)
                &&& final(self).table() == old(self).table().insert(
                    id.0,
                    stopped_record(old(self).table()[id.0]),
                )
            },
            !old(self).table().contains_key(id.0) ==> {
                &&& r == Err::<bool, KernelError>(KernelError::ProcessNotFound { id })
                &&& final(self).table() == old(self).table()
            },
    {
        if let Some(idx) = self.slot_of(id) {
            let mut rec = self.processes[idx].duplicate();
            rec.state = ProcessState::Stopped;
            self.processes.set(idx, rec);
            assert(self.wf()) by {
                assert forall|k: int| 0 <= k < self.processes@.len() implies (
                #[trigger] self.processes@[k]).id.0 == k + 1 && within_restart_budget(
                    self.processes@[k],
                ) by {
                    assert(old(self).processes@[k].id.0 == k + 1);
                    assert(within_restart_budget(old(self).processes@[k]));
                }
            }
            assert(self.table() =~= old(self).table().insert(
                id.0,
                stopped_record(old(self).table()[id.0]),
            ));
            Ok(true)
        } else {
            Err(KernelError::ProcessNotFound { id })
        }
    }

    /// Returns the state of the process `id`, or reports that it is not supervised.
    pub fn get_process_state(&self, id: ProcessId) -> (r: Result<ProcessState, KernelError>)
        requires
            self.wf(),
        ensures
            self.table().contains_key(id.0) ==> r == Ok::<ProcessState, KernelError>(
                self.table()[id.0].state,
            ),
            !self.table().contains_key(id.0) ==> r == Err::<ProcessState, KernelError>(
                KernelError::ProcessNotFound { id },
            ),
    {
        if let Some(idx) = self.slot_of(id) {
            Ok(self.processes[idx].state.duplicate())
        } else {
            Err(KernelError::ProcessNotFound { id })
        }
    }

    fn publish_failure(bus: Option<&EventBus>, ids: &mut EventIds, id: ProcessId, error: &str)
        ensures
            notified(bus, "process.failed"@, "kernel"@, failure_fields(id, error@)),
            final(ids).upcoming() == after_notice(bus, old(ids).upcoming()),
    {
        match bus {
            None => {
                assert(notice_answers(
                    bus,
                    "process.failed"@,
                    "kernel"@,
                    failure_fields(id, error@),
                    Ok(()),
                ));
            },
            Some(b) => {
                let mut payload: BTreeMap<String, String> = BTreeMap::new();
                let k1 = owned("process_id");
                let v1 = u64_to_decimal(id.0);
                let k2 = owned("error");
                let v2 = owned(error);
                let ghost (gk1, gv1, gk2, gv2) = (k1, v1, k2, v2);
                insert_field(&mut payload, k1, v1);
                insert_field(&mut payload, k2, v2);
                let event = Event::new("process.failed", "kernel", ids).with_payload(payload);
                let r = b.publish(&event);
                proof {
                    reveal_strlit("process_id");
                    reveal_strlit("error");
                    assert(gk1@ != gk2@) by {
                        assert(gk1@.len() != gk2@.len());
                    }
                    lemma_two_fields(event, gk1, gv1, gk2, gv2);
                    assert(seq![(gk1@, gv1@), (gk2@, gv2@)] =~= failure_fields(id, error@));
                    let answers = choose|a: Seq<Result<(), EventBusError>>| dispatched(b, event, a, r);
                    assert(dispatched(b, event, answers, r));
                    assert(notice_answers(
                        bus,
                        "process.failed"@,
                        "kernel"@,
                        failure_fields(id, error@),
                        r,
                    ));
                }
            },
        }
    }

    /// Reports a failure of process `id` and recovers according to its policy. Under
    /// `OnFailure { max_retries }` the process is restarted (it runs again and its
    /// restart count grows) while fewer than `max_retries` restarts happened;
    /// after that, and always under `Never`, it is marked failed with `error`,
    /// `process.failed` is announced, and the failure is reported. The supervisor's
    /// own lifecycle state never changes.
    pub fn report_process_failure(
        &mut self,
        id: ProcessId,
        error: &str,
        event_bus: Option<&EventBus>,
    ) -> (r: Result<(), KernelError>)
        requires
            old(self).wf(),
        ensures
            final(self).wf(),
            final(self).lifecycle() == old(self).lifecycle(),
            final(self).config_view() == old(self).config_view(),
            final(self).next_pid() == old(self).next_pid(),
            final(self).table().dom() == old(self).table().dom(),
            forall|k: u64|
                k != id.0 && old(self).table().contains_key(k) ==> #[trigger] final(self).table()[k]
                    == old(self).table()[k],
            !old(self).table().contains_key(id.0) ==> {
                &&& r == Err::<(), KernelError>(KernelError::ProcessNotFound { id })
                &&& final(self).table() == old(self).table()
                &&& final(self).event_number() == old(self).event_number()
            },
            old(self).table().contains_key(id.0) ==> {
                let before = old(self).table()[id.0];
                let after = final(self).table()[id.0];
                &&& after.id == before.id
                &&& after.name == before.name
                &&& after.policy == before.policy
                &&& match before.policy {
                    RestartPolicy::OnFailure { max_retries } => if before.restart_count
                        < max_retries {
                        &&& r is Ok
                        &&& after.state == ProcessState::Running
                        &&& after.restart_count == before.restart_count + 1
                        &&& final(self).event_number() == old(self).event_number()
                    } else {
                        &&& after.restart_count == before.restart_count
                        &&& after.state matches ProcessState::Failed { error: e }
                        &&& e@ == error@
                        &&& r matches Err(KernelError::ProcessFailed { id: failed, message })
                        &&& failed == id
                        &&& message@ == "Exhausted max retries ("@ + decimal(max_retries as nat)
                            + ")"@
                        &&& notified(event_bus, "process.failed"@, "kernel"@, failure_fields(id, error@))
                        &&& final(self).event_number() == after_notice(
                            event_bus,
                            old(self).event_number(),
                        )
                    },
                    RestartPolicy::Never => {
                        &&& after.restart_count == before.restart_count
                        &&& after.state matches ProcessState::Failed { error: e }
                        &&& e@ == error@
                        &&& r matches Err(KernelError::ProcessFailed { id: failed, message })
                        &&& failed == id
                        &&& message@ == error@
                        &&& notified(event_bus, "process.failed"@, "kernel"@, failure_fields(id, error@))
                        &&& final(self).event_number() == after_notice(
                            event_bus,
                            old(self).event_number(),
                        )
                    },
                }
            },
    {
        let idx = match self.slot_of(id) {
            Some(i) => i,
            None => {
                return Err(KernelError::ProcessNotFound { id });
            },
        };
        proof {
            old(self).lemma_table_index(id.0);
        }
        let mut rec = self.processes[idx].duplicate();
        let result = match rec.policy {
            RestartPolicy::OnFailure { max_retries } => {
                if rec.restart_count < max_retries {
                    rec.restart_count = rec.restart_count + 1;
                    rec.state = ProcessState::Running;
                    Ok(())
                } else {
                    rec.state = ProcessState::Failed { error: owned(error) };
                    let n = u64_to_decimal(max_retries as u64);
                    let message = join3("Exhausted max retries (", n.as_str(), ")");
                    Err(KernelError::ProcessFailed { id, message })
                }
            },
            RestartPolicy::Never => {
                rec.state = ProcessState::Failed { error: owned(error) };
                Err(KernelError::ProcessFailed { id, message: owned(error) })
            },
        };
        self.processes.set(idx, rec);
        assert(self.wf()) by {
            assert forall|k: int| 0 <= k < self.processes@.len() implies (
            #[trigger] self.processes@[k]).id.0 == k + 1 && within_restart_budget(
                self.processes@[k],
            ) by {
                assert(old(self).processes@[k].id.0 == k + 1);
                assert(within_restart_budget(old(self).processes@[k]));
            }
        }
        assert(self.table().dom() =~= old(self).table().dom());
        assert forall|k: u64| k != id.0 && old(self).table().contains_key(k) implies #[trigger] self.table()[k]
            == old(self).table()[k] by {
            self.lemma_table_index(k);
            old(self).lemma_table_index(k);
        }
        proof {
            self.lemma_table_index(id.0);
        }
        if result.is_err() {
            Self::publish_failure(event_bus, &mut self.events, id, error);
        }
        result
    }
}

} // verus!
