//! Runtime execution framework: lifecycle and execution contexts, each backed by a
//! process supervised by the microkernel.
use crate::event_bus::{EventBus, after_notice, notice_answers, notified, state_field};
use crate::clock::{duration_debug, duration_nanos};
use crate::kernel::{
    CapabilityCheck, Kernel, KernelConfig, KernelError, KernelState, ProcessId, ProcessState,
    RestartPolicy, announced, failure_fields, kernel_error_text, kernel_state_name, started_record,
    stopped_record,
};
use crate::text::{decimal, join2, join3, join4, join5, owned, u64_to_decimal};
use std::collections::BTreeMap;
use vstd::prelude::*;

verus! {

/// Capability that guards the creation of execution contexts.
pub const CAP_RUNTIME_EXECUTE: &'static str = "CAP_RUNTIME_EXECUTE";

/// Restart budget of the kernel process behind each execution context.
pub const CONTEXT_RESTART_BUDGET: u32 = 3;

/// Configuration of the runtime (it has no parameters yet).
#[derive(Clone, Copy, Debug, Default, PartialEq, Eq)]
pub struct RuntimeConfig;

/// Unique identifier of an execution context.
#[derive(Clone, Copy, Debug, PartialEq, Eq, PartialOrd, Ord, Hash)]
pub struct ExecutionContextId(pub u64);

/// Lifecycle states of the runtime.
#[derive(Clone, Copy, Debug, PartialEq, Eq)]
pub enum RuntimeState {
    Uninitialized,
    Initializing,
    Ready,
    ShuttingDown,
    Stopped,
    Failed,
}

/// Execution state of a context.
#[derive(Clone, Debug, PartialEq, Eq)]
pub enum ContextState {
    Created,
    Running,
    Completed,
    Failed { error: String },
    Closed,
}

/// Execution environment record of a worker task.
#[derive(Clone, Debug, PartialEq, Eq)]
pub struct ExecutionContext {
    pub id: ExecutionContextId,
    pub name: String,
    pub state: ContextState,
    pub kernel_process_id: ProcessId,
}

/// Errors produced by the runtime.
#[derive(Clone, Debug, PartialEq, Eq)]
pub enum RuntimeError {
    InitFailed { message: String },
    ContextNotFound { id: ExecutionContextId },
    ContextFailed { id: ExecutionContextId, message: String },
    Unauthorized { capability_id: String },
    InvalidState { current: String, expected: String },
    LockError { message: String },
    Kernel(KernelError),
}

/// The text of a [`RuntimeError`].
pub open spec fn runtime_error_text(e: RuntimeError) -> Seq<char> {
    match e {
        RuntimeError::InitFailed { message } => "Runtime initialization failed: "@ + message@,
        RuntimeError::ContextNotFound { id } => "Execution context not found: "@ + decimal(
            id.0 as nat,
        ),
        RuntimeError::ContextFailed { id, message } => "Execution context "@ + decimal(
            id.0 as nat,
        ) + " failed: "@ + message@,
        RuntimeError::Unauthorized { capability_id } => "Unauthorized capability '"@
            + capability_id@ + "' for runtime operation"@,
        RuntimeError::InvalidState { current, expected } =>
            "Invalid runtime state transition: current '"@ + current@ + "', expected '"@
                + expected@ + "'"@,
        RuntimeError::LockError { message } => "Runtime lock error: "@ + message@,
        RuntimeError::Kernel(err) => "Kernel error: "@ + kernel_error_text(err),
    }
}

impl RuntimeError {
    /// Renders the error as text.
    pub fn to_string(&self) -> (s: String)
        ensures
            s@ == runtime_error_text(*self),
    {
        match self {
            RuntimeError::InitFailed { message } => join2(
                "Runtime initialization failed: ",
                message.as_str(),
            ),
            RuntimeError::ContextNotFound { id } => {
                let n = u64_to_decimal(id.0);
                join2("Execution context not found: ", n.as_str())
            },
            RuntimeError::ContextFailed { id, message } => {
                let n = u64_to_decimal(id.0);
                join4("Execution context ", n.as_str(), " failed: ", message.as_str())
            },
            RuntimeError::Unauthorized { capability_id } => join3(
                "Unauthorized capability '",
                capability_id.as_str(),
                "' for runtime operation",
            ),
            RuntimeError::InvalidState { current, expected } => join5(
                "Invalid runtime state transition: current '",
                current.as_str(),
                "', expected '",
                expected.as_str(),
                "'",
            ),
            RuntimeError::LockError { message } => join2("Runtime lock error: ", message.as_str()),
            RuntimeError::Kernel(err) => {
                let inner = err.to_string();
                join2("Kernel error: ", inner.as_str())
            },
        }
    }
}

/// The name of a runtime state, as its debug rendering spells it.
pub open spec fn runtime_state_name(s: RuntimeState) -> Seq<char> {
    match s {
        RuntimeState::Uninitialized => "Uninitialized"@,
        RuntimeState::Initializing => "Initializing"@,
        RuntimeState::Ready => "Ready"@,
        RuntimeState::ShuttingDown => "ShuttingDown"@,
        RuntimeState::Stopped => "Stopped"@,
        RuntimeState::Failed => "Failed"@,
    }
}

/// Returns the name of a runtime state.
pub fn runtime_state_label(s: RuntimeState) -> (r: &'static str)
    ensures
        r@ == runtime_state_name(s),
{
    match s {
        RuntimeState::Uninitialized => "Uninitialized",
        RuntimeState::Initializing => "Initializing",
        RuntimeState::Ready => "Ready",
        RuntimeState::ShuttingDown => "ShuttingDown",
        RuntimeState::Stopped => "Stopped",
        RuntimeState::Failed => "Failed",
    }
}

/// Debug rendering of a string: quoted, with special characters escaped.
pub uninterp spec fn debug_quoted(s: Seq<char>) -> Seq<char>;

/// `<String as Debug>::fmt` through `format!("{:?}", ..)`: the quoted, escaped
/// form of the text, a function of the text alone.
#[verifier::external_body]
fn debug_quote(s: &String) -> (r: String)
    ensures
        r@ == debug_quoted(s@),
{
    format!("{:?}", s)
}

/// The debug rendering of a context state.
pub open spec fn context_state_text(s: ContextState) -> Seq<char> {
    match s {
        ContextState::Created => "Created"@,
        ContextState::Running => "Running"@,
        ContextState::Completed => "Completed"@,
        ContextState::Failed { error } => "Failed { error: "@ + debug_quoted(error@) + " }"@,
        ContextState::Closed => "Closed"@,
    }
}

impl ContextState {
    /// Renders the state as its debug text.
    pub fn debug_text(&self) -> (r: String)
        ensures
            r@ == context_state_text(*self),
    {
        match self {
            ContextState::Created => owned("Created"),
            ContextState::Running => owned("Running"),
            ContextState::Completed => owned("Completed"),
            ContextState::Failed { error } => {
                let q = debug_quote(error);
                join3("Failed { error: ", q.as_str(), " }")
            },
            ContextState::Closed => owned("Closed"),
        }
    }

    /// A copy of the state.
    pub fn duplicate(&self) -> (r: ContextState)
        ensures
            r == *self,
    {
        match self {
            ContextState::Created => ContextState::Created,
            ContextState::Running => ContextState::Running,
            ContextState::Completed => ContextState::Completed,
            ContextState::Failed { error } => ContextState::Failed { error: error.clone() },
            ContextState::Closed => ContextState::Closed,
        }
    }
}

impl ExecutionContext {
    /// A copy of the context record.
    pub fn duplicate(&self) -> (r: ExecutionContext)
        ensures
            r == *self,
    {
        ExecutionContext {
            id: self.id,
            name: self.name.clone(),
            state: self.state.duplicate(),
            kernel_process_id: self.kernel_process_id,
        }
    }
}

/// The state a context reaches when executed: created and running contexts
/// complete; others cannot be executed.
pub open spec fn executes(s: ContextState) -> bool {
    s is Created || s is Running
}

/// The kernel kept by a runtime step that only announces itself: its lifecycle,
/// its processes, its next process identifier and its configuration stay as they
/// were (only its event numbering moves on).
pub open spec fn kernel_kept(a: Kernel, b: Kernel) -> bool {
    &&& a.lifecycle() == b.lifecycle()
    &&& a.table() == b.table()
    &&& a.next_pid() == b.next_pid()
    &&& a.config_view() == b.config_view()
}

/// The context after it was closed.
pub open spec fn closed_context(c: ExecutionContext) -> ExecutionContext {
    ExecutionContext { state: ContextState::Closed, ..c }
}

/// The context after it ran to completion.
pub open spec fn completed_context(c: ExecutionContext) -> ExecutionContext {
    ExecutionContext { state: ContextState::Completed, ..c }
}

/// Whether some context is backed by kernel process `p`.
pub open spec fn backs_context(contexts: Map<u64, ExecutionContext>, p: u64) -> bool {
    exists|k: u64| contexts.contains_key(k) && contexts[k].kernel_process_id.0 == p
}

/// Whether one of the first `i` contexts is backed by kernel process `p`.
pub open spec fn backs_prefix(contexts: Seq<ExecutionContext>, i: int, p: u64) -> bool {
    exists|j: int| 0 <= j < i && contexts[j].kernel_process_id.0 == p
}

/// Unified runtime execution framework.
#[derive(Debug)]
pub struct Runtime {
    config: RuntimeConfig,
    kernel: Kernel,
    state: RuntimeState,
    contexts: Vec<ExecutionContext>,
    next_context_id: u64,
}

impl Runtime {
    /// The lifecycle state.
    pub closed spec fn lifecycle(&self) -> RuntimeState {
        self.state
    }

    /// The supervisor behind the contexts.
    pub closed spec fn kernel_view(&self) -> Kernel {
        self.kernel
    }

    /// The sequence number the runtime's next event receives: the runtime's events
    /// are numbered by its kernel's numbering, together with the kernel's own.
    pub open spec fn event_number(&self) -> u64 {
        self.kernel_view().event_number()
    }

    /// The identifier the next context receives.
    pub closed spec fn next_cid(&self) -> u64 {
        self.next_context_id
    }

    /// The contexts, keyed by identifier.
    pub closed spec fn contexts(&self) -> Map<u64, ExecutionContext> {
        Map::new(
            |k: u64| 1 <= k <= self.contexts@.len(),
            |k: u64| self.contexts@[k - 1],
        )
    }

    /// Well-formedness: the kernel is well formed, context `k` sits at position
    /// `k - 1`, and each context's process is supervised by the kernel.
    pub closed spec fn wf(&self) -> bool {
        &&& self.kernel.wf()
        &&& forall|i: int|
            0 <= i < self.contexts@.len() ==> (#[trigger] self.contexts@[i]).id.0 == i + 1
        &&& forall|i: int|
            0 <= i < self.contexts@.len() ==> self.kernel.table().contains_key(
                (#[trigger] self.contexts@[i]).kernel_process_id.0,
            )
        &&& self.next_context_id == self.contexts@.len() + 1
    }

    /// The kernel a well-formed runtime owns is itself well-formed, so every query
    /// of the kernel can be made on it.
    pub proof fn law_kernel_wf(&self)
        requires
            self.wf(),
        ensures
            self.kernel_view().wf(),
    {
    }

    /// Execution contexts are numbered from 1 in creation order, and each is
    /// backed by a process of the runtime's kernel.
    pub proof fn law_contexts_backed(&self, id: u64)
        requires
            self.wf(),
        ensures
            self.contexts().contains_key(id) <==> 1 <= id < self.next_cid(),
            self.contexts().contains_key(id) ==> {
                &&& self.contexts()[id].id == ExecutionContextId(id)
                &&& self.kernel_view().table().contains_key(
                    self.contexts()[id].kernel_process_id.0,
                )
            },
    {
        if 1 <= id <= self.contexts@.len() {
            self.lemma_contexts_index(id);
            assert(self.contexts@[id - 1].id.0 == id);
        }
    }

    proof fn lemma_contexts_index(&self, k: u64)
        requires
            1 <= k <= self.contexts@.len(),
        ensures
            self.contexts().contains_key(k),
            self.contexts()[k] == self.contexts@[k - 1],
    {
    }

    /// Position of context `id`, if it exists.
    fn slot_of(&self, id: ExecutionContextId) -> (r: Option<usize>)
        requires
            self.wf(),
        ensures
            r matches Some(i) ==> i == id.0 - 1 && i < self.contexts@.len()
                && self.contexts().contains_key(id.0) && self.contexts()[id.0]
                == self.contexts@[i as int],
            r is None ==> !self.contexts().contains_key(id.0),
    {
        let n = self.contexts.len();
        if id.0 >= 1 && id.0 - 1 < n as u64 {
            Some((id.0 - 1) as usize)
        } else {
            None
        }
    }

    /// Creates a runtime over `kernel`, uninitialized and without contexts.
    pub fn new(config: RuntimeConfig, kernel: Kernel) -> (rt: Runtime)
        requires
            kernel.wf(),
        ensures
            rt.wf(),
            rt.lifecycle() == RuntimeState::Uninitialized,
            rt.kernel_view() == kernel,
            rt.contexts() == Map::<u64, ExecutionContext>::empty(),
            rt.next_cid() == 1,
    {
        let rt = Runtime {
            config,
            kernel,
            state: RuntimeState::Uninitialized,
            contexts: Vec::new(),
            next_context_id: 1,
        };
        assert(rt.contexts() =~= Map::<u64, ExecutionContext>::empty());
        rt
    }

    /// Creates a runtime over a fresh kernel with the default configuration.
    pub fn with_default_kernel(config: RuntimeConfig) -> (rt: Runtime)
        ensures
            rt.wf(),
            rt.lifecycle() == RuntimeState::Uninitialized,
            rt.kernel_view().lifecycle() == KernelState::Uninitialized,
            rt.kernel_view().table() == Map::<u64, crate::kernel::ProcessRecord>::empty(),
            rt.contexts() == Map::<u64, ExecutionContext>::empty(),
            rt.next_cid() == 1,
            rt.event_number() == 1,
    {
        let kernel = Kernel::new(KernelConfig::default());
        Runtime::new(config, kernel)
    }

    /// Returns the current lifecycle state.
    pub fn state(&self) -> (s: RuntimeState)
        ensures
            s == self.lifecycle(),
    {
        self.state
    }

    /// Returns the supervisor behind the contexts.
    pub fn kernel(&self) -> (k: &Kernel)
        ensures
            *k == self.kernel_view(),
    {
        &self.kernel
    }

    fn announce(&mut self, bus: Option<&EventBus>, topic: &str, value: &str)
        requires
            old(self).wf(),
        ensures
            final(self).wf(),
            final(self).lifecycle() == old(self).lifecycle(),
            final(self).contexts == old(self).contexts,
            final(self).next_context_id == old(self).next_context_id,
            final(self).config == old(self).config,
            kernel_kept(old(self).kernel_view(), final(self).kernel_view()),
            notified(bus, topic@, "runtime"@, state_field(value@)),
            final(self).event_number() == after_notice(bus, old(self).event_number()),
    {
        let r = self.kernel.announce_for(bus, topic, "runtime", value);
        assert(notice_answers(bus, topic@, "runtime"@, state_field(value@), r));
    }

    /// Boots the runtime's kernel, as [`Kernel::boot`] does; the runtime's own
    /// state and contexts are left as they are.
    pub fn boot_kernel(&mut self, event_bus: Option<&EventBus>) -> (r: Result<(), KernelError>)
        requires
            old(self).wf(),
        ensures
            final(self).wf(),
            final(self).lifecycle() == old(self).lifecycle(),
            final(self).contexts() == old(self).contexts(),
            final(self).next_cid() == old(self).next_cid(),
            final(self).kernel_view().table() == old(self).kernel_view().table(),
            final(self).kernel_view().next_pid() == old(self).kernel_view().next_pid(),
            final(self).kernel_view().config_view() == old(self).kernel_view().config_view(),
            old(self).kernel_view().lifecycle() != KernelState::Uninitialized ==> {
                &&& final(self).kernel_view().lifecycle() == old(self).kernel_view().lifecycle()
                &&& r matches Err(KernelError::InvalidState { current, expected })
                &&& current@ == kernel_state_name(old(self).kernel_view().lifecycle())
                &&& expected@ == "Uninitialized"@
                &&& final(self).kernel_view().event_number() == old(self).kernel_view().event_number()
            },
            old(self).kernel_view().lifecycle() == KernelState::Uninitialized && duration_nanos(
                old(self).kernel_view().config_view().boot_timeout,
            ) > 2_000_000_000 ==> {
                &&& final(self).kernel_view().lifecycle() == KernelState::Failed
                &&& r matches Err(KernelError::BootFailed { message })
                &&& message@ == "Boot timeout "@ + duration_debug(
                    old(self).kernel_view().config_view().boot_timeout,
                ) + " exceeds 2.0s cold boot budget"@
                &&& final(self).kernel_view().event_number() == old(self).kernel_view().event_number()
            },
            old(self).kernel_view().lifecycle() == KernelState::Uninitialized && duration_nanos(
                old(self).kernel_view().config_view().boot_timeout,
            ) <= 2_000_000_000 ==> {
                &&& final(self).kernel_view().lifecycle() == KernelState::Booting
                &&& announced(event_bus, "system.booting"@, "booting"@, r)
                &&& final(self).kernel_view().event_number() == after_notice(event_bus, old(self).kernel_view().event_number())
            },
    {
        self.kernel.boot(event_bus)
    }

    /// Starts the runtime's kernel, as [`Kernel::start`] does; the runtime's own
    /// state and contexts are left as they are.
    pub fn start_kernel(&mut self, event_bus: Option<&EventBus>) -> (r: Result<(), KernelError>)
        requires
            old(self).wf(),
        ensures
            final(self).wf(),
            final(self).lifecycle() == old(self).lifecycle(),
            final(self).contexts() == old(self).contexts(),
            final(self).next_cid() == old(self).next_cid(),
            final(self).kernel_view().next_pid() == old(self).kernel_view().next_pid(),
            final(self).kernel_view().config_view() == old(self).kernel_view().config_view(),
            old(self).kernel_view().lifecycle() != KernelState::Booting ==> {
                &&& final(self).kernel_view().lifecycle() == old(self).kernel_view().lifecycle()
                &&& final(self).kernel_view().table() == old(self).kernel_view().table()
                &&& r matches Err(KernelError::InvalidState { current, expected })
                &&& current@ == kernel_state_name(old(self).kernel_view().lifecycle())
                &&& expected@ == "Booting"@
                &&& final(self).kernel_view().event_number() == old(self).kernel_view().event_number()
            },
            old(self).kernel_view().lifecycle() == KernelState::Booting ==> {
                &&& final(self).kernel_view().lifecycle() == KernelState::Running
                &&& final(self).kernel_view().table().dom() == old(self).kernel_view().table().dom()
                &&& forall|k: u64|
                    old(self).kernel_view().table().contains_key(k) ==> #[trigger] final(self).kernel_view().table()[k]
                        == started_record(old(self).kernel_view().table()[k])
                &&& announced(event_bus, "system.started"@, "running"@, r)
                &&& final(self).kernel_view().event_number() == after_notice(event_bus, old(self).kernel_view().event_number())
            },
    {
        self.kernel.start(event_bus)
    }

    /// Reports a failure of process `id` to the runtime's kernel, which recovers as
    /// [`Kernel::report_process_failure`] does (restarting the process behind a
    /// context, or marking it failed); the runtime's own state and contexts are
    /// left as they are.
    pub fn report_process_failure(
        &mut self,
        id: ProcessId,
        error: &str,
        event_bus: Option<&EventBus>,
    ) -> (r: Result<(), KernelError>)
        requires
            old(self).wf(),
        ensures
            final(self).wf(),
            final(self).lifecycle() == old(self).lifecycle(),
            final(self).contexts() == old(self).contexts(),
            final(self).next_cid() == old(self).next_cid(),
            final(self).kernel_view().lifecycle() == old(self).kernel_view().lifecycle(),
            final(self).kernel_view().config_view() == old(self).kernel_view().config_view(),
            final(self).kernel_view().next_pid() == old(self).kernel_view().next_pid(),
            final(self).kernel_view().table().dom() == old(self).kernel_view().table().dom(),
            forall|k: u64|
                k != id.0 && old(self).kernel_view().table().contains_key(k) ==> #[trigger] final(self).kernel_view().table()[k]
                    == old(self).kernel_view().table()[k],
            !old(self).kernel_view().table().contains_key(id.0) ==> {
                &&& r == Err::<(), KernelError>(KernelError::ProcessNotFound { id })
                &&& final(self).kernel_view().table() == old(self).kernel_view().table()
                &&& final(self).kernel_view().event_number() == old(self).kernel_view().event_number()
            },
            old(self).kernel_view().table().contains_key(id.0) ==> {
                let before = old(self).kernel_view().table()[id.0];
                let after = final(self).kernel_view().table()[id.0];
                &&& after.id == before.id
                &&& after.name == before.name
                &&& after.policy == before.policy
                &&& match before.policy {
                    RestartPolicy::OnFailure { max_retries } => if before.restart_count
                        < max_retries {
                        &&& r is Ok
                        &&& after.state == ProcessState::Running
                        &&& after.restart_count == before.restart_count + 1
                        &&& final(self).kernel_view().event_number() == old(self).kernel_view().event_number()
                    } else {
                        &&& after.restart_count == before.restart_count
                        &&& after.state matches ProcessState::Failed { error: e }
                        &&& e@ == error@
                        &&& r matches Err(KernelError::ProcessFailed { id: failed, message })
                        &&& failed == id
                        &&& message@ == "Exhausted max retries ("@ + decimal(max_retries as nat)
                            + ")"@
                        &&& notified(event_bus, "process.failed"@, "kernel"@, failure_fields(id, error@))
                        &&& final(self).kernel_view().event_number() == after_notice(
                            event_bus,
                            old(self).kernel_view().event_number(),
                        )
                    },
                    RestartPolicy::Never => {
                        &&& after.restart_count == before.restart_count
                        &&& after.state matches ProcessState::Failed { error: e }
                        &&& e@ == error@
                        &&& r matches Err(KernelError::ProcessFailed { id: failed, message })
                        &&& failed == id
                        &&& message@ == error@
                        &&& notified(event_bus, "process.failed"@, "kernel"@, failure_fields(id, error@))
                        &&& final(self).kernel_view().event_number() == after_notice(
                            event_bus,
                            old(self).kernel_view().event_number(),
                        )
                    },
                }
            },
    {
        self.kernel.report_process_failure(id, error, event_bus)
    }

    /// Initializes the runtime: only from `Uninitialized`; it enters
    /// `Initializing` and announces `runtime.initializing` (its outcome is ignored).
    pub fn initialize(&mut self, event_bus: Option<&EventBus>) -> (r: Result<(), RuntimeError>)
        requires
            old(self).wf(),
        ensures
            final(self).wf(),
            kernel_kept(old(self).kernel_view(), final(self).kernel_view()),
            final(self).contexts() == old(self).contexts(),
            final(self).next_cid() == old(self).next_cid(),
            old(self).lifecycle() == RuntimeState::Uninitialized ==> {
                &&& r is Ok
                &&& final(self).lifecycle() == RuntimeState::Initializing
                &&& notified(event_bus, "runtime.initializing"@, "runtime"@, state_field("initializing"@))
                &&& final(self).event_number() == after_notice(event_bus, old(self).event_number())
            },
            old(self).lifecycle() != RuntimeState::Uninitialized ==> {
                &&& final(self).lifecycle() == old(self).lifecycle()
                &&& r matches Err(RuntimeError::InvalidState { current, expected })
                &&& current@ == runtime_state_name(old(self).lifecycle())
                &&& expected@ == "Uninitialized"@
                &&& final(self).event_number() == old(self).event_number()
            },
    {
        if !matches!(self.state, RuntimeState::Uninitialized) {
            proof {
                reveal_strlit("Uninitialized");
            }
            return Err(
                RuntimeError::InvalidState {
                    current: owned(runtime_state_label(self.state)),
                    expected: owned("Uninitialized"),
                },
            );
        }
        self.state = RuntimeState::Initializing;
        self.announce(event_bus, "runtime.initializing", "initializing");
        Ok(())
    }

    /// Starts the runtime: only from `Initializing`; it becomes `Ready` and
    /// announces `runtime.ready` (its outcome is ignored).
    pub fn start(&mut self, event_bus: Option<&EventBus>) -> (r: Result<(), RuntimeError>)
        requires
            old(self).wf(),
        ensures
            final(self).wf(),
            kernel_kept(old(self).kernel_view(), final(self).kernel_view()),
            final(self).contexts() == old(self).contexts(),
            final(self).next_cid() == old(self).next_cid(),
            old(self).lifecycle() == RuntimeState::Initializing ==> {
                &&& r is Ok
                &&& final(self).lifecycle() == RuntimeState::Ready
                &&& notified(event_bus, "runtime.ready"@, "runtime"@, state_field("ready"@))
                &&& final(self).event_number() == after_notice(event_bus, old(self).event_number())
            },
            old(self).lifecycle() != RuntimeState::Initializing ==> {
                &&& final(self).lifecycle() == old(self).lifecycle()
                &&& r matches Err(RuntimeError::InvalidState { current, expected })
                &&& current@ == runtime_state_name(old(self).lifecycle())
                &&& expected@ == "Initializing"@
                &&& final(self).event_number() == old(self).event_number()
            },
    {
        if !matches!(self.state, RuntimeState::Initializing) {
            proof {
                reveal_strlit("Initializing");
            }
            return Err(
                RuntimeError::InvalidState {
                    current: owned(runtime_state_label(self.state)),
                    expected: owned("Initializing"),
                },
            );
        }
        self.state = RuntimeState::Ready;
        self.announce(event_bus, "runtime.ready", "ready");
        Ok(())
    }

    /// Shuts the runtime down: a stopped runtime stays as it is; otherwise
    /// `runtime.shutdown` is announced (its outcome is ignored), every context is
    /// closed, the kernel process behind each one is stopped, and the runtime ends
    /// `Stopped`.
    pub fn shutdown(&mut self, event_bus: Option<&EventBus>) -> (r: Result<(), RuntimeError>)
        requires
            old(self).wf(),
        ensures
            final(self).wf(),
            r is Ok,
            final(self).lifecycle() == RuntimeState::Stopped,
            final(self).next_cid() == old(self).next_cid(),
            old(self).lifecycle() == RuntimeState::Stopped ==> {
                &&& final(self).event_number() == old(self).event_number()
                &&& final(self).contexts() == old(self).contexts()
                &&& final(self).kernel_view() == old(self).kernel_view()
            },
            old(self).lifecycle() != RuntimeState::Stopped ==> {
                &&& notified(event_bus, "runtime.shutdown"@, "runtime"@, state_field("shutdown"@))
                &&& final(self).event_number() == after_notice(event_bus, old(self).event_number())
                &&& final(self).contexts().dom() == old(self).contexts().dom()
                &&& forall|k: u64|
                    old(self).contexts().contains_key(k) ==> #[trigger] final(self).contexts()[k]
                        == closed_context(old(self).contexts()[k])
                &&& final(self).kernel_view().lifecycle() == old(self).kernel_view().lifecycle()
                &&& final(self).kernel_view().next_pid() == old(self).kernel_view().next_pid()
                &&& final(self).kernel_view().table().dom() == old(self).kernel_view().table().dom()
                &&& forall|p: u64|
                    old(self).kernel_view().table().contains_key(p) ==> #[trigger] final(self).kernel_view().table()[p]
                        == (if backs_context(old(self).contexts(), p) {
                        stopped_record(old(self).kernel_view().table()[p])
                    } else {
                        old(self).kernel_view().table()[p]
                    })
            },
    {
        if matches!(self.state, RuntimeState::Stopped) {
            return Ok(());
        }
        self.state = RuntimeState::ShuttingDown;
        self.announce(event_bus, "runtime.shutdown", "shutdown");
        let n = self.contexts.len();
        let mut i: usize = 0;
        while i < n
            invariant
                n == self.contexts@.len(),
                n == old(self).contexts@.len(),
                i <= n,
                self.next_context_id == old(self).next_context_id,
                self.kernel.event_number() == after_notice(event_bus, old(self).kernel.event_number()),
                self.kernel.wf(),
                old(self).wf(),
                self.kernel.lifecycle() == old(self).kernel.lifecycle(),
                self.kernel.next_pid() == old(self).kernel.next_pid(),
                self.kernel.table().dom() == old(self).kernel.table().dom(),
                forall|p: u64|
                    old(self).kernel.table().contains_key(p) ==> #[trigger] self.kernel.table()[p]
                        == (if backs_prefix(old(self).contexts@, i as int, p) {
                        stopped_record(old(self).kernel.table()[p])
                    } else {
                        old(self).kernel.table()[p]
                    }),
                forall|k: int|
                    0 <= k < i ==> #[trigger] self.contexts@[k] == closed_context(old(self).contexts@[k]),
                forall|k: int| i <= k < n ==> #[trigger] self.contexts@[k] == old(self).contexts@[k],
            decreases n - i,
        {
            let pid = self.contexts[i].kernel_process_id;
            assert(old(self).contexts@[i as int].kernel_process_id == pid);
            assert(old(self).kernel.table().contains_key(pid.0));
            let ghost before = self.kernel.table();
            let _ = self.kernel.stop_process(pid);
            assert forall|p: u64| old(self).kernel.table().contains_key(p) implies #[trigger] self.kernel.table()[p]
                == (if backs_prefix(old(self).contexts@, i + 1, p) {
                stopped_record(old(self).kernel.table()[p])
            } else {
                old(self).kernel.table()[p]
            }) by {
                if p == pid.0 {
                    assert(backs_prefix(old(self).contexts@, i + 1, p));
                } else {
                    if backs_prefix(old(self).contexts@, i + 1, p) {
                        let j = choose|j: int|
                            0 <= j < i + 1 && old(self).contexts@[j].kernel_process_id.0 == p;
                        assert(j < i);
                        assert(backs_prefix(old(self).contexts@, i as int, p));
                    } else {
                        assert(!backs_prefix(old(self).contexts@, i as int, p));
                    }
                }
            }
            let mut ctx = self.contexts[i].duplicate();
            ctx.state = ContextState::Closed;
            self.contexts.set(i, ctx);
            i = i + 1;
        }
        self.state = RuntimeState::Stopped;
        assert(self.wf()) by {
            assert forall|k: int| 0 <= k < self.contexts@.len() implies (
            #[trigger] self.contexts@[k]).id.0 == k + 1 && self.kernel.table().contains_key(
                self.contexts@[k].kernel_process_id.0,
            ) by {
                assert(old(self).contexts@[k].id.0 == k + 1);
                assert(old(self).kernel.table().contains_key(
                    old(self).contexts@[k].kernel_process_id.0,
                ));
            }
        }
        assert(self.contexts().dom() =~= old(self).contexts().dom());
        assert forall|k: u64| old(self).contexts().contains_key(k) implies #[trigger] self.contexts()[k]
            == closed_context(old(self).contexts()[k]) by {
            self.lemma_contexts_index(k);
            old(self).lemma_contexts_index(k);
        }
        assert forall|p: u64| #[trigger] backs_context(old(self).contexts(), p) == backs_prefix(
            old(self).contexts@,
            n as int,
            p,
        ) by {
            if backs_context(old(self).contexts(), p) {
                let k = choose|k: u64|
                    old(self).contexts().contains_key(k) && old(self).contexts()[k].kernel_process_id.0
                        == p;
                old(self).lemma_contexts_index(k);
                assert(old(self).contexts@[k - 1].kernel_process_id.0 == p);
            }
            if backs_prefix(old(self).contexts@, n as int, p) {
                let j = choose|j: int|
                    0 <= j < n && old(self).contexts@[j].kernel_process_id.0 == p;
                let k = (j + 1) as u64;
                old(self).lemma_contexts_index(k);
                assert(old(self).contexts().contains_key(k));
            }
        }
        Ok(())
    }

    /// Creates an execution context named `name` backed by a new kernel process
    /// restarted at most [`CONTEXT_RESTART_BUDGET`] times. When `authorization` is
    /// given it is the answer to a request for [`CAP_RUNTIME_EXECUTE`]: a refusal is
    /// reported and nothing is created.
    pub fn create_context(&mut self, name: &str, authorization: Option<CapabilityCheck>) -> (r:
        Result<ExecutionContextId, RuntimeError>)
        requires
            old(self).wf(),
            old(self).next_cid() < u64::MAX,
            old(self).kernel_view().next_pid() < u64::MAX,
        ensures
            final(self).wf(),
            final(self).event_number() == old(self).event_number(),
            final(self).lifecycle() == old(self).lifecycle(),
            match authorization {
                Some(CapabilityCheck::Unauthorized { capability_id }) => {
                    &&& r == Err::<ExecutionContextId, RuntimeError>(
                        RuntimeError::Unauthorized { capability_id },
                    )
                    &&& final(self).contexts() == old(self).contexts()
                    &&& final(self).kernel_view() == old(self).kernel_view()
                    &&& final(self).next_cid() == old(self).next_cid()
                },
                Some(CapabilityCheck::Rejected { message }) => {
                    &&& r == Err::<ExecutionContextId, RuntimeError>(
                        RuntimeError::Kernel(KernelError::Capability { message }),
                    )
                    &&& final(self).contexts() == old(self).contexts()
                    &&& final(self).kernel_view() == old(self).kernel_view()
                    &&& final(self).next_cid() == old(self).next_cid()
                },
                _ => {
                    let cid = old(self).next_cid();
                    let pid = old(self).kernel_view().next_pid();
                    let k0 = old(self).kernel_view();
                    let k1 = final(self).kernel_view();
                    &&& r == Ok::<ExecutionContextId, RuntimeError>(ExecutionContextId(cid))
                    &&& final(self).next_cid() == cid + 1
                    &&& final(self).contexts().dom() == old(self).contexts().dom().insert(cid)
                    &&& forall|k: u64|
                        old(self).contexts().contains_key(k) ==> #[trigger] final(self).contexts()[k]
                            == old(self).contexts()[k]
                    &&& final(self).contexts()[cid].id == ExecutionContextId(cid)
                    &&& final(self).contexts()[cid].name@ == name@
                    &&& final(self).contexts()[cid].state == ContextState::Created
                    &&& final(self).contexts()[cid].kernel_process_id == ProcessId(pid)
                    &&& k1.lifecycle() == k0.lifecycle()
                    &&& k1.next_pid() == pid + 1
                    &&& k1.table().dom() == k0.table().dom().insert(pid)
                    &&& forall|p: u64|
                        k0.table().contains_key(p) ==> #[trigger] k1.table()[p] == k0.table()[p]
                    &&& k1.table()[pid].name@ == name@
                    &&& k1.table()[pid].state == (if k0.lifecycle() == KernelState::Running {
                        ProcessState::Running
                    } else {
                        ProcessState::Registered
                    })
                    &&& k1.table()[pid].policy == RestartPolicy::OnFailure {
                        max_retries: CONTEXT_RESTART_BUDGET,
                    }
                    &&& k1.table()[pid].restart_count == 0
                },
            },
    {
        match authorization {
            Some(CapabilityCheck::Unauthorized { capability_id }) => {
                return Err(RuntimeError::Unauthorized { capability_id });
            },
            Some(CapabilityCheck::Rejected { message }) => {
                return Err(RuntimeError::Kernel(KernelError::Capability { message }));
            },
            _ => {},
        }
        let pid = match self.kernel.register_process(
            name,
            RestartPolicy::OnFailure { max_retries: CONTEXT_RESTART_BUDGET },
            None,
        ) {
            Ok(p) => p,
            Err(e) => {
                return Err(RuntimeError::Kernel(e));
            },
        };
        let cid = ExecutionContextId(self.next_context_id);
        let ctx = ExecutionContext {
            id: cid,
            name: owned(name),
            state: ContextState::Created,
            kernel_process_id: pid,
        };
        self.contexts.push(ctx);
        self.next_context_id = self.next_context_id + 1;
        assert(self.wf()) by {
            assert forall|k: int| 0 <= k < self.contexts@.len() implies (
            #[trigger] self.contexts@[k]).id.0 == k + 1 && self.kernel.table().contains_key(
                self.contexts@[k].kernel_process_id.0,
            ) by {
                if k < old(self).contexts@.len() {
                    assert(self.contexts@[k] == old(self).contexts@[k]);
                    assert(old(self).kernel.table().contains_key(
                        old(self).contexts@[k].kernel_process_id.0,
                    ));
                }
            }
        }
        assert(self.contexts().dom() =~= old(self).contexts().dom().insert(cid.0));
        assert forall|k: u64| old(self).contexts().contains_key(k) implies #[trigger] self.contexts()[k]
            == old(self).contexts()[k] by {
            self.lemma_contexts_index(k);
            old(self).lemma_contexts_index(k);
        }
        proof {
            self.lemma_contexts_index(cid.0);
        }
        Ok(cid)
    }

    /// Executes the context `id`: a created or running context completes; a
    /// context in any other state cannot be executed, and an unknown one is reported.
    pub fn execute_context(&mut self, id: ExecutionContextId) -> (r: Result<(), RuntimeError>)
        requires
            old(self).wf(),
        ensures
            final(self).wf(),
            final(self).event_number() == old(self).event_number(),
            final(self).lifecycle() == old(self).lifecycle(),
            final(self).kernel_view() == old(self).kernel_view(),
            final(self).next_cid() == old(self).next_cid(),
            !old(self).contexts().contains_key(id.0) ==> {
                &&& r == Err::<(), RuntimeError>(RuntimeError::ContextNotFound { id })
                &&& final(self).contexts() == old(self).contexts()
            },
            old(self).contexts().contains_key(id.0) && executes(
                old(self).contexts()[id.0].state,
            ) ==> {
                &&& r is Ok
                &&& final(self).contexts() == old(self).contexts().insert(
                    id.0,
                    completed_context(old(self).contexts()[id.0]),
                )
            },
            old(self).contexts().contains_key(id.0) && !executes(
                old(self).contexts()[id.0].state,
            ) ==> {
                &&& final(self).contexts() == old(self).contexts()
                &&& r matches Err(RuntimeError::ContextFailed { id: failed, message })
                &&& failed == id
                &&& message@ == "Cannot execute context in state "@ + context_state_text(
                    old(self).contexts()[id.0].state,
                )
            },
    {
        let idx = match self.slot_of(id) {
            Some(i) => i,
            None => {
                return Err(RuntimeError::ContextNotFound { id });
            },
        };
        let runnable = matches!(self.contexts[idx].state, ContextState::Created | ContextState::Running);
        if runnable {
            let mut ctx = self.contexts[idx].duplicate();
            ctx.state = ContextState::Running;
            ctx.state = ContextState::Completed;
            self.contexts.set(idx, ctx);
            assert(self.wf()) by {
                assert forall|k: int| 0 <= k < self.contexts@.len() implies (
                #[trigger] self.contexts@[k]).id.0 == k + 1 && self.kernel.table().contains_key(
                    self.contexts@[k].kernel_process_id.0,
                ) by {
                    assert(old(self).contexts@[k].id.0 == k + 1);
                    assert(old(self).kernel.table().contains_key(
                        old(self).contexts@[k].kernel_process_id.0,
                    ));
                }
            }
            assert(self.contexts() =~= old(self).contexts().insert(
                id.0,
                completed_context(old(self).contexts()[id.0]),
            ));
            Ok(())
        } else {
            let shown = self.contexts[idx].state.debug_text();
            let message = join2("Cannot execute context in state ", shown.as_str());
            Err(RuntimeError::ContextFailed { id, message })
        }
    }

    /// Closes the context `id` and stops the kernel process behind it (the
    /// outcome of stopping is ignored); an unknown context is reported.
    pub fn close_context(&mut self, id: ExecutionContextId) -> (r: Result<(), RuntimeError>)
        requires
            old(self).wf(),
        ensures
            final(self).wf(),
            final(self).event_number() == old(self).event_number(),
            final(self).lifecycle() == old(self).lifecycle(),
            final(self).next_cid() == old(self).next_cid(),
            !old(self).contexts().contains_key(id.0) ==> {
                &&& r == Err::<(), RuntimeError>(RuntimeError::ContextNotFound { id })
                &&& final(self).contexts() == old(self).contexts()
                &&& final(self).kernel_view() == old(self).kernel_view()
            },
            old(self).contexts().contains_key(id.0) ==> {
                let ctx = old(self).contexts()[id.0];
                let pid = ctx.kernel_process_id.0;
                let k0 = old(self).kernel_view();
                let k1 = final(self).kernel_view();
                &&& r is Ok
                &&& final(self).contexts() == old(self).contexts().insert(
                    id.0,
                    closed_context(ctx),
                )
                &&& k0.table().contains_key(pid)
                &&& k1.table() == k0.table().insert(pid, stopped_record(k0.table()[pid]))
                &&& k1.lifecycle() == k0.lifecycle()
                &&& k1.next_pid() == k0.next_pid()
            },
    {
        let idx = match self.slot_of(id) {
            Some(i) => i,
            None => {
                return Err(RuntimeError::ContextNotFound { id });
            },
        };
        let pid = self.contexts[idx].kernel_process_id;
        assert(old(self).kernel.table().contains_key(pid.0));
        let _ = self.kernel.stop_process(pid);
        let mut ctx = self.contexts[idx].duplicate();
        ctx.state = ContextState::Closed;
        self.contexts.set(idx, ctx);
        assert(self.wf()) by {
            assert forall|k: int| 0 <= k < self.contexts@.len() implies (
            #[trigger] self.contexts@[k]).id.0 == k + 1 && self.kernel.table().contains_key(
                self.contexts@[k].kernel_process_id.0,
            ) by {
                assert(old(self).contexts@[k].id.0 == k + 1);
                assert(old(self).kernel.table().contains_key(
                    old(self).contexts@[k].kernel_process_id.0,
                ));
            }
        }
        assert(self.contexts() =~= old(self).contexts().insert(
            id.0,
            closed_context(old(self).contexts()[id.0]),
        ));
        Ok(())
    }

    /// Returns the state of the context `id`, or reports that it does not exist.
    pub fn get_context_state(&self, id: ExecutionContextId) -> (r: Result<ContextState, RuntimeError>)
        requires
            self.wf(),
        ensures
            self.contexts().contains_key(id.0) ==> r == Ok::<ContextState, RuntimeError>(
                self.contexts()[id.0].state,
            ),
            !self.contexts().contains_key(id.0) ==> r == Err::<ContextState, RuntimeError>(
                RuntimeError::ContextNotFound { id },
            ),
    {
        match self.slot_of(id) {
            Some(idx) => Ok(self.contexts[idx].state.duplicate()),
            None => Err(RuntimeError::ContextNotFound { id }),
        }
    }
}

} // verus!
