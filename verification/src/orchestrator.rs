//! Task orchestration: the CARF planner, and the decisions of a task run from
//! request to response, step by step with retries and budgets.
use crate::memory::types::{MemoryError, memory_error_text};
use crate::model::{ModelRuntimeError, model_error_text};
use crate::runtime::{RuntimeError, runtime_error_text};
use crate::text::{
    chars_of, decimal, find_piece, has_piece, join2, join3, join4, lowercase, owned, to_lower, trim_text, trimmed,
    u64_to_decimal,
};
use vstd::prelude::*;

verus! {

/// Configuration parameters for the orchestrator execution engine.
#[derive(Clone, Debug, PartialEq, Eq)]
pub struct OrchestratorConfig {
    /// Maximum allowed execution loop steps per task.
    pub max_steps: usize,
    /// Maximum allowed execution duration in seconds per task.
    pub timeout_seconds: u64,
    /// Maximum allowed retries per failed execution step.
    pub retry_limit: usize,
}

impl Default for OrchestratorConfig {
    /// Ten steps, sixty seconds and two retries.
    fn default() -> (c: Self)
        ensures
            c.max_steps == 10,
            c.timeout_seconds == 60,
            c.retry_limit == 2,
    {
        OrchestratorConfig { max_steps: 10, timeout_seconds: 60, retry_limit: 2 }
    }
}

/// Input request payload submitted to the orchestrator.
#[derive(Clone, Debug, PartialEq, Eq)]
pub struct TaskRequest {
    pub task_id: String,
    pub prompt: String,
    /// The conversation the task continues, by identifier; none starts one.
    pub conversation_id: Option<u64>,
}

/// Execution state of a task or execution step.
#[derive(Clone, Copy, Debug, PartialEq, Eq)]
pub enum ExecutionState {
    Planning,
    ExecutingStep,
    Evaluating,
    Completed,
    Failed,
}

/// Individual step within an execution plan.
#[derive(Clone, Debug, PartialEq, Eq)]
pub struct ExecutionStep {
    pub step_id: String,
    pub description: String,
    /// `model_reasoning`, `tool_call` or `memory_query`.
    pub action_type: String,
    pub input: String,
    pub output: Option<String>,
    pub state: ExecutionState,
    pub retry_count: usize,
    pub error_message: Option<String>,
}

/// The text of an optional string.
pub open spec fn opt_chars(o: Option<String>) -> Option<Seq<char>> {
    match o {
        Some(s) => Some(s@),
        None => None,
    }
}

/// Two steps agree in every field.
pub open spec fn same_step(a: ExecutionStep, b: ExecutionStep) -> bool {
    &&& a.step_id@ == b.step_id@
    &&& a.description@ == b.description@
    &&& a.action_type@ == b.action_type@
    &&& a.input@ == b.input@
    &&& opt_chars(a.output) == opt_chars(b.output)
    &&& a.state == b.state
    &&& a.retry_count == b.retry_count
    &&& opt_chars(a.error_message) == opt_chars(b.error_message)
}

fn copy_opt(o: &Option<String>) -> (r: Option<String>)
    ensures
        opt_chars(r) == opt_chars(*o),
{
    match o {
        Some(s) => Some(owned(s.as_str())),
        None => None,
    }
}

impl ExecutionStep {
    /// Copies the step, field by field.
    pub fn duplicate(&self) -> (r: ExecutionStep)
        ensures
            same_step(r, *self),
    {
        ExecutionStep {
            step_id: owned(self.step_id.as_str()),
            description: owned(self.description.as_str()),
            action_type: owned(self.action_type.as_str()),
            input: owned(self.input.as_str()),
            output: copy_opt(&self.output),
            state: self.state,
            retry_count: self.retry_count,
            error_message: copy_opt(&self.error_message),
        }
    }
}

/// Where a step's action is carried out.
#[derive(Clone, Copy, Debug, PartialEq, Eq)]
pub enum StepRoute {
    /// Through the tool registry.
    Tool,
    /// Through the conversation context engine.
    Context,
    /// Through the model runtime.
    Model,
}

/// The text reported when no registered tool matches a tool step.
pub open spec fn tool_fallback_text(description: Seq<char>) -> Seq<char> {
    "Executed tool step: "@ + description
}

/// The text reported when the model runtime cannot answer a reasoning step.
pub open spec fn model_fallback_text(input: Seq<char>) -> Seq<char> {
    "Orchestrated step completion for prompt: '"@ + input + "'"@
}

impl ExecutionStep {
    /// Where the step's action is carried out: `tool_call` through the tool
    /// registry, `memory_query` through the context engine, anything else through
    /// the model runtime.
    pub fn route(&self) -> (r: StepRoute)
        ensures
            self.action_type@ == "tool_call"@ ==> r == StepRoute::Tool,
            self.action_type@ == "memory_query"@ ==> r == StepRoute::Context,
            self.action_type@ != "tool_call"@ && self.action_type@ != "memory_query"@ ==> r
                == StepRoute::Model,
    {
        proof {
            reveal_strlit("tool_call");
            reveal_strlit("memory_query");
            assert("memory_query"@.len() != "tool_call"@.len());
        }
        if crate::text::str_eq(self.action_type.as_str(), "tool_call") {
            StepRoute::Tool
        } else if crate::text::str_eq(self.action_type.as_str(), "memory_query") {
            StepRoute::Context
        } else {
            StepRoute::Model
        }
    }

    /// What a tool step reports when no registered tool matches it.
    pub fn tool_fallback(&self) -> (r: String)
        ensures
            r@ == tool_fallback_text(self.description@),
    {
        join2("Executed tool step: ", self.description.as_str())
    }

    /// What a reasoning step reports when the model runtime cannot answer.
    pub fn model_fallback(&self) -> (r: String)
        ensures
            r@ == model_fallback_text(self.input@),
    {
        join3("Orchestrated step completion for prompt: '", self.input.as_str(), "'")
    }
}

/// What a context step reports: the number of turns of the assembled window.
pub fn context_summary(turns: usize) -> (r: String)
    ensures
        r@ == "Assembled context turns: "@ + decimal(turns as nat),
{
    let n = u64_to_decimal(turns as u64);
    join2("Assembled context turns: ", n.as_str())
}

/// Multi-step plan produced by the CARF planner.
#[derive(Clone, Debug, PartialEq, Eq)]
pub struct ExecutionPlan {
    pub plan_id: String,
    pub steps: Vec<ExecutionStep>,
}

/// Output response returned upon task execution completion or failure.
#[derive(Clone, Debug, PartialEq, Eq)]
pub struct TaskResponse {
    pub task_id: String,
    pub status: ExecutionState,
    pub output: String,
    pub steps_executed: usize,
}

/// Errors produced by the orchestrator.
#[derive(Clone, Debug, PartialEq, Eq)]
pub enum OrchestratorError {
    TaskFailed { task_id: String, reason: String },
    MaxStepsExceeded { task_id: String, max_steps: usize },
    Timeout { task_id: String, duration_seconds: u64 },
    PlanningFailed { message: String },
    ExecutionFailed { step_id: String, message: String },
    EmptyPlan { task_id: String },
    Runtime(RuntimeError),
    Memory(MemoryError),
    /// A failure of the conversation context engine, by its text.
    ContextEngine { message: String },
    ModelRuntime(ModelRuntimeError),
    /// A failure of the tool registry, by its text.
    ToolRegistry { message: String },
    LockError { message: String },
}

/// The text of an [`OrchestratorError`].
pub open spec fn orchestrator_error_text(e: OrchestratorError) -> Seq<char> {
    match e {
        OrchestratorError::TaskFailed { task_id, reason } => "Task '"@ + task_id@ + "' failed: "@
            + reason@,
        OrchestratorError::MaxStepsExceeded { task_id, max_steps } => "Task '"@ + task_id@
            + "' exceeded maximum allowed steps ("@ + decimal(max_steps as nat) + ")"@,
        OrchestratorError::Timeout { task_id, duration_seconds } => "Task '"@ + task_id@
            + "' timed out after "@ + decimal(duration_seconds as nat) + " seconds"@,
        OrchestratorError::PlanningFailed { message } => "CARF planning failed: "@ + message@,
        OrchestratorError::ExecutionFailed { step_id, message } => "Execution step '"@ + step_id@
            + "' failed: "@ + message@,
        OrchestratorError::EmptyPlan { task_id } => "Generated plan for task '"@ + task_id@
            + "' was empty"@,
        OrchestratorError::Runtime(err) => "Runtime error: "@ + runtime_error_text(err),
        OrchestratorError::Memory(err) => "Memory error: "@ + memory_error_text(err),
        OrchestratorError::ContextEngine { message } => "Context engine error: "@ + message@,
        OrchestratorError::ModelRuntime(err) => "Model runtime error: "@ + model_error_text(err),
        OrchestratorError::ToolRegistry { message } => "Tool registry error: "@ + message@,
        OrchestratorError::LockError { message } => "Lock acquisition error: "@ + message@,
    }
}

impl OrchestratorError {
    /// Renders the error as text.
    pub fn to_string(&self) -> (s: String)
        ensures
            s@ == orchestrator_error_text(*self),
    {
        match self {
            OrchestratorError::TaskFailed { task_id, reason } => join4(
                "Task '",
                task_id.as_str(),
                "' failed: ",
                reason.as_str(),
            ),
            OrchestratorError::MaxStepsExceeded { task_id, max_steps } => {
                let n = u64_to_decimal(*max_steps as u64);
                let mut s = join4(
                    "Task '",
                    task_id.as_str(),
                    "' exceeded maximum allowed steps (",
                    n.as_str(),
                );
                s.append(")");
                proof {
                    reveal_strlit(")");
                }
                s
            },
            OrchestratorError::Timeout { task_id, duration_seconds } => {
                let n = u64_to_decimal(*duration_seconds);
                let mut s = join4("Task '", task_id.as_str(), "' timed out after ", n.as_str());
                s.append(" seconds");
                proof {
                    reveal_strlit(" seconds");
                }
                s
            },
            OrchestratorError::PlanningFailed { message } => join2(
                "CARF planning failed: ",
                message.as_str(),
            ),
            OrchestratorError::ExecutionFailed { step_id, message } => join4(
                "Execution step '",
                step_id.as_str(),
                "' failed: ",
                message.as_str(),
            ),
            OrchestratorError::EmptyPlan { task_id } => join3(
                "Generated plan for task '",
                task_id.as_str(),
                "' was empty",
            ),
            OrchestratorError::Runtime(err) => {
                let t = err.to_string();
                join2("Runtime error: ", t.as_str())
            },
            OrchestratorError::Memory(err) => {
                let t = err.to_string();
                join2("Memory error: ", t.as_str())
            },
            OrchestratorError::ContextEngine { message } => join2(
                "Context engine error: ",
                message.as_str(),
            ),
            OrchestratorError::ModelRuntime(err) => {
                let t = err.to_string();
                join2("Model runtime error: ", t.as_str())
            },
            OrchestratorError::ToolRegistry { message } => join2(
                "Tool registry error: ",
                message.as_str(),
            ),
            OrchestratorError::LockError { message } => join2(
                "Lock acquisition error: ",
                message.as_str(),
            ),
        }
    }
}

// ---------------------------------------------------------------------------
// Planning
// ---------------------------------------------------------------------------

/// The steps a prompt calls for, as (description, action) pairs, read from its
/// lowercase form: a workflow gathers context and then reasons; a tool, search
/// or call request runs a tool; anything else is one reasoning step.
pub open spec fn plan_shape(lower: Seq<char>) -> Seq<(Seq<char>, Seq<char>)> {
    if has_piece(lower, "workflow"@) || has_piece(lower, "multi-step"@) {
        seq![
            ("Assemble context and query memory"@, "memory_query"@),
            ("Perform model reasoning generation"@, "model_reasoning"@),
        ]
    } else if has_piece(lower, "tool"@) || has_piece(lower, "search"@) || has_piece(
        lower,
        "call"@,
    ) {
        seq![("Execute requested tool call via ToolRegistry"@, "tool_call"@)]
    } else {
        seq![("Model reasoning inference step"@, "model_reasoning"@)]
    }
}

/// What the planner makes of a prompt (in lower case): a workflow or multi-step
/// request becomes two steps, a memory query and then model reasoning; otherwise a
/// request mentioning a tool, a search or a call becomes exactly one tool call;
/// anything else becomes exactly one reasoning step. A prompt mentioning a
/// failure or a malformed request is refused instead.
pub proof fn law_plan_shapes(lower: Seq<char>)
    ensures
        (has_piece(lower, "workflow"@) || has_piece(lower, "multi-step"@)) ==> {
            &&& plan_shape(lower).len() == 2
            &&& plan_shape(lower)[0].1 == "memory_query"@
            &&& plan_shape(lower)[0].0 == "Assemble context and query memory"@
            &&& plan_shape(lower)[1].1 == "model_reasoning"@
            &&& plan_shape(lower)[1].0 == "Perform model reasoning generation"@
        },
        !(has_piece(lower, "workflow"@) || has_piece(lower, "multi-step"@)) && (has_piece(
            lower,
            "tool"@,
        ) || has_piece(lower, "search"@) || has_piece(lower, "call"@)) ==> {
            &&& plan_shape(lower).len() == 1
            &&& plan_shape(lower)[0].1 == "tool_call"@
            &&& plan_shape(lower)[0].0 == "Execute requested tool call via ToolRegistry"@
        },
        !(has_piece(lower, "workflow"@) || has_piece(lower, "multi-step"@) || has_piece(
            lower,
            "tool"@,
        ) || has_piece(lower, "search"@) || has_piece(lower, "call"@)) ==> {
            &&& plan_shape(lower).len() == 1
            &&& plan_shape(lower)[0].1 == "model_reasoning"@
            &&& plan_shape(lower)[0].0 == "Model reasoning inference step"@
        },
        simulated_failure(lower) <==> (has_piece(lower, "fail"@) || has_piece(lower, "malformed"@)),
{
}

/// Whether a prompt asks the planner to simulate a failure.
pub open spec fn simulated_failure(lower: Seq<char>) -> bool {
    has_piece(lower, "fail"@) || has_piece(lower, "malformed"@)
}

/// Step `n` (counted from one) of plan `plan_id`, of the given shape, on `prompt`,
/// not yet run.
pub open spec fn planned_step(
    s: ExecutionStep,
    plan_id: Seq<char>,
    n: nat,
    shape: (Seq<char>, Seq<char>),
    prompt: Seq<char>,
) -> bool {
    &&& s.step_id@ == plan_id + "-step-"@ + decimal(n)
    &&& s.description@ == shape.0
    &&& s.action_type@ == shape.1
    &&& s.input@ == prompt
    &&& s.output is None
    &&& s.state == ExecutionState::Planning
    &&& s.retry_count == 0
    &&& s.error_message is None
}

/// Interface for planning engines that turn task requests into plans.
/// Implemented by users; the orchestrator states its behaviour for every plan a
/// planner may produce.
pub trait Planner: Send + Sync + core::fmt::Debug {
    /// Returns the name of the planning strategy.
    fn plan_name(&self) -> &str;

    /// Generates an [`ExecutionPlan`] for a given [`TaskRequest`].
    fn create_plan(&self, request: &TaskRequest) -> Result<ExecutionPlan, OrchestratorError>;
}

/// Default CARF-compliant task planner.
#[derive(Debug)]
pub struct DefaultPlanner {
    max_allowed_steps: usize,
}

impl Default for DefaultPlanner {
    /// A planner whose plans hold no steps at all.
    fn default() -> (p: Self)
        ensures
            p.max_steps() == 0,
    {
        DefaultPlanner { max_allowed_steps: 0 }
    }
}

/// Builds step `n` of a plan.
fn make_step(plan_id: &str, n: u64, description: &str, action: &str, prompt: &str) -> (s:
    ExecutionStep)
    ensures
        planned_step(s, plan_id@, n as nat, (description@, action@), prompt@),
{
    let num = u64_to_decimal(n);
    ExecutionStep {
        step_id: join3(plan_id, "-step-", num.as_str()),
        description: owned(description),
        action_type: owned(action),
        input: owned(prompt),
        output: None,
        state: ExecutionState::Planning,
        retry_count: 0,
        error_message: None,
    }
}

impl DefaultPlanner {
    /// The ceiling on the number of steps of a plan.
    pub closed spec fn max_steps(&self) -> usize {
        self.max_allowed_steps
    }

    /// A planner with a ceiling of ten steps.
    pub fn new() -> (p: DefaultPlanner)
        ensures
            p.max_steps() == 10,
    {
        DefaultPlanner { max_allowed_steps: 10 }
    }

    /// A planner with a ceiling of `max_steps` steps.
    pub fn with_max_steps(max_steps: usize) -> (p: DefaultPlanner)
        ensures
            p.max_steps() == max_steps,
    {
        DefaultPlanner { max_allowed_steps: max_steps }
    }

    /// Plans a request: an empty (all white space) prompt cannot be planned; a
    /// prompt mentioning `fail` or `malformed` (in any case) simulates a planner
    /// error; otherwise the plan `plan-<task id>` holds the steps its shape calls
    /// for, cut to the ceiling.
    pub fn plan(&self, request: &TaskRequest) -> (r: Result<ExecutionPlan, OrchestratorError>)
        ensures
            trimmed(request.prompt@).len() == 0 ==> (r matches Err(
                OrchestratorError::PlanningFailed { message },
            ) && message@ == "Cannot create plan for empty prompt"@),
            trimmed(request.prompt@).len() > 0 && simulated_failure(lowercase(request.prompt@))
                ==> (r matches Err(OrchestratorError::PlanningFailed { message }) && message@
                == "Simulated planner error for task '"@ + request.task_id@ + "'"@),
            trimmed(request.prompt@).len() > 0 && !simulated_failure(lowercase(request.prompt@))
                ==> (r matches Ok(plan) && plan.plan_id@ == "plan-"@ + request.task_id@
                && plan.steps@.len() == if plan_shape(lowercase(request.prompt@)).len()
                <= self.max_steps() {
                plan_shape(lowercase(request.prompt@)).len() as int
            } else {
                self.max_steps() as int
            } && forall|i: int|
                0 <= i < plan.steps@.len() ==> planned_step(
                    #[trigger] plan.steps@[i],
                    plan.plan_id@,
                    (i + 1) as nat,
                    plan_shape(lowercase(request.prompt@))[i],
                    request.prompt@,
                )),
    {
        let core = trim_text(request.prompt.as_str());
        if core.len() == 0 {
            proof {
                reveal_strlit("Cannot create plan for empty prompt");
            }
            return Err(
                OrchestratorError::PlanningFailed {
                    message: owned("Cannot create plan for empty prompt"),
                },
            );
        }
        let plan_id = join2("plan-", request.task_id.as_str());
        let lower_text = to_lower(request.prompt.as_str());
        let lower = chars_of(lower_text.as_str());
        proof {
            reveal_strlit("fail");
            reveal_strlit("malformed");
            reveal_strlit("workflow");
            reveal_strlit("multi-step");
            reveal_strlit("tool");
            reveal_strlit("search");
            reveal_strlit("call");
        }
        if find_piece(&lower, "fail") || find_piece(&lower, "malformed") {
            return Err(
                OrchestratorError::PlanningFailed {
                    message: join3(
                        "Simulated planner error for task '",
                        request.task_id.as_str(),
                        "'",
                    ),
                },
            );
        }
        let prompt = request.prompt.as_str();
        let mut steps: Vec<ExecutionStep> = Vec::new();
        let ghost shape = plan_shape(lower@);
        if find_piece(&lower, "workflow") || find_piece(&lower, "multi-step") {
            steps.push(
                make_step(
                    plan_id.as_str(),
                    1,
                    "Assemble context and query memory",
                    "memory_query",
                    prompt,
                ),
            );
            steps.push(
                make_step(
                    plan_id.as_str(),
                    2,
                    "Perform model reasoning generation",
                    "model_reasoning",
                    prompt,
                ),
            );
        } else if find_piece(&lower, "tool") || find_piece(&lower, "search") || find_piece(
            &lower,
            "call",
        ) {
            steps.push(
                make_step(
                    plan_id.as_str(),
                    1,
                    "Execute requested tool call via ToolRegistry",
                    "tool_call",
                    prompt,
                ),
            );
        } else {
            steps.push(
                make_step(
                    plan_id.as_str(),
                    1,
                    "Model reasoning inference step",
                    "model_reasoning",
                    prompt,
                ),
            );
        }
        assert(steps@.len() == shape.len());
        assert(forall|i: int|
            0 <= i < steps@.len() ==> planned_step(
                #[trigger] steps@[i],
                plan_id@,
                (i + 1) as nat,
                shape[i],
                prompt@,
            ));
        if steps.len() > self.max_allowed_steps {
            steps.truncate(self.max_allowed_steps);
        }
        Ok(ExecutionPlan { plan_id, steps })
    }
}

impl Planner for DefaultPlanner {
    /// `carf-default-planner`.
    fn plan_name(&self) -> (r: &str)
        ensures
            r@ == "carf-default-planner"@,
    {
        "carf-default-planner"
    }

    /// As [`DefaultPlanner::plan`].
    fn create_plan(&self, request: &TaskRequest) -> (r: Result<ExecutionPlan, OrchestratorError>)
        ensures
            trimmed(request.prompt@).len() == 0 ==> (r matches Err(
                OrchestratorError::PlanningFailed { message },
            ) && message@ == "Cannot create plan for empty prompt"@),
            trimmed(request.prompt@).len() > 0 && simulated_failure(lowercase(request.prompt@))
                ==> (r matches Err(OrchestratorError::PlanningFailed { message }) && message@
                == "Simulated planner error for task '"@ + request.task_id@ + "'"@),
            trimmed(request.prompt@).len() > 0 && !simulated_failure(lowercase(request.prompt@))
                ==> (r matches Ok(plan) && plan.plan_id@ == "plan-"@ + request.task_id@
                && plan.steps@.len() == if plan_shape(lowercase(request.prompt@)).len()
                <= self.max_steps() {
                plan_shape(lowercase(request.prompt@)).len() as int
            } else {
                self.max_steps() as int
            } && forall|i: int|
                0 <= i < plan.steps@.len() ==> planned_step(
                    #[trigger] plan.steps@[i],
                    plan.plan_id@,
                    (i + 1) as nat,
                    plan_shape(lowercase(request.prompt@))[i],
                    request.prompt@,
                )),
    {
        self.plan(request)
    }
}

// ---------------------------------------------------------------------------
// Running a task
// ---------------------------------------------------------------------------

/// Where a task run stands.
#[derive(Clone, Copy, Debug, PartialEq, Eq)]
pub enum TaskPhase {
    /// Not started.
    Idle,
    /// Waiting for a conversation to be created.
    Conversation,
    /// Waiting for the plan.
    Planning,
    /// Waiting for the outcome of the current step.
    Stepping,
    /// Waiting for the conversation turns to be recorded.
    Recording,
    /// Done; the final answer has been given.
    Finished,
}

/// What happened since the run's last action.
#[derive(Debug)]
pub enum TaskEvent {
    /// The run starts; the request names a conversation or not.
    Begin { has_conversation: bool },
    /// The conversation was created, or creating it failed.
    ConversationCreated(Result<(), OrchestratorError>),
    /// The planner answered.
    Planned(Result<ExecutionPlan, OrchestratorError>),
    /// The current step's action answered.
    StepResult(Result<String, OrchestratorError>),
    /// The conversation turns were recorded, or recording failed.
    TurnsRecorded(Result<(), OrchestratorError>),
}

/// What the run asks for next.
#[derive(Debug)]
pub enum TaskAction {
    /// Create a conversation for the task.
    CreateConversation,
    /// Ask the planner for a plan of the request.
    Plan,
    /// Carry out the action of this step.
    RunStep(ExecutionStep),
    /// Record the user's prompt and the assistant's answer in the conversation.
    RecordTurns { user: String, assistant: String },
    /// The task is over, with this answer.
    Finish(Result<TaskResponse, OrchestratorError>),
}

/// Whether `event` is the kind of event a run in `phase` waits for.
pub open spec fn expects(phase: TaskPhase, event: TaskEvent) -> bool {
    match event {
        TaskEvent::Begin { .. } => phase == TaskPhase::Idle,
        TaskEvent::ConversationCreated(_) => phase == TaskPhase::Conversation,
        TaskEvent::Planned(_) => phase == TaskPhase::Planning,
        TaskEvent::StepResult(_) => phase == TaskPhase::Stepping,
        TaskEvent::TurnsRecorded(_) => phase == TaskPhase::Recording,
    }
}

/// The first step at or after `from` that may still be attempted (its retry
/// count is within `limit`), or the number of steps when there is none.
pub open spec fn next_runnable(steps: Seq<ExecutionStep>, from: int, limit: usize) -> int
    decreases steps.len() - from,
{
    if from < 0 || from >= steps.len() {
        steps.len() as int
    } else if steps[from].retry_count <= limit {
        from
    } else {
        next_runnable(steps, from + 1, limit)
    }
}

/// A run at step `from` of `steps`, `elapsed` seconds into the task, moves on:
/// past the time budget the task times out; it runs the next step that may
/// still be attempted; with none left it records the conversation turns.
pub open spec fn launches(
    steps: Seq<ExecutionStep>,
    from: int,
    config: OrchestratorConfig,
    elapsed: u64,
    task: Seq<char>,
    prompt: Seq<char>,
    output: Seq<char>,
    phase: TaskPhase,
    position: int,
    plan_after: Seq<ExecutionStep>,
    action: TaskAction,
) -> bool {
    let j = next_runnable(steps, from, config.retry_limit);
    if from < steps.len() && elapsed > config.timeout_seconds {
        &&& phase == TaskPhase::Finished
        &&& action matches TaskAction::Finish(Err(OrchestratorError::Timeout { task_id, duration_seconds }))
        &&& task_id@ == task
        &&& duration_seconds == config.timeout_seconds
    } else if j >= steps.len() {
        &&& phase == TaskPhase::Recording
        &&& position == steps.len()
        &&& plan_after == steps
        &&& action matches TaskAction::RecordTurns { user, assistant }
        &&& user@ == prompt
        &&& assistant@ == output
    } else {
        &&& phase == TaskPhase::Stepping
        &&& position == j
        &&& plan_after == steps.update(j, ExecutionStep { state: ExecutionState::ExecutingStep, ..steps[j] })
        &&& action matches TaskAction::RunStep(s)
        &&& same_step(s, plan_after[j])
    }
}

/// The state of one task's execution: the request, the plan, the step in
/// progress and the last output. A run is driven by feeding it events; it
/// answers each with the next action.
#[derive(Debug)]
pub struct TaskRun {
    config: OrchestratorConfig,
    task_id: String,
    prompt: String,
    phase: TaskPhase,
    steps: Vec<ExecutionStep>,
    current: usize,
    last_output: String,
}

impl TaskRun {
    /// The run's phase.
    pub closed spec fn phase_view(&self) -> TaskPhase {
        self.phase
    }

    /// The plan being carried out.
    pub closed spec fn plan(&self) -> Seq<ExecutionStep> {
        self.steps@
    }

    /// The number of steps dealt with so far, which is the position of the step
    /// in progress.
    pub closed spec fn position(&self) -> int {
        self.current as int
    }

    /// The output of the last successful step.
    pub closed spec fn output_view(&self) -> Seq<char> {
        self.last_output@
    }

    /// The task identifier.
    pub closed spec fn task_view(&self) -> Seq<char> {
        self.task_id@
    }

    /// The prompt.
    pub closed spec fn prompt_view(&self) -> Seq<char> {
        self.prompt@
    }

    /// The configuration.
    pub closed spec fn config_view(&self) -> OrchestratorConfig {
        self.config
    }

    /// Well-formedness: the position lies within the plan, a step in progress
    /// may still be attempted, and recording comes after the last step.
    pub closed spec fn wf(&self) -> bool {
        &&& self.current <= self.steps@.len()
        &&& self.phase == TaskPhase::Stepping ==> self.current < self.steps@.len()
            && self.steps@[self.current as int].retry_count <= self.config.retry_limit
        &&& self.phase == TaskPhase::Recording ==> self.current == self.steps@.len()
    }

    /// A run that reaches recording has dealt with every step of its plan, the
    /// number its response reports as executed.
    pub proof fn law_recording_counts_all_steps(&self)
        requires
            self.wf(),
            self.phase_view() == TaskPhase::Recording,
        ensures
            self.position() == self.plan().len(),
    {
    }

    /// A step in progress may still be attempted: it has failed at most
    /// `retry_limit` times, so no step runs more than `retry_limit + 1` times.
    pub proof fn law_attempts_bounded(&self)
        requires
            self.wf(),
            self.phase_view() == TaskPhase::Stepping,
        ensures
            0 <= self.position() < self.plan().len(),
            self.plan()[self.position()].retry_count <= self.config_view().retry_limit,
    {
    }

    /// A run of `request` under `config`, not started.
    pub fn new(config: OrchestratorConfig, request: &TaskRequest) -> (run: TaskRun)
        ensures
            run.wf(),
            run.phase_view() == TaskPhase::Idle,
            run.task_view() == request.task_id@,
            run.prompt_view() == request.prompt@,
            run.config_view() == config,
            run.plan().len() == 0,
            run.position() == 0,
            run.output_view() == Seq::<char>::empty(),
    {
        let run = TaskRun {
            config,
            task_id: owned(request.task_id.as_str()),
            prompt: owned(request.prompt.as_str()),
            phase: TaskPhase::Idle,
            steps: Vec::new(),
            current: 0,
            last_output: String::new(),
        };
        run
    }

    /// The run's phase.
    pub fn phase(&self) -> (p: TaskPhase)
        ensures
            p == self.phase_view(),
    {
        self.phase
    }

    /// Moves on from step `from` of the plan, `elapsed` seconds into the task.
    fn launch(&mut self, from: usize, elapsed: u64) -> (r: TaskAction)
        requires
            from <= old(self).steps@.len(),
        ensures
            final(self).wf(),
            final(self).task_id == old(self).task_id,
            final(self).prompt == old(self).prompt,
            final(self).config == old(self).config,
            final(self).last_output == old(self).last_output,
            launches(
                old(self).steps@,
                from as int,
                old(self).config,
                elapsed,
                old(self).task_id@,
                old(self).prompt@,
                old(self).last_output@,
                final(self).phase,
                final(self).current as int,
                final(self).steps@,
                r,
            ),
    {
        if from < self.steps.len() && elapsed > self.config.timeout_seconds {
            self.phase = TaskPhase::Finished;
            self.current = from;
            return TaskAction::Finish(
                Err(
                    OrchestratorError::Timeout {
                        task_id: owned(self.task_id.as_str()),
                        duration_seconds: self.config.timeout_seconds,
                    },
                ),
            );
        }
        let ghost steps = self.steps@;
        let mut j: usize = from;
        while j < self.steps.len() && self.steps[j].retry_count > self.config.retry_limit
            invariant
                from <= j <= self.steps@.len(),
                steps == self.steps@,
                next_runnable(steps, from as int, self.config.retry_limit) == next_runnable(
                    steps,
                    j as int,
                    self.config.retry_limit,
                ),
            decreases self.steps@.len() - j,
        {
            j = j + 1;
        }
        self.current = j;
        if j == self.steps.len() {
            self.phase = TaskPhase::Recording;
            return TaskAction::RecordTurns {
                user: owned(self.prompt.as_str()),
                assistant: owned(self.last_output.as_str()),
            };
        }
        self.steps[j].state = ExecutionState::ExecutingStep;
        assert(self.steps@ =~= steps.update(
            j as int,
            ExecutionStep { state: ExecutionState::ExecutingStep, ..steps[j as int] },
        ));
        self.phase = TaskPhase::Stepping;
        TaskAction::RunStep(self.steps[j].duplicate())
    }

    /// Feeds the run one event, `elapsed` seconds into the task, and returns the
    /// next action. The run starts by checking the task identifier and getting a
    /// conversation; a plan must have steps and no more than the step budget;
    /// each step is attempted until it succeeds or has failed more often than the
    /// retry limit allows, which fails the task; past the time budget the task
    /// times out before its next step; once the steps are done the conversation
    /// turns are recorded and the task completes with the last step's output.
    pub fn advance(&mut self, event: TaskEvent, elapsed: u64) -> (r: TaskAction)
        requires
            old(self).wf(),
            expects(old(self).phase_view(), event),
            event matches TaskEvent::StepResult(Err(_)) ==> old(self).plan()[old(
                self,
            ).position()].retry_count < usize::MAX,
        ensures
            final(self).wf(),
            final(self).task_view() == old(self).task_view(),
            final(self).prompt_view() == old(self).prompt_view(),
            final(self).config_view() == old(self).config_view(),
            event matches TaskEvent::Begin { has_conversation } ==> if trimmed(
                old(self).task_view(),
            ).len() == 0 {
                &&& final(self).phase_view() == TaskPhase::Finished
                &&& r matches TaskAction::Finish(Err(OrchestratorError::TaskFailed { task_id, reason }))
                &&& task_id@ == old(self).task_view()
                &&& reason@ == "Task identifier cannot be empty"@
            } else if has_conversation {
                &&& final(self).phase_view() == TaskPhase::Planning
                &&& r is Plan
            } else {
                &&& final(self).phase_view() == TaskPhase::Conversation
                &&& r is CreateConversation
            },
            event matches TaskEvent::ConversationCreated(res) ==> match res {
                Ok(_) => final(self).phase_view() == TaskPhase::Planning && r is Plan,
                Err(e) => final(self).phase_view() == TaskPhase::Finished && r == TaskAction::Finish(
                    Err(e),
                ),
            },
            event matches TaskEvent::Planned(res) ==> match res {
                Err(e) => final(self).phase_view() == TaskPhase::Finished && r == TaskAction::Finish(
                    Err(e),
                ),
                Ok(plan) => if plan.steps@.len() == 0 {
                    &&& final(self).phase_view() == TaskPhase::Finished
                    &&& r matches TaskAction::Finish(Err(OrchestratorError::EmptyPlan { task_id }))
                    &&& task_id@ == old(self).task_view()
                } else if plan.steps@.len() > old(self).config_view().max_steps {
                    &&& final(self).phase_view() == TaskPhase::Finished
                    &&& r matches TaskAction::Finish(
                        Err(OrchestratorError::MaxStepsExceeded { task_id, max_steps }),
                    )
                    &&& task_id@ == old(self).task_view()
                    &&& max_steps == old(self).config_view().max_steps
                } else {
                    &&& launches(
                        plan.steps@,
                        0,
                        old(self).config_view(),
                        elapsed,
                        old(self).task_view(),
                        old(self).prompt_view(),
                        old(self).output_view(),
                        final(self).phase_view(),
                        final(self).position(),
                        final(self).plan(),
                        r,
                    )
                    &&& final(self).output_view() == old(self).output_view()
                },
            },
            event matches TaskEvent::StepResult(Ok(out)) ==> {
                let done = old(self).plan().update(
                    old(self).position(),
                    ExecutionStep {
                        output: Some(out),
                        state: ExecutionState::Evaluating,
                        ..old(self).plan()[old(self).position()]
                    },
                );
                &&& final(self).output_view() == out@
                &&& launches(
                    done,
                    old(self).position() + 1,
                    old(self).config_view(),
                    elapsed,
                    old(self).task_view(),
                    old(self).prompt_view(),
                    out@,
                    final(self).phase_view(),
                    final(self).position(),
                    final(self).plan(),
                    r,
                )
            },
            event matches TaskEvent::StepResult(Err(err)) ==> {
                let s = old(self).plan()[old(self).position()];
                let tries = s.retry_count + 1;
                if tries > old(self).config_view().retry_limit {
                    &&& final(self).phase_view() == TaskPhase::Finished
                    &&& r matches TaskAction::Finish(
                        Err(OrchestratorError::ExecutionFailed { step_id, message }),
                    )
                    &&& step_id@ == s.step_id@
                    &&& message@ == "Failed after "@ + decimal(
                        old(self).config_view().retry_limit as nat,
                    ) + " retries: "@ + orchestrator_error_text(err)
                } else {
                    &&& final(self).phase_view() == TaskPhase::Stepping
                    &&& final(self).position() == old(self).position()
                    &&& final(self).output_view() == old(self).output_view()
                    &&& final(self).plan().len() == old(self).plan().len()
                    &&& final(self).plan() == old(self).plan().update(
                        old(self).position(),
                        ExecutionStep {
                            retry_count: tries as usize,
                            error_message: final(self).plan()[old(self).position()].error_message,
                            ..s
                        },
                    )
                    &&& final(self).plan()[old(self).position()].retry_count == tries
                    &&& opt_chars(final(self).plan()[old(self).position()].error_message) == Some(
                        orchestrator_error_text(err),
                    )
                    &&& r matches TaskAction::RunStep(st)
                    &&& same_step(st, final(self).plan()[old(self).position()])
                }
            },
            event matches TaskEvent::TurnsRecorded(res) ==> match res {
                Ok(_) => {
                    &&& final(self).phase_view() == TaskPhase::Finished
                    &&& r matches TaskAction::Finish(Ok(resp))
                    &&& resp.task_id@ == old(self).task_view()
                    &&& resp.status == ExecutionState::Completed
                    &&& resp.output@ == old(self).output_view()
                    &&& resp.steps_executed == old(self).position()
                },
                Err(e) => final(self).phase_view() == TaskPhase::Finished && r == TaskAction::Finish(
                    Err(e),
                ),
            },
    {
        match event {
            TaskEvent::Begin { has_conversation } => {
                let core = trim_text(self.task_id.as_str());
                if core.len() == 0 {
                    self.phase = TaskPhase::Finished;
                    proof {
                        reveal_strlit("Task identifier cannot be empty");
                    }
                    TaskAction::Finish(
                        Err(
                            OrchestratorError::TaskFailed {
                                task_id: owned(self.task_id.as_str()),
                                reason: owned("Task identifier cannot be empty"),
                            },
                        ),
                    )
                } else if has_conversation {
                    self.phase = TaskPhase::Planning;
                    TaskAction::Plan
                } else {
                    self.phase = TaskPhase::Conversation;
                    TaskAction::CreateConversation
                }
            },
            TaskEvent::ConversationCreated(res) => match res {
                Ok(_) => {
                    self.phase = TaskPhase::Planning;
                    TaskAction::Plan
                },
                Err(e) => {
                    self.phase = TaskPhase::Finished;
                    TaskAction::Finish(Err(e))
                },
            },
            TaskEvent::Planned(res) => match res {
                Err(e) => {
                    self.phase = TaskPhase::Finished;
                    TaskAction::Finish(Err(e))
                },
                Ok(plan) => {
                    if plan.steps.len() == 0 {
                        self.phase = TaskPhase::Finished;
                        TaskAction::Finish(
                            Err(OrchestratorError::EmptyPlan { task_id: owned(self.task_id.as_str()) }),
                        )
                    } else if plan.steps.len() > self.config.max_steps {
                        self.phase = TaskPhase::Finished;
                        TaskAction::Finish(
                            Err(
                                OrchestratorError::MaxStepsExceeded {
                                    task_id: owned(self.task_id.as_str()),
                                    max_steps: self.config.max_steps,
                                },
                            ),
                        )
                    } else {
                        self.steps = plan.steps;
                        self.current = 0;
                        self.launch(0, elapsed)
                    }
                },
            },
            TaskEvent::StepResult(res) => {
                let pos = self.current;
                let n = self.steps.len();
                assert(pos < n);
                match res {
                    Ok(out) => {
                        let ghost before = self.steps@;
                        self.steps[pos].output = Some(out.clone());
                        self.steps[pos].state = ExecutionState::Evaluating;
                        assert(self.steps@ =~= before.update(
                            pos as int,
                            ExecutionStep {
                                output: Some(out),
                                state: ExecutionState::Evaluating,
                                ..before[pos as int]
                            },
                        ));
                        self.last_output = out;
                        self.launch(pos + 1, elapsed)
                    },
                    Err(err) => {
                        let ghost before = self.steps@;
                        let tries = self.steps[pos].retry_count + 1;
                        let text = err.to_string();
                        self.steps[pos].retry_count = tries;
                        self.steps[pos].error_message = Some(owned(text.as_str()));
                        assert(self.steps@ =~= before.update(
                            pos as int,
                            ExecutionStep {
                                retry_count: tries,
                                error_message: self.steps@[pos as int].error_message,
                                ..before[pos as int]
                            },
                        ));
                        if tries > self.config.retry_limit {
                            self.steps[pos].state = ExecutionState::Failed;
                            self.phase = TaskPhase::Finished;
                            let limit = u64_to_decimal(self.config.retry_limit as u64);
                            let message = join4(
                                "Failed after ",
                                limit.as_str(),
                                " retries: ",
                                text.as_str(),
                            );
                            TaskAction::Finish(
                                Err(
                                    OrchestratorError::ExecutionFailed {
                                        step_id: owned(self.steps[pos].step_id.as_str()),
                                        message,
                                    },
                                ),
                            )
                        } else {
                            TaskAction::RunStep(self.steps[pos].duplicate())
                        }
                    },
                }
            },
            TaskEvent::TurnsRecorded(res) => match res {
                Ok(_) => {
                    self.phase = TaskPhase::Finished;
                    TaskAction::Finish(
                        Ok(
                            TaskResponse {
                                task_id: owned(self.task_id.as_str()),
                                status: ExecutionState::Completed,
                                output: owned(self.last_output.as_str()),
                                steps_executed: self.current,
                            },
                        ),
                    )
                },
                Err(e) => {
                    self.phase = TaskPhase::Finished;
                    TaskAction::Finish(Err(e))
                },
            },
        }
    }
}

} // verus!
