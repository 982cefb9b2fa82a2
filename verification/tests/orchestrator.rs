use naina::orchestrator::{
    DefaultPlanner, ExecutionPlan, ExecutionState, ExecutionStep, OrchestratorConfig,
    OrchestratorError, Planner, TaskAction, TaskEvent, TaskPhase, TaskRequest, TaskResponse,
    TaskRun,
};

#[derive(Debug)]
struct FixedMultiStepPlanner {
    step_count: usize,
}

impl Planner for FixedMultiStepPlanner {
    fn plan_name(&self) -> &str {
        "fixed-multi-step-planner"
    }

    fn create_plan(&self, request: &TaskRequest) -> Result<ExecutionPlan, OrchestratorError> {
        let mut steps = Vec::new();
        for i in 1..=self.step_count {
            steps.push(ExecutionStep {
                step_id: format!("{}-step-{i}", request.task_id),
                description: format!("Step {i} reasoning"),
                action_type: "model_reasoning".to_string(),
                input: request.prompt.clone(),
                output: None,
                state: ExecutionState::Planning,
                retry_count: 0,
                error_message: None,
            });
        }
        Ok(ExecutionPlan {
            plan_id: format!("plan-{}", request.task_id),
            steps,
        })
    }
}

/// Drives a task run to its end: conversations and turns are always recorded,
/// each step answers as `outcome` says, and `clock` gives the elapsed seconds.
fn drive(
    config: OrchestratorConfig,
    planner: &dyn Planner,
    request: &TaskRequest,
    mut outcome: impl FnMut(&ExecutionStep) -> Result<String, OrchestratorError>,
    clock: u64,
) -> Result<TaskResponse, OrchestratorError> {
    let mut run = TaskRun::new(config, request);
    let mut action = run.advance(
        TaskEvent::Begin {
            has_conversation: request.conversation_id.is_some(),
        },
        clock,
    );
    loop {
        action = match action {
            TaskAction::CreateConversation => run.advance(TaskEvent::ConversationCreated(Ok(())), clock),
            TaskAction::Plan => run.advance(TaskEvent::Planned(planner.create_plan(request)), clock),
            TaskAction::RunStep(step) => run.advance(TaskEvent::StepResult(outcome(&step)), clock),
            TaskAction::RecordTurns { .. } => run.advance(TaskEvent::TurnsRecorded(Ok(())), clock),
            TaskAction::Finish(r) => {
                assert_eq!(run.phase(), TaskPhase::Finished);
                return r;
            }
        };
    }
}

fn answer(step: &ExecutionStep) -> Result<String, OrchestratorError> {
    Ok(format!("Orchestrated step completion for prompt: '{}'", step.input))
}

fn request(task_id: &str, prompt: &str) -> TaskRequest {
    TaskRequest {
        task_id: task_id.to_string(),
        prompt: prompt.to_string(),
        conversation_id: None,
    }
}

#[test]
fn orchestrator_config_defaults_and_planner_name() {
    let config = OrchestratorConfig::default();
    assert_eq!(config.max_steps, 10);
    assert_eq!(config.timeout_seconds, 60);
    assert_eq!(config.retry_limit, 2);
    assert_eq!(DefaultPlanner::new().plan_name(), "carf-default-planner");
}

#[test]
fn test_02_task_request_and_response_creation() {
    let req = TaskRequest {
        task_id: "task-01".to_string(),
        prompt: "Summarize kernel".to_string(),
        conversation_id: None,
    };
    assert_eq!(req.task_id, "task-01");
}

#[test]
fn test_03_carf_planner_plan_creation() {
    let planner = DefaultPlanner::new();
    let req = TaskRequest {
        task_id: "plan-task".to_string(),
        prompt: "Perform single reasoning task".to_string(),
        conversation_id: None,
    };

    let plan = planner.create_plan(&req).unwrap();
    assert_eq!(plan.steps.len(), 1);
    assert_eq!(plan.steps[0].action_type, "model_reasoning");
}

#[test]
fn test_04_successful_single_step_execution() {
    let planner = DefaultPlanner::new();
    let req = request("succ-task-1", "Summarize system status");
    let res = drive(OrchestratorConfig::default(), &planner, &req, answer, 0).unwrap();
    assert_eq!(res.status, ExecutionState::Completed);
    assert_eq!(res.steps_executed, 1);
    assert!(!res.output.is_empty());
}

#[test]
fn test_05_successful_multi_step_workflow_execution() {
    let planner = DefaultPlanner::new();
    let req = request("multi-task-1", "Execute multi-step workflow task");
    let res = drive(OrchestratorConfig::default(), &planner, &req, answer, 0).unwrap();
    assert_eq!(res.status, ExecutionState::Completed);
    assert_eq!(res.steps_executed, 2);
}

#[test]
fn test_06_tool_registry_routing_execution() {
    let planner = DefaultPlanner::new();
    let req = request("tool-task-1", "Execute tool call for system inspection");
    let mut actions = Vec::new();
    let res = drive(
        OrchestratorConfig::default(),
        &planner,
        &req,
        |step| {
            actions.push(step.action_type.clone());
            answer(step)
        },
        0,
    )
    .unwrap();
    assert_eq!(res.status, ExecutionState::Completed);
    assert_eq!(res.steps_executed, 1);
    assert_eq!(actions, vec!["tool_call"]);
}

#[test]
fn test_07_empty_prompt_planning_failure() {
    let planner = DefaultPlanner::new();
    let req = request("empty-prompt-task", "   ");
    let err = drive(OrchestratorConfig::default(), &planner, &req, answer, 0).unwrap_err();
    assert!(matches!(err, OrchestratorError::PlanningFailed { .. }));
}

#[test]
fn test_08_empty_task_id_failure() {
    let planner = DefaultPlanner::new();
    let req = request("", "Valid prompt");
    let err = drive(OrchestratorConfig::default(), &planner, &req, answer, 0).unwrap_err();
    assert!(matches!(err, OrchestratorError::TaskFailed { .. }));
}

#[test]
fn test_09_max_steps_limit_enforcement() {
    let config = OrchestratorConfig {
        max_steps: 2,
        timeout_seconds: 60,
        retry_limit: 2,
    };
    let planner = FixedMultiStepPlanner { step_count: 4 };
    let req = request("max-steps-task", "Run oversized task");
    let err = drive(config, &planner, &req, answer, 0).unwrap_err();
    assert!(matches!(
        err,
        OrchestratorError::MaxStepsExceeded { max_steps: 2, .. }
    ));
}

#[test]
fn planner_rejects_simulated_failures_and_cuts_plans_to_its_ceiling() {
    let err = DefaultPlanner::new()
        .create_plan(&request("t9", "please FAIL now"))
        .unwrap_err();
    assert_eq!(
        err.to_string(),
        "CARF planning failed: Simulated planner error for task 't9'"
    );
    let plan = DefaultPlanner::with_max_steps(1)
        .create_plan(&request("wf", "a Workflow here"))
        .unwrap();
    assert_eq!(plan.plan_id, "plan-wf");
    assert_eq!(plan.steps.len(), 1);
    assert_eq!(plan.steps[0].step_id, "plan-wf-step-1");
    assert_eq!(plan.steps[0].action_type, "memory_query");
    assert_eq!(plan.steps[0].description, "Assemble context and query memory");
    let plan = DefaultPlanner::new()
        .create_plan(&request("wf", "multi-step please"))
        .unwrap();
    assert_eq!(plan.steps[1].step_id, "plan-wf-step-2");
    assert_eq!(plan.steps[1].action_type, "model_reasoning");
    assert_eq!(plan.steps[1].state, ExecutionState::Planning);
    assert!(DefaultPlanner::default()
        .create_plan(&request("z", "anything"))
        .unwrap()
        .steps
        .is_empty());
}

#[test]
fn a_failing_step_is_retried_up_to_the_limit() {
    let planner = DefaultPlanner::new();
    let req = request("retry-task", "Summarize");
    let mut calls = 0;
    let res = drive(
        OrchestratorConfig::default(),
        &planner,
        &req,
        |step| {
            calls += 1;
            if calls < 3 {
                assert_eq!(step.retry_count, calls - 1);
                Err(OrchestratorError::LockError {
                    message: "busy".to_string(),
                })
            } else {
                assert_eq!(step.error_message.as_deref(), Some("Lock acquisition error: busy"));
                Ok("done".to_string())
            }
        },
        0,
    )
    .unwrap();
    assert_eq!(calls, 3);
    assert_eq!(res.output, "done");

    let err = drive(
        OrchestratorConfig::default(),
        &planner,
        &req,
        |_| {
            Err(OrchestratorError::ToolRegistry {
                message: "no tool".to_string(),
            })
        },
        0,
    )
    .unwrap_err();
    assert_eq!(
        err.to_string(),
        "Execution step 'plan-retry-task-step-1' failed: Failed after 2 retries: Tool registry error: no tool"
    );
}

#[test]
fn a_run_past_the_time_budget_times_out() {
    let planner = DefaultPlanner::new();
    let req = request("slow", "Summarize");
    let err = drive(OrchestratorConfig::default(), &planner, &req, answer, 61).unwrap_err();
    assert_eq!(err.to_string(), "Task 'slow' timed out after 60 seconds");
}

#[test]
fn a_named_conversation_is_not_created_again() {
    let config = OrchestratorConfig::default();
    let req = TaskRequest {
        task_id: "c".to_string(),
        prompt: "p".to_string(),
        conversation_id: Some(7),
    };
    let mut run = TaskRun::new(config, &req);
    let action = run.advance(TaskEvent::Begin { has_conversation: true }, 0);
    assert!(matches!(action, TaskAction::Plan));
    let action = run.advance(
        TaskEvent::Planned(Ok(ExecutionPlan {
            plan_id: "x".to_string(),
            steps: vec![],
        })),
        0,
    );
    match action {
        TaskAction::Finish(Err(e)) => {
            assert_eq!(e.to_string(), "Generated plan for task 'c' was empty")
        }
        _ => panic!("expected an empty plan error"),
    }
}

#[test]
fn orchestrator_error_texts() {
    assert_eq!(
        OrchestratorError::MaxStepsExceeded {
            task_id: "t".to_string(),
            max_steps: 3
        }
        .to_string(),
        "Task 't' exceeded maximum allowed steps (3)"
    );
    assert_eq!(
        OrchestratorError::TaskFailed {
            task_id: "t".to_string(),
            reason: "r".to_string()
        }
        .to_string(),
        "Task 't' failed: r"
    );
}

#[test]
fn a_retried_step_keeps_its_input_and_the_run_counts_every_step() {
    let planner = DefaultPlanner::new();
    let req = request("multi-retry", "Summarize and then analyze the workflow");
    let plan = planner.create_plan(&req).unwrap();
    let steps = plan.steps.len();
    assert!(steps > 1);
    let mut seen: Vec<(String, String)> = Vec::new();
    let mut failed_once = false;
    let res = drive(
        OrchestratorConfig::default(),
        &planner,
        &req,
        |step| {
            seen.push((step.step_id.clone(), step.input.clone()));
            if !failed_once {
                failed_once = true;
                Err(OrchestratorError::LockError { message: "busy".to_string() })
            } else {
                Ok(format!("out:{}", step.step_id))
            }
        },
        0,
    )
    .unwrap();
    assert_eq!(seen[0], seen[1]);
    assert_eq!(seen.len(), steps + 1);
    assert_eq!(res.steps_executed, steps);
    assert_eq!(res.output, format!("out:{}", plan.steps[steps - 1].step_id));
}
