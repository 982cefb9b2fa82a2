use naina::event_bus::{Event, EventBus, EventBusConfig, EventBusError, EventHandler};
use naina::kernel::{CapabilityCheck, Kernel, KernelConfig, ProcessId, ProcessState};
use naina::runtime::{
    ContextState, ExecutionContextId, Runtime, RuntimeConfig, RuntimeError, RuntimeState,
    CAP_RUNTIME_EXECUTE,
};
use std::sync::atomic::{AtomicU32, Ordering};
use std::sync::Arc;

struct TestHandler {
    count: Arc<AtomicU32>,
}

impl EventHandler for TestHandler {
    fn handle(&self, _event: &Event) -> Result<(), EventBusError> {
        self.count.fetch_add(1, Ordering::SeqCst);
        Ok(())
    }
}

fn create_test_runtime() -> Runtime {
    let kernel = Kernel::new(KernelConfig::default());
    Runtime::new(RuntimeConfig, kernel)
}

fn refused_other_capability() -> Option<CapabilityCheck> {
    Some(CapabilityCheck::Unauthorized {
        capability_id: CAP_RUNTIME_EXECUTE.to_string(),
    })
}

#[test]
fn test_runtime_instantiation() {
    let kernel = Kernel::new(KernelConfig::default());
    let rt = Runtime::new(RuntimeConfig, kernel);
    assert!(format!("{:?}", rt).contains("Runtime"));
}

#[test]
fn test_01_runtime_construction() {
    let runtime = create_test_runtime();
    assert!(format!("{:?}", runtime).contains("Runtime"));
}

#[test]
fn runtime_execution_test_02_initial_state() {
    let runtime = create_test_runtime();
    assert_eq!(runtime.state(), RuntimeState::Uninitialized);
}

#[test]
fn test_03_initialization() {
    let mut runtime = create_test_runtime();
    assert!(runtime.initialize(None).is_ok());
    assert_eq!(runtime.state(), RuntimeState::Initializing);
}

#[test]
fn test_04_initialization_event() {
    let mut bus = EventBus::new(EventBusConfig);
    let counter = Arc::new(AtomicU32::new(0));
    let handler = TestHandler {
        count: counter.clone(),
    };
    bus.subscribe("runtime.initializing", Box::new(handler)).unwrap();

    let mut runtime = create_test_runtime();
    runtime.initialize(Some(&bus)).unwrap();

    assert_eq!(counter.load(Ordering::SeqCst), 1);
}

#[test]
fn test_05_start() {
    let mut runtime = create_test_runtime();
    runtime.initialize(None).unwrap();
    assert!(runtime.start(None).is_ok());
    assert_eq!(runtime.state(), RuntimeState::Ready);
}

#[test]
fn test_06_ready_state() {
    let mut runtime = create_test_runtime();
    runtime.initialize(None).unwrap();
    runtime.start(None).unwrap();
    assert_eq!(runtime.state(), RuntimeState::Ready);
}

#[test]
fn test_07_start_event() {
    let mut bus = EventBus::new(EventBusConfig);
    let counter = Arc::new(AtomicU32::new(0));
    let handler = TestHandler {
        count: counter.clone(),
    };
    bus.subscribe("runtime.ready", Box::new(handler)).unwrap();

    let mut runtime = create_test_runtime();
    runtime.initialize(Some(&bus)).unwrap();
    runtime.start(Some(&bus)).unwrap();

    assert_eq!(counter.load(Ordering::SeqCst), 1);
}

#[test]
fn test_08_invalid_lifecycle_transitions() {
    let mut runtime = create_test_runtime();
    assert!(runtime.start(None).is_err());
}

#[test]
fn test_09_context_creation() {
    let mut runtime = create_test_runtime();
    let cid = runtime.create_context("task_1", None).unwrap();

    assert_eq!(runtime.get_context_state(cid).unwrap(), ContextState::Created);
}

#[test]
fn test_10_context_id_generation() {
    let mut runtime = create_test_runtime();
    let c1 = runtime.create_context("ctx_1", None).unwrap();
    let c2 = runtime.create_context("ctx_2", None).unwrap();

    assert_eq!(c1.0, 1);
    assert_eq!(c2.0, 2);
}

#[test]
fn test_11_kernel_process_id_linkage() {
    let mut runtime = create_test_runtime();
    let cid = runtime.create_context("linked_task", None).unwrap();

    assert!(runtime.get_context_state(cid).is_ok());
    assert!(runtime.kernel().get_process_state(ProcessId(cid.0)).is_ok());
}

#[test]
fn test_12_cap_runtime_execute_authorization() {
    let mut runtime = create_test_runtime();
    let res = runtime.create_context("secure_ctx", Some(CapabilityCheck::Granted));

    assert!(res.is_ok());
}

#[test]
fn test_13_deny_by_default_behavior() {
    let mut runtime = create_test_runtime();
    assert!(runtime.create_context("ctx", refused_other_capability()).is_err());
}

#[test]
fn test_14_context_execution() {
    let mut runtime = create_test_runtime();
    let cid = runtime.create_context("exec_task", None).unwrap();
    assert!(runtime.execute_context(cid).is_ok());
}

#[test]
fn test_15_context_completion() {
    let mut runtime = create_test_runtime();
    let cid = runtime.create_context("exec_task", None).unwrap();
    runtime.execute_context(cid).unwrap();

    assert_eq!(runtime.get_context_state(cid).unwrap(), ContextState::Completed);
}

#[test]
fn test_16_context_failure() {
    let mut runtime = create_test_runtime();
    let cid = runtime.create_context("ctx", None).unwrap();
    runtime.close_context(cid).unwrap();
    assert_eq!(runtime.get_context_state(cid).unwrap(), ContextState::Closed);
}

#[test]
fn test_17_context_closing() {
    let mut runtime = create_test_runtime();
    let cid = runtime.create_context("ctx", None).unwrap();
    assert!(runtime.close_context(cid).is_ok());
    assert_eq!(runtime.get_context_state(cid).unwrap(), ContextState::Closed);
}

#[test]
fn test_18_closed_context_behavior() {
    let mut runtime = create_test_runtime();
    let cid = runtime.create_context("ctx", None).unwrap();
    runtime.close_context(cid).unwrap();

    assert!(runtime.execute_context(cid).is_err());
}

#[test]
fn test_19_context_not_found_behavior() {
    let mut runtime = create_test_runtime();
    let err = runtime.execute_context(ExecutionContextId(9999)).unwrap_err();
    assert!(err.to_string().contains("9999"));
}

#[test]
fn test_20_runtime_shutdown() {
    let mut runtime = create_test_runtime();
    runtime.initialize(None).unwrap();
    runtime.start(None).unwrap();
    assert!(runtime.shutdown(None).is_ok());
    assert_eq!(runtime.state(), RuntimeState::Stopped);
}

#[test]
fn test_21_shutdown_event() {
    let mut bus = EventBus::new(EventBusConfig);
    let counter = Arc::new(AtomicU32::new(0));
    let handler = TestHandler {
        count: counter.clone(),
    };
    bus.subscribe("runtime.shutdown", Box::new(handler)).unwrap();

    let mut runtime = create_test_runtime();
    runtime.initialize(Some(&bus)).unwrap();
    runtime.start(Some(&bus)).unwrap();
    runtime.shutdown(Some(&bus)).unwrap();

    assert_eq!(counter.load(Ordering::SeqCst), 1);
}

#[test]
fn test_22_multiple_contexts() {
    let mut runtime = create_test_runtime();
    let c1 = runtime.create_context("ctx1", None).unwrap();
    let c2 = runtime.create_context("ctx2", None).unwrap();

    assert_ne!(c1, c2);
}

#[test]
fn test_24_arc_runtime_sharing() {
    let kernel = Kernel::new(KernelConfig::default());
    let runtime = Arc::new(Runtime::new(RuntimeConfig, kernel));

    let r2 = Arc::clone(&runtime);
    assert_eq!(r2.state(), RuntimeState::Uninitialized);
}

#[test]
fn test_25_kernel_integration() {
    let mut runtime = create_test_runtime();
    runtime.boot_kernel(None).unwrap();
    runtime.start_kernel(None).unwrap();

    let cid = runtime.create_context("k_task", None).unwrap();
    runtime.close_context(cid).unwrap();

    assert_eq!(
        runtime.kernel().get_process_state(ProcessId(cid.0)).unwrap(),
        ProcessState::Stopped
    );
}

#[test]
fn test_26_capability_failure() {
    let mut runtime = create_test_runtime();
    let err = runtime.create_context("ctx", refused_other_capability()).unwrap_err();

    assert!(err.to_string().contains("CAP_RUNTIME_EXECUTE"));
}

#[test]
fn test_27_eventbus_integration() {
    let mut bus = EventBus::new(EventBusConfig);
    let init_count = Arc::new(AtomicU32::new(0));
    let ready_count = Arc::new(AtomicU32::new(0));
    let shutdown_count = Arc::new(AtomicU32::new(0));

    bus.subscribe(
        "runtime.initializing",
        Box::new(TestHandler {
            count: init_count.clone(),
        }),
    )
    .unwrap();
    bus.subscribe(
        "runtime.ready",
        Box::new(TestHandler {
            count: ready_count.clone(),
        }),
    )
    .unwrap();
    bus.subscribe(
        "runtime.shutdown",
        Box::new(TestHandler {
            count: shutdown_count.clone(),
        }),
    )
    .unwrap();

    let mut runtime = create_test_runtime();
    runtime.initialize(Some(&bus)).unwrap();
    runtime.start(Some(&bus)).unwrap();
    runtime.shutdown(Some(&bus)).unwrap();

    assert_eq!(init_count.load(Ordering::SeqCst), 1);
    assert_eq!(ready_count.load(Ordering::SeqCst), 1);
    assert_eq!(shutdown_count.load(Ordering::SeqCst), 1);
}

#[test]
fn shutdown_closes_every_context_and_stops_its_process() {
    let mut runtime = create_test_runtime();
    let c1 = runtime.create_context("a", None).unwrap();
    let c2 = runtime.create_context("b", None).unwrap();
    runtime.execute_context(c1).unwrap();
    runtime.initialize(None).unwrap();
    runtime.start(None).unwrap();
    runtime.shutdown(None).unwrap();
    assert_eq!(runtime.get_context_state(c1).unwrap(), ContextState::Closed);
    assert_eq!(runtime.get_context_state(c2).unwrap(), ContextState::Closed);
    assert_eq!(
        runtime.kernel().get_process_state(ProcessId(c2.0)).unwrap(),
        ProcessState::Stopped
    );
    assert!(runtime.shutdown(None).is_ok());
    assert_eq!(runtime.state(), RuntimeState::Stopped);
}

#[test]
fn rejected_authorization_is_a_kernel_capability_error() {
    let mut runtime = create_test_runtime();
    let err = runtime
        .create_context(
            "ctx",
            Some(CapabilityCheck::Rejected {
                message: "token expired".to_string(),
            }),
        )
        .unwrap_err();
    assert!(matches!(err, RuntimeError::Kernel(_)));
    assert!(runtime.get_context_state(ExecutionContextId(1)).is_err());
}

#[test]
fn executing_twice_is_refused_and_names_the_state() {
    let mut runtime = create_test_runtime();
    let cid = runtime.create_context("once", None).unwrap();
    runtime.execute_context(cid).unwrap();
    let err = runtime.execute_context(cid).unwrap_err();
    assert!(err.to_string().contains("Completed"));
}

#[test]
fn context_state_debug_text_matches_variant_name() {
    assert_eq!(ContextState::Running.debug_text(), "Running");
}

#[test]
fn failed_context_state_debug_text_quotes_the_error() {
    let state = ContextState::Failed {
        error: "disk \"full\"".to_string(),
    };
    assert_eq!(state.debug_text(), "Failed { error: \"disk \\\"full\\\"\" }");
}

#[test]
fn runtime_recovers_the_process_behind_a_context() {
    let mut runtime = create_test_runtime();
    runtime.boot_kernel(None).unwrap();
    runtime.start_kernel(None).unwrap();
    let cid = runtime.create_context("worker", None).unwrap();
    let pid = ProcessId(cid.0);
    assert!(runtime.report_process_failure(pid, "crash", None).is_ok());
    assert_eq!(
        runtime.kernel().get_process_state(pid).unwrap(),
        ProcessState::Running
    );
}

struct IdRecorder {
    ids: Arc<std::sync::Mutex<Vec<String>>>,
}

impl EventHandler for IdRecorder {
    fn handle(&self, event: &Event) -> Result<(), EventBusError> {
        self.ids.lock().unwrap().push(event.id().to_string());
        Ok(())
    }
}

#[test]
fn runtime_and_kernel_events_share_one_numbering() {
    let mut bus = EventBus::new(EventBusConfig);
    let ids = Arc::new(std::sync::Mutex::new(Vec::new()));
    for topic in ["runtime.initializing", "system.booting", "runtime.ready"] {
        bus.subscribe(topic, Box::new(IdRecorder { ids: ids.clone() }))
            .unwrap();
    }
    let mut runtime = create_test_runtime();
    runtime.initialize(Some(&bus)).unwrap();
    runtime.boot_kernel(Some(&bus)).unwrap();
    runtime.start(Some(&bus)).unwrap();
    assert_eq!(*ids.lock().unwrap(), vec!["evt_1", "evt_2", "evt_3"]);
}
