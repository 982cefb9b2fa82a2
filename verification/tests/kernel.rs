use naina::event_bus::{Event, EventBus, EventBusConfig, EventBusError, EventHandler};
use naina::kernel::{
    CapabilityCheck, Kernel, KernelConfig, KernelError, KernelState, ProcessId, ProcessState,
    RestartPolicy, CAP_KERNEL_SUPERVISE,
};
use naina::logging::{Logger, LoggerConfig};
use std::sync::atomic::{AtomicU32, Ordering};
use std::sync::Arc;

struct TestHandler {
    count: Arc<AtomicU32>,
}

impl EventHandler for TestHandler {
    fn handle(&self, _event: &Event) -> Result<(), EventBusError> {
        self.count.fetch_add(1, Ordering::SeqCst);
        Ok(())
    }
}

#[test]
fn test_kernel_instantiation() {
    let kernel = Kernel::new(KernelConfig::default());
    assert!(format!("{:?}", kernel).contains("Kernel"));
}

#[test]
fn test_01_kernel_construction() {
    let kernel = Kernel::new(KernelConfig::default());
    assert!(format!("{:?}", kernel).contains("Kernel"));
}

#[test]
fn supervisor_test_02_initial_state() {
    let kernel = Kernel::new(KernelConfig::default());
    assert_eq!(kernel.state(), KernelState::Uninitialized);
}

#[test]
fn test_03_valid_boot_transition() {
    let mut kernel = Kernel::new(KernelConfig::default());
    assert!(kernel.boot(None).is_ok());
    assert_eq!(kernel.state(), KernelState::Booting);
}

#[test]
fn test_04_boot_event_publication() {
    let mut bus = EventBus::new(EventBusConfig);
    let counter = Arc::new(AtomicU32::new(0));
    let handler = TestHandler {
        count: counter.clone(),
    };
    bus.subscribe("system.booting", Box::new(handler)).unwrap();

    let mut kernel = Kernel::new(KernelConfig::default());
    kernel.boot(Some(&bus)).unwrap();

    assert_eq!(counter.load(Ordering::SeqCst), 1);
}

#[test]
fn test_05_running_state() {
    let mut kernel = Kernel::new(KernelConfig::default());
    kernel.boot(None).unwrap();
    assert!(kernel.start(None).is_ok());
    assert_eq!(kernel.state(), KernelState::Running);
}

#[test]
fn test_06_invalid_lifecycle_transition() {
    let mut kernel = Kernel::new(KernelConfig::default());
    assert!(kernel.start(None).is_err());
}

#[test]
fn test_07_shutdown_transition() {
    let mut kernel = Kernel::new(KernelConfig::default());
    kernel.boot(None).unwrap();
    kernel.start(None).unwrap();
    assert!(kernel.shutdown(None).is_ok());
    assert_eq!(kernel.state(), KernelState::Stopped);
}

#[test]
fn test_08_shutdown_event() {
    let mut bus = EventBus::new(EventBusConfig);
    let counter = Arc::new(AtomicU32::new(0));
    let handler = TestHandler {
        count: counter.clone(),
    };
    bus.subscribe("system.shutdown", Box::new(handler)).unwrap();

    let mut kernel = Kernel::new(KernelConfig::default());
    kernel.boot(Some(&bus)).unwrap();
    kernel.start(Some(&bus)).unwrap();
    kernel.shutdown(Some(&bus)).unwrap();

    assert_eq!(counter.load(Ordering::SeqCst), 1);
}

#[test]
fn test_09_process_registration() {
    let mut kernel = Kernel::new(KernelConfig::default());
    let pid = kernel
        .register_process("worker", RestartPolicy::Never, None)
        .unwrap();

    assert_eq!(
        kernel.get_process_state(pid).unwrap(),
        ProcessState::Registered
    );
}

#[test]
fn test_10_process_ids() {
    let mut kernel = Kernel::new(KernelConfig::default());
    let p1 = kernel
        .register_process("w1", RestartPolicy::Never, None)
        .unwrap();
    let p2 = kernel
        .register_process("w2", RestartPolicy::Never, None)
        .unwrap();

    assert_eq!(p1.0, 1);
    assert_eq!(p2.0, 2);
}

#[test]
fn test_11_process_state_transitions() {
    let mut kernel = Kernel::new(KernelConfig::default());
    let pid = kernel
        .register_process("worker", RestartPolicy::Never, None)
        .unwrap();

    kernel.boot(None).unwrap();
    kernel.start(None).unwrap();

    assert_eq!(
        kernel.get_process_state(pid).unwrap(),
        ProcessState::Running
    );
}

#[test]
fn test_12_process_failure() {
    let mut kernel = Kernel::new(KernelConfig::default());
    let pid = kernel
        .register_process("worker", RestartPolicy::Never, None)
        .unwrap();

    assert!(kernel.report_process_failure(pid, "crash", None).is_err());
    assert!(matches!(
        kernel.get_process_state(pid).unwrap(),
        ProcessState::Failed { .. }
    ));
}

#[test]
fn test_13_process_failed_event() {
    let mut bus = EventBus::new(EventBusConfig);
    let counter = Arc::new(AtomicU32::new(0));
    let handler = TestHandler {
        count: counter.clone(),
    };
    bus.subscribe("process.failed", Box::new(handler)).unwrap();

    let mut kernel = Kernel::new(KernelConfig::default());
    let pid = kernel
        .register_process("worker", RestartPolicy::Never, None)
        .unwrap();

    let _ = kernel.report_process_failure(pid, "crash", Some(&bus));
    assert_eq!(counter.load(Ordering::SeqCst), 1);
}

#[test]
fn test_14_restart_policy_on_failure() {
    let mut kernel = Kernel::new(KernelConfig::default());
    let pid = kernel
        .register_process("worker", RestartPolicy::OnFailure { max_retries: 2 }, None)
        .unwrap();

    assert!(kernel.report_process_failure(pid, "retry_1", None).is_ok());
    assert_eq!(
        kernel.get_process_state(pid).unwrap(),
        ProcessState::Running
    );
}

#[test]
fn test_15_max_retry_enforcement() {
    let mut kernel = Kernel::new(KernelConfig::default());
    let pid = kernel
        .register_process("worker", RestartPolicy::OnFailure { max_retries: 2 }, None)
        .unwrap();

    assert!(kernel.report_process_failure(pid, "retry_1", None).is_ok());
    assert!(kernel.report_process_failure(pid, "retry_2", None).is_ok());

    let res = kernel.report_process_failure(pid, "retry_3", None);
    assert!(res.is_err());
    assert!(matches!(
        kernel.get_process_state(pid).unwrap(),
        ProcessState::Failed { .. }
    ));
}

#[test]
fn test_16_crash_recovery_without_supervisor_crash() {
    let mut kernel = Kernel::new(KernelConfig::default());
    kernel.boot(None).unwrap();
    kernel.start(None).unwrap();

    let p1 = kernel
        .register_process("worker1", RestartPolicy::OnFailure { max_retries: 1 }, None)
        .unwrap();
    let p2 = kernel
        .register_process("worker2", RestartPolicy::Never, None)
        .unwrap();

    assert!(kernel.report_process_failure(p1, "err", None).is_ok());
    let _ = kernel.report_process_failure(p2, "err", None);

    assert_eq!(kernel.state(), KernelState::Running);
}

#[test]
fn test_17_capability_authorization() {
    // The capability authority granted CAP_KERNEL_SUPERVISE to the caller.
    let mut kernel = Kernel::new(KernelConfig::default());
    let res = kernel.register_process(
        "auth_worker",
        RestartPolicy::Never,
        Some(CapabilityCheck::Granted),
    );

    assert!(res.is_ok());
}

#[test]
fn test_18_unauthorized_supervisor_operation() {
    // The caller only holds CAP_DESKTOP_CONTROL, so the authority refuses.
    let mut kernel = Kernel::new(KernelConfig::default());
    let res = kernel.register_process(
        "auth_worker",
        RestartPolicy::Never,
        Some(CapabilityCheck::Unauthorized {
            capability_id: CAP_KERNEL_SUPERVISE.to_string(),
        }),
    );

    assert!(res.is_err());
}

#[test]
fn test_19_eventbus_integration() {
    let mut bus = EventBus::new(EventBusConfig);
    let counter = Arc::new(AtomicU32::new(0));
    let handler = TestHandler {
        count: counter.clone(),
    };
    bus.subscribe("system.started", Box::new(handler)).unwrap();

    let mut kernel = Kernel::new(KernelConfig::default());
    kernel.boot(Some(&bus)).unwrap();
    kernel.start(Some(&bus)).unwrap();

    assert_eq!(counter.load(Ordering::SeqCst), 1);
}

#[test]
fn test_21_error_propagation() {
    let mut kernel = Kernel::new(KernelConfig::default());
    let pid = kernel
        .register_process("w", RestartPolicy::Never, None)
        .unwrap();

    let err = kernel
        .report_process_failure(pid, "fatal_error", None)
        .unwrap_err();
    assert!(err.to_string().contains("fatal_error"));
}

#[test]
fn test_22_logging_state_transitions() {
    let logger = Logger::new(LoggerConfig::default()).unwrap();
    let mut kernel = Kernel::new(KernelConfig::default());

    let _ = logger.info("Booting kernel...");
    assert!(kernel.boot(None).is_ok());

    let _ = logger.info("Starting kernel...");
    assert!(kernel.start(None).is_ok());

    let _ = logger.info("Kernel state: Running");
    assert_eq!(kernel.state(), KernelState::Running);
}

#[test]
fn boot_twice_is_rejected_with_state_names() {
    let mut kernel = Kernel::new(KernelConfig::default());
    kernel.boot(None).unwrap();
    let err = kernel.boot(None).unwrap_err();
    assert_eq!(
        err.to_string(),
        "Invalid kernel state transition: current 'Booting', expected 'Uninitialized'"
    );
    assert_eq!(kernel.state(), KernelState::Booting);
}

#[test]
fn slow_boot_budget_fails_the_kernel() {
    let config = KernelConfig {
        boot_timeout: std::time::Duration::from_millis(2500),
        max_process_restarts: 3,
    };
    let mut kernel = Kernel::new(config);
    let err = kernel.boot(None).unwrap_err();
    assert!(matches!(err, KernelError::BootFailed { .. }));
    assert_eq!(kernel.state(), KernelState::Failed);
    assert_eq!(
        err.to_string(),
        "Kernel boot failed: Boot timeout 2.5s exceeds 2.0s cold boot budget"
    );
}

#[test]
fn exhausted_retries_message_and_restart_count() {
    let mut kernel = Kernel::new(KernelConfig::default());
    let pid = kernel
        .register_process("w", RestartPolicy::OnFailure { max_retries: 1 }, None)
        .unwrap();
    assert!(kernel.report_process_failure(pid, "a", None).is_ok());
    let err = kernel.report_process_failure(pid, "b", None).unwrap_err();
    assert_eq!(err.to_string(), "Process 1 failed: Exhausted max retries (1)");
    assert_eq!(
        kernel.get_process_state(pid).unwrap(),
        ProcessState::Failed { error: "b".to_string() }
    );
}

#[test]
fn unknown_process_is_reported() {
    let mut kernel = Kernel::new(KernelConfig::default());
    let err = kernel.stop_process(ProcessId(5)).unwrap_err();
    assert_eq!(err, KernelError::ProcessNotFound { id: ProcessId(5) });
    assert_eq!(err.to_string(), "Process not found: 5");
    assert!(kernel.report_process_failure(ProcessId(5), "x", None).is_err());
    assert!(kernel.get_process_state(ProcessId(0)).is_err());
}

#[test]
fn shutdown_stops_processes_and_is_idempotent() {
    let mut kernel = Kernel::new(KernelConfig::default());
    let pid = kernel.register_process("w", RestartPolicy::Never, None).unwrap();
    kernel.boot(None).unwrap();
    kernel.start(None).unwrap();
    kernel.shutdown(None).unwrap();
    assert_eq!(kernel.get_process_state(pid).unwrap(), ProcessState::Stopped);
    assert!(kernel.shutdown(None).is_ok());
    assert_eq!(kernel.state(), KernelState::Stopped);
}

#[test]
fn rejected_capability_is_wrapped() {
    let mut kernel = Kernel::new(KernelConfig::default());
    let err = kernel
        .register_process(
            "w",
            RestartPolicy::Never,
            Some(CapabilityCheck::Rejected { message: "token expired".to_string() }),
        )
        .unwrap_err();
    assert_eq!(err.to_string(), "Capability error: token expired");
    let err = kernel
        .register_process(
            "w",
            RestartPolicy::Never,
            Some(CapabilityCheck::Unauthorized { capability_id: "CAP_X".to_string() }),
        )
        .unwrap_err();
    assert_eq!(
        err.to_string(),
        "Unauthorized capability 'CAP_X' for kernel operation"
    );
}

struct RecordingHandler {
    seen: Arc<std::sync::Mutex<Vec<(String, String, Vec<(String, String)>)>>>,
}

impl EventHandler for RecordingHandler {
    fn handle(&self, event: &Event) -> Result<(), EventBusError> {
        let fields = event
            .payload()
            .iter()
            .map(|(k, v)| (k.clone(), v.clone()))
            .collect();
        self.seen.lock().unwrap().push((
            event.id().to_string(),
            event.source().to_string(),
            fields,
        ));
        Ok(())
    }
}

#[test]
fn kernel_events_carry_their_payload_and_fresh_ids() {
    let mut bus = EventBus::new(EventBusConfig);
    let seen = Arc::new(std::sync::Mutex::new(Vec::new()));
    for topic in ["system.booting", "process.failed"] {
        bus.subscribe(topic, Box::new(RecordingHandler { seen: seen.clone() }))
            .unwrap();
    }
    let mut kernel = Kernel::new(KernelConfig::default());
    kernel.boot(Some(&bus)).unwrap();
    let pid = kernel
        .register_process("w", RestartPolicy::OnFailure { max_retries: 1 }, None)
        .unwrap();
    assert!(kernel.report_process_failure(pid, "first", Some(&bus)).is_ok());
    assert!(kernel.report_process_failure(pid, "second", Some(&bus)).is_err());
    let seen = seen.lock().unwrap();
    assert_eq!(seen.len(), 2);
    assert_eq!(seen[0].1, "kernel");
    assert_eq!(seen[0].2, vec![("state".to_string(), "booting".to_string())]);
    assert_eq!(
        seen[1].2,
        vec![
            ("error".to_string(), "second".to_string()),
            ("process_id".to_string(), pid.0.to_string()),
        ]
    );
    assert_ne!(seen[0].0, seen[1].0);
}
