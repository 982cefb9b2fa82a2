use naina::logging::{
    LogError, LogFields, LogLevel, LogRecord, LogSink, Logger, LoggerConfig,
};
use std::cell::RefCell;
use std::io;
use std::rc::Rc;
use std::time::SystemTime;

#[derive(Clone, Default)]
struct RecordingSink {
    records: Rc<RefCell<Vec<LogRecord>>>,
    should_fail: bool,
}

impl RecordingSink {
    fn failing() -> Self {
        Self {
            records: Rc::new(RefCell::new(Vec::new())),
            should_fail: true,
        }
    }
}

impl LogSink for RecordingSink {
    fn write(&self, record: &LogRecord) -> Result<(), LogError> {
        if self.should_fail {
            return Err(LogError::Sink {
                message: "sink failure".to_string(),
            });
        }
        self.records.borrow_mut().push(record.clone());
        Ok(())
    }
}

struct FlagSink {
    written: RefCell<bool>,
}

impl LogSink for FlagSink {
    fn write(&self, record: &LogRecord) -> Result<(), LogError> {
        assert_eq!(record.level(), LogLevel::Info);
        assert_eq!(record.message(), "hello");
        *self.written.borrow_mut() = true;
        Ok(())
    }
}

// ---------------------------------------------------------------------------
// Configuration
// ---------------------------------------------------------------------------

#[test]
fn defaults_to_info_level() {
    let config = LoggerConfig::default();

    assert_eq!(config.level(), LogLevel::Info);
}

#[test]
fn explicit_level_is_preserved() {
    let config = LoggerConfig::new(LogLevel::Debug);

    assert_eq!(config.level(), LogLevel::Debug);
}

#[test]
fn builder_style_update_replaces_level() {
    let config = LoggerConfig::default().with_level(LogLevel::Warn);

    assert_eq!(config.level(), LogLevel::Warn);
}

#[test]
fn config_converts_from_a_level() {
    let config = LoggerConfig::from(LogLevel::Trace);
    assert_eq!(config.level(), LogLevel::Trace);
}

// ---------------------------------------------------------------------------
// Errors
// ---------------------------------------------------------------------------

#[test]
fn display_variants() {
    assert_eq!(
        LogError::Initialization {
            message: "failed to init".to_string()
        }
        .to_string(),
        "Logger initialization failed: failed to init"
    );

    assert_eq!(
        LogError::Sink {
            message: "console unavailable".to_string()
        }
        .to_string(),
        "Log sink failure: console unavailable"
    );

    assert_eq!(
        LogError::Formatting {
            message: "invalid record".to_string()
        }
        .to_string(),
        "Log formatting failure: invalid record"
    );

    assert_eq!(
        LogError::InvalidState {
            message: "shut down".to_string()
        }
        .to_string(),
        "Invalid logger state: shut down"
    );
}

#[test]
fn io_error_source_is_preserved() {
    let source = io::Error::other("disk full");
    let error = LogError::Io(source);

    assert_eq!(error.to_string(), "I/O error: disk full");
    assert!(error.source().is_some());
}

#[test]
fn io_error_converts_from_io_error() {
    let source = io::Error::other("write failed");
    let error: LogError = source.into();

    assert_eq!(error.to_string(), "I/O error: write failed");
}

#[test]
fn only_io_errors_have_a_source() {
    let error = LogError::Sink {
        message: "x".to_string(),
    };
    assert!(error.source().is_none());
}

// ---------------------------------------------------------------------------
// Levels
// ---------------------------------------------------------------------------

#[test]
fn display_formats_lowercase_text() {
    assert_eq!(LogLevel::Trace.to_string(), "trace");
    assert_eq!(LogLevel::Debug.to_string(), "debug");
    assert_eq!(LogLevel::Info.to_string(), "info");
    assert_eq!(LogLevel::Warn.to_string(), "warn");
    assert_eq!(LogLevel::Error.to_string(), "error");
}

#[test]
fn parse_accepts_known_level_names() {
    assert_eq!("trace".parse::<LogLevel>().unwrap(), LogLevel::Trace);
    assert_eq!("DEBUG".parse::<LogLevel>().unwrap(), LogLevel::Debug);
    assert_eq!("Info".parse::<LogLevel>().unwrap(), LogLevel::Info);
    assert_eq!("warn".parse::<LogLevel>().unwrap(), LogLevel::Warn);
    assert_eq!("ERROR".parse::<LogLevel>().unwrap(), LogLevel::Error);
}

#[test]
fn parse_accepts_warning_alias() {
    assert_eq!("warning".parse::<LogLevel>().unwrap(), LogLevel::Warn);
    assert_eq!("err".parse::<LogLevel>().unwrap(), LogLevel::Error);
}

#[test]
fn parse_rejects_unknown_levels() {
    let error = "verbose".parse::<LogLevel>().unwrap_err();

    assert_eq!(error.to_string(), "invalid log level: 'verbose'");
}

#[test]
fn parse_trims_surrounding_whitespace() {
    assert_eq!(LogLevel::parse("  Warn\t").unwrap(), LogLevel::Warn);
    let error = LogLevel::parse(" LOUD ").unwrap_err();
    assert_eq!(error.to_string(), "invalid log level: 'loud'");
}

#[test]
fn display_then_parse_gives_the_level_back() {
    for level in [
        LogLevel::Trace,
        LogLevel::Debug,
        LogLevel::Info,
        LogLevel::Warn,
        LogLevel::Error,
    ] {
        assert_eq!(LogLevel::parse(&level.to_string()).unwrap(), level);
    }
}

// ---------------------------------------------------------------------------
// Records
// ---------------------------------------------------------------------------

#[test]
fn record_construction_preserves_fields() {
    let record = LogRecord::new("configuration", LogLevel::Info, "startup complete");

    assert_eq!(record.level(), LogLevel::Info);
    assert_eq!(record.target(), "configuration");
    assert_eq!(record.message(), "startup complete");
    assert!(record.fields().is_none());
}

#[test]
fn record_with_fields_stores_structured_fields() {
    let mut fields = LogFields::new();
    fields.insert("user".to_string(), "alice".to_string());
    fields.insert("request_id".to_string(), "abc123".to_string());

    let record =
        LogRecord::new("runtime", LogLevel::Debug, "request received").with_fields(fields.clone());

    assert_eq!(record.fields(), Some(&fields));
}

#[test]
fn timestamp_is_recorded_at_creation() {
    let before = SystemTime::now();
    let record = LogRecord::new("logging", LogLevel::Warn, "disk space low");
    let after = SystemTime::now();

    assert!(record.timestamp() >= before);
    assert!(record.timestamp() <= after);
}

#[test]
fn display_includes_level_target_and_message() {
    let record = LogRecord::new("kernel", LogLevel::Error, "panic occurred");

    assert_eq!(record.to_string(), "[error] kernel: panic occurred");
}

#[test]
fn sink_can_be_used_through_a_trait_object() {
    let sink = FlagSink {
        written: RefCell::new(false),
    };
    let record = LogRecord::new("test", LogLevel::Info, "hello");

    {
        let sink: &dyn LogSink = &sink;
        assert!(sink.write(&record).is_ok());
    }

    assert!(*sink.written.borrow());
}

// ---------------------------------------------------------------------------
// Logger
// ---------------------------------------------------------------------------

#[test]
fn test_1_default_configuration() {
    let config = LoggerConfig::default();
    let logger = Logger::new(config).unwrap();
    assert_eq!(logger.config().level(), LogLevel::Info);
}

#[test]
fn test_2_explicit_configuration() {
    let config = LoggerConfig::new(LogLevel::Debug);
    let logger = Logger::new(config).unwrap();
    assert_eq!(logger.config().level(), LogLevel::Debug);
}

#[test]
fn test_3_default_component() {
    let sink = RecordingSink::default();
    let logger = Logger::new(LoggerConfig::default())
        .unwrap()
        .with_sink(Box::new(sink.clone()));

    logger.info("msg").unwrap();
    assert_eq!(sink.records.borrow()[0].target(), "naina");
}

#[test]
fn test_4_custom_component() {
    let sink = RecordingSink::default();
    let logger = Logger::new(LoggerConfig::default())
        .unwrap()
        .with_component("kernel")
        .with_sink(Box::new(sink.clone()));

    logger.info("msg").unwrap();
    assert_eq!(sink.records.borrow()[0].target(), "kernel");
}

#[test]
fn test_5_trace_filtering() {
    let logger = Logger::new(LoggerConfig::new(LogLevel::Trace)).unwrap();
    assert!(logger.enabled(LogLevel::Trace));
    assert!(logger.enabled(LogLevel::Debug));
    assert!(logger.enabled(LogLevel::Info));
    assert!(logger.enabled(LogLevel::Warn));
    assert!(logger.enabled(LogLevel::Error));
}

#[test]
fn test_6_debug_filtering() {
    let logger = Logger::new(LoggerConfig::new(LogLevel::Debug)).unwrap();
    assert!(!logger.enabled(LogLevel::Trace));
    assert!(logger.enabled(LogLevel::Debug));
    assert!(logger.enabled(LogLevel::Info));
    assert!(logger.enabled(LogLevel::Warn));
    assert!(logger.enabled(LogLevel::Error));
}

#[test]
fn test_7_info_filtering() {
    let logger = Logger::new(LoggerConfig::new(LogLevel::Info)).unwrap();
    assert!(!logger.enabled(LogLevel::Trace));
    assert!(!logger.enabled(LogLevel::Debug));
    assert!(logger.enabled(LogLevel::Info));
    assert!(logger.enabled(LogLevel::Warn));
    assert!(logger.enabled(LogLevel::Error));
}

#[test]
fn test_8_warn_filtering() {
    let logger = Logger::new(LoggerConfig::new(LogLevel::Warn)).unwrap();
    assert!(!logger.enabled(LogLevel::Trace));
    assert!(!logger.enabled(LogLevel::Debug));
    assert!(!logger.enabled(LogLevel::Info));
    assert!(logger.enabled(LogLevel::Warn));
    assert!(logger.enabled(LogLevel::Error));
}

#[test]
fn test_9_error_filtering() {
    let logger = Logger::new(LoggerConfig::new(LogLevel::Error)).unwrap();
    assert!(!logger.enabled(LogLevel::Trace));
    assert!(!logger.enabled(LogLevel::Debug));
    assert!(!logger.enabled(LogLevel::Info));
    assert!(!logger.enabled(LogLevel::Warn));
    assert!(logger.enabled(LogLevel::Error));
}

#[test]
fn test_10_enabled() {
    let logger = Logger::new(LoggerConfig::new(LogLevel::Warn)).unwrap();
    assert!(!logger.enabled(LogLevel::Info));
    assert!(logger.enabled(LogLevel::Warn));
}

#[test]
fn test_11_enabled_records_reach_sinks() {
    let sink = RecordingSink::default();
    let logger = Logger::new(LoggerConfig::new(LogLevel::Info))
        .unwrap()
        .with_sink(Box::new(sink.clone()));

    logger.info("enabled event").unwrap();

    let records = sink.records.borrow();
    assert_eq!(records.len(), 1);
    assert_eq!(records[0].message(), "enabled event");
    assert_eq!(records[0].level(), LogLevel::Info);
}

#[test]
fn test_12_disabled_records_do_not_reach_sinks() {
    let sink = RecordingSink::default();
    let logger = Logger::new(LoggerConfig::new(LogLevel::Warn))
        .unwrap()
        .with_sink(Box::new(sink.clone()));

    let res = logger.info("disabled event");
    assert!(res.is_ok());
    assert!(sink.records.borrow().is_empty());
}

#[test]
fn test_13_structured_fields() {
    let sink = RecordingSink::default();
    let logger = Logger::new(LoggerConfig::new(LogLevel::Info))
        .unwrap()
        .with_sink(Box::new(sink.clone()));

    let mut fields = LogFields::new();
    fields.insert("key".to_string(), "val".to_string());

    logger
        .log_with_fields(LogLevel::Info, "event", fields.clone())
        .unwrap();

    let records = sink.records.borrow();
    assert_eq!(records.len(), 1);
    assert_eq!(records[0].fields(), Some(&fields));
}

#[test]
fn test_14_multiple_sinks() {
    let sink1 = RecordingSink::default();
    let sink2 = RecordingSink::default();
    let logger = Logger::new(LoggerConfig::new(LogLevel::Info))
        .unwrap()
        .with_sink(Box::new(sink1.clone()))
        .with_sink(Box::new(sink2.clone()));

    logger.info("multi-sink").unwrap();

    assert_eq!(sink1.records.borrow().len(), 1);
    assert_eq!(sink2.records.borrow().len(), 1);
    assert_eq!(sink1.records.borrow()[0].message(), "multi-sink");
    assert_eq!(sink2.records.borrow()[0].message(), "multi-sink");
}

#[test]
fn test_15_sink_error_propagation() {
    let sink = RecordingSink::failing();
    let logger = Logger::new(LoggerConfig::new(LogLevel::Info))
        .unwrap()
        .with_sink(Box::new(sink));

    let res = logger.info("fail");
    assert!(matches!(res, Err(LogError::Sink { .. })));
}

#[test]
fn test_16_zero_sink_behavior() {
    let logger = Logger::new(LoggerConfig::new(LogLevel::Info)).unwrap();
    let res = logger.info("no sinks");
    assert!(res.is_ok());
}

#[test]
fn test_17_convenience_methods() {
    let sink = RecordingSink::default();
    let logger = Logger::new(LoggerConfig::new(LogLevel::Trace))
        .unwrap()
        .with_sink(Box::new(sink.clone()));

    logger.trace("trace msg").unwrap();
    logger.debug("debug msg").unwrap();
    logger.info("info msg").unwrap();
    logger.warn("warn msg").unwrap();
    logger.error("error msg").unwrap();

    let records = sink.records.borrow();
    assert_eq!(records.len(), 5);
    assert_eq!(records[0].level(), LogLevel::Trace);
    assert_eq!(records[1].level(), LogLevel::Debug);
    assert_eq!(records[2].level(), LogLevel::Info);
    assert_eq!(records[3].level(), LogLevel::Warn);
    assert_eq!(records[4].level(), LogLevel::Error);
}

#[test]
fn a_failing_sink_stops_delivery_to_later_sinks() {
    let first = RecordingSink::default();
    let later = RecordingSink::default();
    let logger = Logger::new(LoggerConfig::new(LogLevel::Info))
        .unwrap()
        .with_sink(Box::new(first.clone()))
        .with_sink(Box::new(RecordingSink::failing()))
        .with_sink(Box::new(later.clone()));

    assert!(logger.warn("partial").is_err());
    assert_eq!(first.records.borrow().len(), 1);
    assert!(later.records.borrow().is_empty());
}
