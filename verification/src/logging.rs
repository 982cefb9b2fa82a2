//! Structured logging: levels, records, sinks and the filtering logger.
use crate::clock::clock_now;
use crate::text::{
    all_ascii, ascii_lower_char, is_space, join2, join3, join5, lemma_trimmed_ascii, lowercase, owned,
    str_eq, string_from_chars, to_lower, trim_back, trim_front, trim_text, trimmed,
};
use std::collections::BTreeMap;
use std::time::SystemTime;
use vstd::prelude::*;

verus! {

#[verifier::external_type_specification]
#[verifier::external_body]
pub struct ExIoError(std::io::Error);

// ---------------------------------------------------------------------------
// Levels
// ---------------------------------------------------------------------------

/// Supported log levels, from the most to the least verbose.
#[derive(Clone, Copy, Debug, PartialEq, Eq, Hash)]
pub enum LogLevel {
    Trace,
    Debug,
    Info,
    Warn,
    Error,
}

/// The rank of a level: `Trace` is 0, `Error` is 4.
pub open spec fn weight(level: LogLevel) -> nat {
    match level {
        LogLevel::Trace => 0,
        LogLevel::Debug => 1,
        LogLevel::Info => 2,
        LogLevel::Warn => 3,
        LogLevel::Error => 4,
    }
}

/// Returns the rank of a level.
pub fn level_weight(level: LogLevel) -> (w: u8)
    ensures
        w as nat == weight(level),
{
    match level {
        LogLevel::Trace => 0,
        LogLevel::Debug => 1,
        LogLevel::Info => 2,
        LogLevel::Warn => 3,
        LogLevel::Error => 4,
    }
}

/// The lowercase name of a level.
pub open spec fn level_name(level: LogLevel) -> Seq<char> {
    match level {
        LogLevel::Trace => "trace"@,
        LogLevel::Debug => "debug"@,
        LogLevel::Info => "info"@,
        LogLevel::Warn => "warn"@,
        LogLevel::Error => "error"@,
    }
}

/// The level a (trimmed, lowercased) name denotes, if any. `warning` and `err`
/// are accepted aliases.
pub open spec fn level_of_name(key: Seq<char>) -> Option<LogLevel> {
    if key == "trace"@ {
        Some(LogLevel::Trace)
    } else if key == "debug"@ {
        Some(LogLevel::Debug)
    } else if key == "info"@ {
        Some(LogLevel::Info)
    } else if key == "warn"@ || key == "warning"@ {
        Some(LogLevel::Warn)
    } else if key == "error"@ || key == "err"@ {
        Some(LogLevel::Error)
    } else {
        None
    }
}

/// The key a text is parsed by: trimmed, then lowercased.
pub open spec fn level_key(value: Seq<char>) -> Seq<char> {
    lowercase(trimmed(value))
}

/// Each level's name reads back as that level: it is lowercase ASCII without
/// surrounding white space.
proof fn lemma_names_parse(value: Seq<char>)
    ensures
        forall|l: LogLevel| #[trigger] level_name(l) == value ==> {
            &&& all_ascii(value)
            &&& trimmed(value) == value
            &&& value.map_values(|c: char| ascii_lower_char(c)) == value
            &&& level_of_name(value) == Some(l)
        },
{
    reveal_strlit("trace");
    reveal_strlit("debug");
    reveal_strlit("info");
    reveal_strlit("warn");
    reveal_strlit("warning");
    reveal_strlit("error");
    reveal_strlit("err");
    assert forall|l: LogLevel| #[trigger] level_name(l) == value implies {
        &&& all_ascii(value)
        &&& trimmed(value) == value
        &&& value.map_values(|c: char| ascii_lower_char(c)) == value
        &&& level_of_name(value) == Some(l)
    } by {
        assert(value.len() > 0);
        assert(!is_space(value[0]));
        assert(!is_space(value.last()));
        assert(trim_front(value) == value);
        assert(trim_back(value) == value);
        assert(value.map_values(|c: char| ascii_lower_char(c)) =~= value);
        assert(level_of_name(value) == Some(l));
    }
}

/// Error returned when a text names no log level.
#[derive(Clone, Debug, PartialEq, Eq)]
pub struct LogLevelParseError {
    invalid: String,
}

impl LogLevelParseError {
    /// The rejected text (trimmed and lowercased).
    pub closed spec fn invalid_view(&self) -> Seq<char> {
        self.invalid@
    }

    /// Renders the error as text: `invalid log level: '<text>'`.
    pub fn to_string(&self) -> (s: String)
        ensures
            s@ == "invalid log level: '"@ + self.invalid_view() + "'"@,
    {
        join3("invalid log level: '", self.invalid.as_str(), "'")
    }
}

impl LogLevel {
    /// Returns the lowercase name of the level.
    pub fn as_str(&self) -> (s: &'static str)
        ensures
            s@ == level_name(*self),
    {
        match self {
            LogLevel::Trace => "trace",
            LogLevel::Debug => "debug",
            LogLevel::Info => "info",
            LogLevel::Warn => "warn",
            LogLevel::Error => "error",
        }
    }

    /// Renders the level as its lowercase name.
    pub fn to_string(&self) -> (s: String)
        ensures
            s@ == level_name(*self),
    {
        owned(self.as_str())
    }

    /// Parses a level name, ignoring surrounding white space and case. `warning`
    /// and `err` are accepted for `Warn` and `Error`.
    pub fn parse(value: &str) -> (r: Result<LogLevel, LogLevelParseError>)
        ensures
            level_of_name(level_key(value@)) matches Some(l) ==> r == Ok::<
                LogLevel,
                LogLevelParseError,
            >(l),
            level_of_name(level_key(value@)) is None ==> (r matches Err(e) && e.invalid_view()
                == level_key(value@)),
            all_ascii(value@) ==> level_key(value@) == trimmed(value@).map_values(
                |c: char| ascii_lower_char(c),
            ),
            forall|l: LogLevel| #[trigger] level_name(l) == value@ ==> r == Ok::<
                LogLevel,
                LogLevelParseError,
            >(l),
    {
        let core = trim_text(value);
        let core_text = string_from_chars(core.as_slice());
        let key = to_lower(core_text.as_str());
        proof {
            if all_ascii(value@) {
                lemma_trimmed_ascii(value@);
            }
            lemma_names_parse(value@);
        }
        let k = key.as_str();
        proof {
            reveal_strlit("trace");
            reveal_strlit("debug");
            reveal_strlit("info");
            reveal_strlit("warn");
            reveal_strlit("warning");
            reveal_strlit("error");
            reveal_strlit("err");
        }
        if str_eq(k, "trace") {
            Ok(LogLevel::Trace)
        } else if str_eq(k, "debug") {
            Ok(LogLevel::Debug)
        } else if str_eq(k, "info") {
            Ok(LogLevel::Info)
        } else if str_eq(k, "warn") || str_eq(k, "warning") {
            Ok(LogLevel::Warn)
        } else if str_eq(k, "error") || str_eq(k, "err") {
            Ok(LogLevel::Error)
        } else {
            Err(LogLevelParseError { invalid: key })
        }
    }
}

impl std::str::FromStr for LogLevel {
    type Err = LogLevelParseError;

    fn from_str(value: &str) -> (r: Result<Self, Self::Err>)
        ensures
            level_of_name(level_key(value@)) matches Some(l) ==> r == Ok::<
                LogLevel,
                LogLevelParseError,
            >(l),
            level_of_name(level_key(value@)) is None ==> (r matches Err(e) && e.invalid_view()
                == level_key(value@)),
            forall|l: LogLevel| #[trigger] level_name(l) == value@ ==> r == Ok::<
                LogLevel,
                LogLevelParseError,
            >(l),
    {
        LogLevel::parse(value)
    }
}

// ---------------------------------------------------------------------------
// Configuration
// ---------------------------------------------------------------------------

/// Configuration of a logger: its minimum level.
#[derive(Clone, Copy, Debug, PartialEq, Eq)]
pub struct LoggerConfig {
    level: LogLevel,
}

impl LoggerConfig {
    /// The configured minimum level.
    pub closed spec fn level_view(&self) -> LogLevel {
        self.level
    }

    /// A configuration with minimum level `level`.
    pub fn new(level: LogLevel) -> (c: LoggerConfig)
        ensures
            c.level_view() == level,
    {
        LoggerConfig { level }
    }

    /// Returns the configured minimum level.
    pub fn level(&self) -> (l: LogLevel)
        ensures
            l == self.level_view(),
    {
        self.level
    }

    /// Replaces the configured level.
    pub fn with_level(self, level: LogLevel) -> (c: LoggerConfig)
        ensures
            c.level_view() == level,
    {
        LoggerConfig { level }
    }
}

impl Default for LoggerConfig {
    /// The default minimum level is `Info`.
    fn default() -> (c: Self)
        ensures
            c.level_view() == LogLevel::Info,
    {
        LoggerConfig::new(LogLevel::Info)
    }
}

impl From<LogLevel> for LoggerConfig {
    fn from(level: LogLevel) -> (c: Self) {
        LoggerConfig::new(level)
    }
}

impl vstd::std_specs::convert::FromSpecImpl<LogLevel> for LoggerConfig {
    open spec fn obeys_from_spec() -> bool {
        true
    }

    closed spec fn from_spec(level: LogLevel) -> Self {
        LoggerConfig { level }
    }
}

// ---------------------------------------------------------------------------
// Errors
// ---------------------------------------------------------------------------

/// Errors produced by the logging subsystem.
#[derive(Debug)]
pub enum LogError {
    /// Failed to initialize the logger.
    Initialization { message: String },
    /// A sink failed to emit a log record.
    Sink { message: String },
    /// A log record failed to format.
    Formatting { message: String },
    /// An underlying I/O operation failed.
    Io(std::io::Error),
    /// The logger was invoked in an invalid state.
    InvalidState { message: String },
}

/// `<std::io::Error as Display>::fmt`: the error's own message. It is not a
/// function of anything this crate can see, so nothing is stated of it.
#[verifier::external_body]
fn io_error_text(e: &std::io::Error) -> String {
    format!("{}", e)
}

impl LogError {
    /// Renders the error as text. For an I/O error the prefix `I/O error: ` is
    /// followed by the underlying error's own message.
    pub fn to_string(&self) -> (s: String)
        ensures
            match self {
                LogError::Initialization { message } => s@ == "Logger initialization failed: "@
                    + message@,
                LogError::Sink { message } => s@ == "Log sink failure: "@ + message@,
                LogError::Formatting { message } => s@ == "Log formatting failure: "@ + message@,
                LogError::Io(_) => s@.len() >= 11 && s@.take(11) == "I/O error: "@,
                LogError::InvalidState { message } => s@ == "Invalid logger state: "@ + message@,
            },
    {
        match self {
            LogError::Initialization { message } => join2(
                "Logger initialization failed: ",
                message.as_str(),
            ),
            LogError::Sink { message } => join2("Log sink failure: ", message.as_str()),
            LogError::Formatting { message } => join2("Log formatting failure: ", message.as_str()),
            LogError::Io(source) => {
                let inner = io_error_text(source);
                let s = join2("I/O error: ", inner.as_str());
                proof {
                    reveal_strlit("I/O error: ");
                    assert(s@.take(11) =~= "I/O error: "@);
                }
                s
            },
            LogError::InvalidState { message } => join2(
                "Invalid logger state: ",
                message.as_str(),
            ),
        }
    }

    /// The underlying I/O error, for `Io`; `None` for every other kind.
    pub fn source(&self) -> (r: Option<&std::io::Error>)
        ensures
            match self {
                LogError::Io(e) => r == Some(e),
                _ => r is None,
            },
    {
        match self {
            LogError::Io(e) => Some(e),
            _ => None,
        }
    }
}

impl From<std::io::Error> for LogError {
    fn from(source: std::io::Error) -> (e: Self) {
        LogError::Io(source)
    }
}

impl vstd::std_specs::convert::FromSpecImpl<std::io::Error> for LogError {
    open spec fn obeys_from_spec() -> bool {
        true
    }

    open spec fn from_spec(source: std::io::Error) -> Self {
        LogError::Io(source)
    }
}

// ---------------------------------------------------------------------------
// Records
// ---------------------------------------------------------------------------

/// Structured field values of a log record: field names to text values.
pub type LogFields = BTreeMap<String, String>;

/// A single structured log event.
#[derive(Clone, Debug, PartialEq, Eq)]
pub struct LogRecord {
    timestamp: SystemTime,
    level: LogLevel,
    target: String,
    message: String,
    fields: Option<LogFields>,
}

impl LogRecord {
    /// The creation time.
    pub closed spec fn time_view(&self) -> SystemTime {
        self.timestamp
    }

    /// The level.
    pub closed spec fn level_view(&self) -> LogLevel {
        self.level
    }

    /// The target (component).
    pub closed spec fn target_view(&self) -> Seq<char> {
        self.target@
    }

    /// The message.
    pub closed spec fn message_view(&self) -> Seq<char> {
        self.message@
    }

    /// The structured fields, if any.
    pub closed spec fn fields_view(&self) -> Option<LogFields> {
        self.fields
    }

    /// Creates a record for `target` at `level` with `message`, stamped with the
    /// current time and without fields.
    pub fn new(target: &str, level: LogLevel, message: &str) -> (r: LogRecord)
        ensures
            r.level_view() == level,
            r.target_view() == target@,
            r.message_view() == message@,
            r.fields_view() is None,
    {
        LogRecord {
            timestamp: clock_now(),
            level,
            target: owned(target),
            message: owned(message),
            fields: None,
        }
    }

    /// Returns the creation time.
    pub fn timestamp(&self) -> (t: SystemTime)
        ensures
            t == self.time_view(),
    {
        self.timestamp
    }

    /// Returns the level.
    pub fn level(&self) -> (l: LogLevel)
        ensures
            l == self.level_view(),
    {
        self.level
    }

    /// Returns the target (component).
    pub fn target(&self) -> (t: &str)
        ensures
            t@ == self.target_view(),
    {
        self.target.as_str()
    }

    /// Returns the message.
    pub fn message(&self) -> (m: &str)
        ensures
            m@ == self.message_view(),
    {
        self.message.as_str()
    }

    /// Returns the structured fields, if present.
    pub fn fields(&self) -> (f: Option<&LogFields>)
        ensures
            match self.fields_view() {
                Some(x) => f == Some(&x),
                None => f is None,
            },
    {
        self.fields.as_ref()
    }

    /// Attaches structured fields, keeping everything else.
    pub fn with_fields(self, fields: LogFields) -> (r: LogRecord)
        ensures
            r.fields_view() == Some(fields),
            r.level_view() == self.level_view(),
            r.target_view() == self.target_view(),
            r.message_view() == self.message_view(),
            r.time_view() == self.time_view(),
    {
        LogRecord { fields: Some(fields), ..self }
    }

    /// Renders the record as `[<level>] <target>: <message>`.
    pub fn to_string(&self) -> (s: String)
        ensures
            s@ == "["@ + level_name(self.level_view()) + "] "@ + self.target_view() + ": "@
                + self.message_view(),
    {
        join5("[", self.level.as_str(), "] ", self.target.as_str(), ": ")
            .concat(self.message.as_str())
    }
}

// ---------------------------------------------------------------------------
// Sinks and the logger
// ---------------------------------------------------------------------------

/// A destination for log records. Implemented by users; what a sink answers is
/// its own affair, so the logger states its behaviour for every answer.
pub trait LogSink {
    /// Whether this sink may answer `r` when it is given `record`. An
    /// implementation may state what it answers; by default it states nothing.
    closed spec fn accepts(&self, record: LogRecord, r: Result<(), LogError>) -> bool {
        true
    }

    /// Writes a record to the sink.
    fn write(&self, record: &LogRecord) -> (r: Result<(), LogError>)
        ensures
            self.accepts(*record, r),
    ;
}

/// A registered sink. It is generic in the sink so that the sink it stores is the
/// one given.
struct SinkSlot<S> {
    sink: S,
}

impl<S> SinkSlot<S> {
    fn new(sink: S) -> (s: SinkSlot<S>)
        ensures
            s.sink == sink,
    {
        SinkSlot { sink }
    }
}

/// How a delivery to `n` sinks, which answered `answers` in order, ends in `r`:
/// every answer but the last is `Ok`; a failing last answer stops the delivery
/// and is returned; otherwise all `n` sinks accepted the record and `r` is `Ok`.
pub open spec fn delivers(answers: Seq<Result<(), LogError>>, n: nat, r: Result<(), LogError>) -> bool {
    &&& answers.len() <= n
    &&& forall|i: int| 0 <= i < answers.len() - 1 ==> #[trigger] answers[i] is Ok
    &&& if answers.len() > 0 && answers.last() is Err {
        r == answers.last()
    } else {
        &&& r is Ok
        &&& answers.len() == n
    }
}

/// How handing `record` to `sinks` in order ends in `r`: the `i`-th sink is given
/// the record and answers `answers[i]`, and delivery stops at the first failure
/// as [`delivers`] says.
pub open spec fn delivered(
    sinks: Seq<Box<dyn LogSink>>,
    record: LogRecord,
    answers: Seq<Result<(), LogError>>,
    r: Result<(), LogError>,
) -> bool {
    &&& delivers(answers, sinks.len(), r)
    &&& forall|i: int| 0 <= i < answers.len() ==> #[trigger] sinks[i].accepts(record, answers[i])
}

/// Filters log events by level, stamps them with its component, and hands them to
/// its sinks in registration order.
pub struct Logger {
    config: LoggerConfig,
    component: String,
    sinks: Vec<SinkSlot<Box<dyn LogSink>>>,
}

impl Logger {
    /// The configuration.
    pub closed spec fn config_view(&self) -> LoggerConfig {
        self.config
    }

    /// The component stamped on records.
    pub closed spec fn component_view(&self) -> Seq<char> {
        self.component@
    }

    /// The registered sinks, in registration order.
    pub closed spec fn sinks_view(&self) -> Seq<Box<dyn LogSink>> {
        self.sinks@.map_values(|s: SinkSlot<Box<dyn LogSink>>| s.sink)
    }

    /// The number of registered sinks.
    pub open spec fn sink_count(&self) -> nat {
        self.sinks_view().len()
    }

    /// How logging `message` with `fields` at `level` ends in `r`: a level below
    /// the minimum is dropped and answers `Ok`; otherwise a record stamped with the
    /// component, the level, the message and the fields is delivered to the sinks
    /// in order until one fails.
    pub open spec fn logged(
        &self,
        level: LogLevel,
        message: Seq<char>,
        fields: Option<LogFields>,
        r: Result<(), LogError>,
    ) -> bool {
        if !self.passes(level) {
            r is Ok
        } else {
            exists|rec: LogRecord, answers: Seq<Result<(), LogError>>|
                rec.level_view() == level && rec.target_view() == self.component_view()
                    && rec.message_view() == message && rec.fields_view() == fields
                    && #[trigger] delivered(self.sinks_view(), rec, answers, r)
        }
    }

    /// Whether events at `level` pass the configured minimum level.
    pub open spec fn passes(&self, level: LogLevel) -> bool {
        weight(level) >= weight(self.config_view().level_view())
    }

    /// Filtering is monotone in severity: a logger that passes a level passes
    /// every more severe one, and the order of severity is trace, debug, info,
    /// warn, error.
    pub proof fn law_enabled_monotone(&self, a: LogLevel, b: LogLevel)
        requires
            self.passes(a),
            weight(b) >= weight(a),
        ensures
            self.passes(b),
    {
    }

    /// Creates a logger for component `naina` without sinks.
    pub fn new(config: LoggerConfig) -> (r: Result<Logger, LogError>)
        ensures
            r matches Ok(l) && l.config_view() == config && l.component_view() == "naina"@
                && l.sinks_view() == Seq::<Box<dyn LogSink>>::empty(),
    {
        let l = Logger { config, component: owned("naina"), sinks: Vec::new() };
        assert(l.sinks_view() =~= Seq::<Box<dyn LogSink>>::empty());
        Ok(l)
    }

    /// Returns the configuration.
    pub fn config(&self) -> (c: LoggerConfig)
        ensures
            c == self.config_view(),
    {
        self.config
    }

    /// Replaces the component stamped on records.
    pub fn with_component(self, component: &str) -> (l: Logger)
        ensures
            l.component_view() == component@,
            l.config_view() == self.config_view(),
            l.sinks_view() == self.sinks_view(),
    {
        Logger { component: owned(component), ..self }
    }

    /// Registers `sink` after the existing ones, which are kept in order.
    pub fn with_sink(self, sink: Box<dyn LogSink>) -> (l: Logger)
        ensures
            l.component_view() == self.component_view(),
            l.config_view() == self.config_view(),
            l.sink_count() == self.sink_count() + 1,
            l.sinks_view().drop_last() == self.sinks_view(),
            l.sinks_view().last() == sink,
    {
        let ghost given = sink;
        let slot = SinkSlot::new(sink);
        let mut sinks = self.sinks;
        sinks.push(slot);
        let l = Logger { config: self.config, component: self.component, sinks };
        assert(l.sinks@[l.sinks@.len() - 1].sink == given);
        assert(l.sinks_view().drop_last() =~= self.sinks_view());
        l
    }

    /// Whether events at `level` are logged.
    pub fn enabled(&self, level: LogLevel) -> (r: bool)
        ensures
            r == self.passes(level),
    {
        level_weight(level) >= level_weight(self.config.level())
    }

    /// The record that an event at `level` with `message` becomes: none when the
    /// level is filtered out, else one stamped now with the component, the
    /// level, the message and no fields.
    pub fn prepare(&self, level: LogLevel, message: &str) -> (r: Option<LogRecord>)
        ensures
            !self.passes(level) ==> r is None,
            self.passes(level) ==> (r matches Some(rec) && rec.level_view() == level
                && rec.target_view() == self.component_view() && rec.message_view() == message@
                && rec.fields_view() is None),
    {
        if !self.enabled(level) {
            return None;
        }
        Some(LogRecord::new(self.component.as_str(), level, message))
    }

    /// Hands `record` to every sink in registration order, stopping at the first
    /// failure, whose error is returned.
    fn dispatch(&self, record: &LogRecord) -> (r: Result<(), LogError>)
        ensures
            exists|answers: Seq<Result<(), LogError>>| delivered(self.sinks_view(), *record, answers, r),
    {
        let ghost sv = self.sinks_view();
        let ghost mut answers: Seq<Result<(), LogError>> = Seq::empty();
        let mut i: usize = 0;
        while i < self.sinks.len()
            invariant
                i <= self.sinks@.len(),
                sv == self.sinks_view(),
                sv.len() == self.sinks@.len(),
                answers.len() == i,
                forall|k: int| 0 <= k < answers.len() ==> #[trigger] answers[k] is Ok,
                forall|k: int| 0 <= k < answers.len() ==> #[trigger] sv[k].accepts(*record, answers[k]),
            decreases self.sinks@.len() - i,
        {
            assert(sv[i as int] == self.sinks@[i as int].sink);
            let res = self.sinks[i].sink.write(record);
            proof {
                answers = answers.push(res);
            }
            match res {
                Ok(_) => {},
                Err(e) => {
                    assert(delivered(sv, *record, answers, Err(e)));
                    return Err(e);
                },
            }
            i = i + 1;
        }
        assert(delivered(sv, *record, answers, Ok(())));
        Ok(())
    }

    /// Logs `message` at `level`: a level below the minimum is dropped (and
    /// answers `Ok`); otherwise the record [`Logger::prepare`] describes goes to
    /// every sink in order until one fails, whose error is returned.
    pub fn log(&self, level: LogLevel, message: &str) -> (r: Result<(), LogError>)
        ensures
            self.logged(level, message@, None, r),
    {
        match self.prepare(level, message) {
            None => Ok(()),
            Some(record) => {
                let r = self.dispatch(&record);
                proof {
                    let a = choose|a: Seq<Result<(), LogError>>| delivered(self.sinks_view(), record, a, r);
                    assert(delivered(self.sinks_view(), record, a, r));
                }
                r
            },
        }
    }

    /// Logs `message` with structured `fields` at `level`, like [`Logger::log`];
    /// the record carries `fields`.
    pub fn log_with_fields(&self, level: LogLevel, message: &str, fields: LogFields) -> (r: Result<
        (),
        LogError,
    >)
        ensures
            self.logged(level, message@, Some(fields), r),
    {
        match self.prepare(level, message) {
            None => Ok(()),
            Some(record) => {
                let record = record.with_fields(fields);
                let r = self.dispatch(&record);
                proof {
                    let a = choose|a: Seq<Result<(), LogError>>| delivered(self.sinks_view(), record, a, r);
                    assert(delivered(self.sinks_view(), record, a, r));
                }
                r
            },
        }
    }

    /// Logs a trace-level message.
    pub fn trace(&self, message: &str) -> (r: Result<(), LogError>)
        ensures
            self.logged(LogLevel::Trace, message@, None, r),
    {
        self.log(LogLevel::Trace, message)
    }

    /// Logs a debug-level message.
    pub fn debug(&self, message: &str) -> (r: Result<(), LogError>)
        ensures
            self.logged(LogLevel::Debug, message@, None, r),
    {
        self.log(LogLevel::Debug, message)
    }

    /// Logs a info-level message.
    pub fn info(&self, message: &str) -> (r: Result<(), LogError>)
        ensures
            self.logged(LogLevel::Info, message@, None, r),
    {
        self.log(LogLevel::Info, message)
    }

    /// Logs a warn-level message.
    pub fn warn(&self, message: &str) -> (r: Result<(), LogError>)
        ensures
            self.logged(LogLevel::Warn, message@, None, r),
    {
        self.log(LogLevel::Warn, message)
    }

    /// Logs a error-level message.
    pub fn error(&self, message: &str) -> (r: Result<(), LogError>)
        ensures
            self.logged(LogLevel::Error, message@, None, r),
    {
        self.log(LogLevel::Error, message)
    }
}

} // verus!
