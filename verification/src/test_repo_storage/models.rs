//! Definitions of tests, as test repositories store them.

use crate::json::Json;
use crate::ordered::OrderedMap;
use crate::text::{
    ascii_lower, chars_of, debug_text, decimal, is_ascii_text, is_digit, lemma_decimal, lowercase,
    parse_u32, parse_unsigned, str_debug, str_equal, to_lowercase, u32_parse_error, u64_text,
};
use vstd::prelude::*;
use vstd::string::*;

verus! {

/// What `chrono` makes of a text as an RFC 3339 time: its nanoseconds since the epoch,
/// where 64 bits hold them, or the message of the error.
pub uninterp spec fn rfc3339_nanos(text: Seq<char>) -> Result<Option<i64>, Seq<char>>;

/// `chrono::DateTime::parse_from_rfc3339`, with the time as what `timestamp_nanos_opt`
/// gives of it and an error as its message. The result depends on the text alone.
#[verifier::external_body]
fn parse_rfc3339(text: &str) -> (r: Result<Option<i64>, String>)
    ensures
        match r {
            Ok(nanos) => rfc3339_nanos(text@) == Ok::<Option<i64>, Seq<char>>(nanos),
            Err(error) => rfc3339_nanos(text@) == Err::<Option<i64>, Seq<char>>(error@),
        },
{
    chrono::DateTime::parse_from_rfc3339(text)
        .map(|time| time.timestamp_nanos_opt())
        .map_err(|error| error.to_string())
}

/// The RFC 3339 text, in UTC, of a time in nanoseconds since the epoch.
pub uninterp spec fn rfc3339_text(nanos: i64) -> Seq<char>;

/// `DateTime::<Utc>::from_timestamp_nanos` and `to_rfc3339`. The text is ASCII, starts with
/// a digit of the year, and is read back as the same time.
#[verifier::external_body]
fn print_rfc3339(nanos: i64) -> (r: String)
    ensures
        r@ == rfc3339_text(nanos),
        rfc3339_nanos(r@) is Ok && rfc3339_nanos(r@)->Ok_0 == Some(nanos),
        is_ascii_text(r@),
        r@.len() > 0,
        is_digit(r@[0]),
{
    chrono::DateTime::<chrono::Utc>::from_timestamp_nanos(nanos).to_rfc3339()
}

/// The bits of a signed number read as an unsigned one.
pub open spec fn unsigned_bits(n: i64) -> u64 {
    if n >= 0 {
        n as u64
    } else {
        (n + 0x1_0000_0000_0000_0000) as u64
    }
}

/// The bits of an unsigned number read as a signed one.
pub open spec fn signed_bits(n: u64) -> i64 {
    if n <= i64::MAX {
        n as i64
    } else {
        (n - 0x1_0000_0000_0000_0000) as i64
    }
}

/// The bits of a signed number read as an unsigned one.
pub fn to_unsigned_bits(n: i64) -> (r: u64)
    ensures
        r == unsigned_bits(n),
{
    if n >= 0 {
        n as u64
    } else {
        u64::MAX - ((-(n + 1)) as u64)
    }
}

/// The bits of an unsigned number read as a signed one.
pub fn to_signed_bits(n: u64) -> (r: i64)
    ensures
        r == signed_bits(n),
{
    if n <= i64::MAX as u64 {
        n as i64
    } else {
        -((u64::MAX - n) as i64) - 1
    }
}

/// When the events of a source happen.
#[derive(Debug, Clone, Copy, PartialEq, Eq, Structural)]
pub enum TimeMode {
    /// Now.
    Live,
    /// When they were recorded.
    Recorded,
    /// From a given time on, in nanoseconds since the epoch.
    Rebased(u64),
}

impl Default for TimeMode {
    fn default() -> (r: TimeMode)
        ensures
            r == TimeMode::Recorded,
    {
        TimeMode::Recorded
    }
}

/// The time mode that a text names, given its lower-case form and what it is as an RFC 3339
/// time.
pub open spec fn time_mode_of(
    text: Seq<char>,
    lower: Seq<char>,
    time: Result<Option<i64>, Seq<char>>,
) -> Result<TimeMode, Seq<char>> {
    if lower == "live"@ {
        Ok(TimeMode::Live)
    } else if lower == "recorded"@ {
        Ok(TimeMode::Recorded)
    } else {
        match time {
            Ok(Some(nanos)) => Ok(TimeMode::Rebased(unsigned_bits(nanos))),
            Ok(None) => arbitrary(),
            Err(error) => Err(
                "Error parsing TimeMode - value:"@ + text + ", error:"@ + error,
            ),
        }
    }
}

/// A text that is no name of a mode but a time outside the range of 64 bits.
pub open spec fn time_out_of_range(
    lower: Seq<char>,
    time: Result<Option<i64>, Seq<char>>,
) -> bool {
    lower != "live"@ && lower != "recorded"@ && time == Ok::<Option<i64>, Seq<char>>(None)
}

/// A time mode against its specification.
pub open spec fn time_mode_matches(
    r: Result<TimeMode, String>,
    expected: Result<TimeMode, Seq<char>>,
) -> bool {
    match r {
        Ok(mode) => expected == Ok::<TimeMode, Seq<char>>(mode),
        Err(error) => expected == Err::<TimeMode, Seq<char>>(error@),
    }
}

/// An outcome with its error message as text.
pub open spec fn time_result_view(r: Result<Option<i64>, String>) -> Result<Option<i64>, Seq<char>> {
    match r {
        Ok(nanos) => Ok(nanos),
        Err(error) => Err(error@),
    }
}

impl TimeMode {
    /// The time mode that a text names: `live` or `recorded` in any case, or an RFC 3339
    /// time.
    pub fn from_str(s: &str) -> (r: Result<TimeMode, String>)
        requires
            !time_out_of_range(lowercase(s@), rfc3339_nanos(s@)),
        ensures
            time_mode_matches(r, time_mode_of(s@, lowercase(s@), rfc3339_nanos(s@))),
    {
        let lower = to_lowercase(s);
        let time = parse_rfc3339(s);
        TimeMode::from_parsed(s, lower.as_str(), time)
    }

    /// The time mode that a text names, or none where the text is a time whose nanoseconds
    /// 64 bits do not hold.
    pub fn from_str_in_range(s: &str) -> (r: Option<Result<TimeMode, String>>)
        ensures
            r is None == time_out_of_range(lowercase(s@), rfc3339_nanos(s@)),
            r matches Some(outcome) ==> time_mode_matches(
                outcome,
                time_mode_of(s@, lowercase(s@), rfc3339_nanos(s@)),
            ),
    {
        let lower = to_lowercase(s);
        let named = str_equal(lower.as_str(), "live") || str_equal(lower.as_str(), "recorded");
        match parse_rfc3339(s) {
            Ok(None) => {
                if !named {
                    return None;
                }
            },
            _ => {},
        }
        Some(TimeMode::from_str(s))
    }

    /// The time mode that a text names, given its lower-case form and what it is as a time.
    pub fn from_parsed(s: &str, lower: &str, time: Result<Option<i64>, String>) -> (r: Result<
        TimeMode,
        String,
    >)
        requires
            !time_out_of_range(lower@, time_result_view(time)),
        ensures
            time_mode_matches(r, time_mode_of(s@, lower@, time_result_view(time))),
    {
        if str_equal(lower, "live") {
            return Ok(TimeMode::Live);
        }
        if str_equal(lower, "recorded") {
            return Ok(TimeMode::Recorded);
        }
        match time {
            Ok(Some(nanos)) => Ok(TimeMode::Rebased(to_unsigned_bits(nanos))),
            Ok(None) => Ok(TimeMode::Recorded),
            Err(error) => {
                let mut message = "Error parsing TimeMode - value:".to_owned();
                message.append(s);
                message.append(", error:");
                message.append(error.as_str());
                Err(message)
            },
        }
    }

    /// The mode as text; a time as its nanoseconds.
    pub fn text(&self) -> (r: String)
        ensures
            r@ == (match *self {
                TimeMode::Live => "live"@,
                TimeMode::Recorded => "recorded"@,
                TimeMode::Rebased(time) => decimal(time as nat),
            }),
    {
        match self {
            TimeMode::Live => "live".to_owned(),
            TimeMode::Recorded => "recorded".to_owned(),
            TimeMode::Rebased(time) => u64_text(*time),
        }
    }

    /// The mode as it is stored; a time as RFC 3339. A stored mode is read back as itself.
    pub fn stored_text(&self) -> (r: String)
        ensures
            r@ == stored_time_mode(*self),
            !time_out_of_range(lowercase(r@), rfc3339_nanos(r@)),
            time_mode_of(r@, lowercase(r@), rfc3339_nanos(r@)) == Ok::<TimeMode, Seq<char>>(*self),
    {
        match self {
            TimeMode::Live => {
                let r = "live".to_owned();
                let lower = to_lowercase(r.as_str());
                proof {
                    reveal_strlit("live");
                    assert(is_ascii_text(r@));
                    assert(lower@ =~= "live"@);
                }
                r
            },
            TimeMode::Recorded => {
                let r = "recorded".to_owned();
                let lower = to_lowercase(r.as_str());
                proof {
                    reveal_strlit("recorded");
                    reveal_strlit("live");
                    assert(is_ascii_text(r@));
                    assert(lower@ =~= "recorded"@);
                    assert("live"@.len() != "recorded"@.len());
                }
                r
            },
            TimeMode::Rebased(time) => {
                let r = print_rfc3339(to_signed_bits(*time));
                let lower = to_lowercase(r.as_str());
                proof {
                    reveal_strlit("live");
                    reveal_strlit("recorded");
                    assert(lower@[0] == r@[0]);
                    assert("live"@[0] == 'l');
                    assert("recorded"@[0] == 'r');
                }
                r
            },
        }
    }
}

/// A time mode as it is stored.
pub open spec fn stored_time_mode(mode: TimeMode) -> Seq<char> {
    match mode {
        TimeMode::Live => "live"@,
        TimeMode::Recorded => "recorded"@,
        TimeMode::Rebased(time) => rfc3339_text(signed_bits(time)),
    }
}

/// How far apart the events of a source are.
#[derive(Debug, Clone, Copy, PartialEq, Eq, Structural)]
pub enum SpacingMode {
    /// No pause between them.
    Unspaced,
    /// So many per second; never zero.
    Rate(u32),
    /// As they were recorded.
    Recorded,
}

impl Default for SpacingMode {
    fn default() -> (r: SpacingMode)
        ensures
            r == SpacingMode::Recorded,
    {
        SpacingMode::Recorded
    }
}

/// The spacing mode that a text names, given its lower-case form.
pub open spec fn spacing_mode_of(text: Seq<char>, lower: Seq<char>) -> Result<SpacingMode, Seq<char>> {
    if lower == "none"@ {
        Ok(SpacingMode::Unspaced)
    } else if lower == "recorded"@ {
        Ok(SpacingMode::Recorded)
    } else {
        match parse_unsigned(text, u32::MAX as nat) {
            Some(rate) => if rate > 0 {
                Ok(SpacingMode::Rate(rate as u32))
            } else {
                Err("Invalid SpacingMode: "@ + text)
            },
            None => Err("Error parsing SpacingMode: "@ + u32_parse_error(text)),
        }
    }
}

/// The text of a spacing mode.
pub open spec fn spacing_mode_text(mode: SpacingMode) -> Seq<char> {
    match mode {
        SpacingMode::Unspaced => "none"@,
        SpacingMode::Recorded => "recorded"@,
        SpacingMode::Rate(rate) => decimal(rate as nat),
    }
}

impl SpacingMode {
    /// A rate is not zero.
    pub open spec fn wf(self) -> bool {
        self matches SpacingMode::Rate(rate) ==> rate > 0
    }

    /// The spacing mode that a text names: `none` or `recorded` in any case, or a rate
    /// above zero.
    pub fn from_str(s: &str) -> (r: Result<SpacingMode, String>)
        ensures
            match r {
                Ok(mode) => mode.wf() && spacing_mode_of(s@, lowercase(s@)) == Ok::<
                    SpacingMode,
                    Seq<char>,
                >(mode),
                Err(error) => spacing_mode_of(s@, lowercase(s@)) == Err::<SpacingMode, Seq<char>>(
                    error@,
                ),
            },
    {
        let lower = to_lowercase(s);
        SpacingMode::from_lowercase(s, lower.as_str())
    }

    /// The spacing mode that a text names, given its lower-case form.
    pub fn from_lowercase(s: &str, lower: &str) -> (r: Result<SpacingMode, String>)
        ensures
            match r {
                Ok(mode) => mode.wf() && spacing_mode_of(s@, lower@) == Ok::<SpacingMode, Seq<char>>(
                    mode,
                ),
                Err(error) => spacing_mode_of(s@, lower@) == Err::<SpacingMode, Seq<char>>(error@),
            },
    {
        if str_equal(lower, "none") {
            return Ok(SpacingMode::Unspaced);
        }
        if str_equal(lower, "recorded") {
            return Ok(SpacingMode::Recorded);
        }
        match parse_u32(s) {
            Ok(rate) => if rate > 0 {
                Ok(SpacingMode::Rate(rate))
            } else {
                let mut message = "Invalid SpacingMode: ".to_owned();
                message.append(s);
                Err(message)
            },
            Err(error) => {
                let mut message = "Error parsing SpacingMode: ".to_owned();
                message.append(error.as_str());
                Err(message)
            },
        }
    }

    /// The mode as text, as it is also stored.
    pub fn text(&self) -> (r: String)
        ensures
            r@ == spacing_mode_text(*self),
    {
        match self {
            SpacingMode::Unspaced => "none".to_owned(),
            SpacingMode::Recorded => "recorded".to_owned(),
            SpacingMode::Rate(rate) => u64_text(*rate as u64),
        }
    }
}

/// The text of a spacing mode is read back as that mode.
pub proof fn lemma_spacing_mode_round_trip(mode: SpacingMode)
    requires
        mode.wf(),
    ensures
        is_ascii_text(spacing_mode_text(mode)),
        spacing_mode_of(spacing_mode_text(mode), ascii_lower(spacing_mode_text(mode))) == Ok::<
            SpacingMode,
            Seq<char>,
        >(mode),
{
    reveal_strlit("none");
    reveal_strlit("recorded");
    match mode {
        SpacingMode::Unspaced => {
            assert(ascii_lower("none"@) =~= "none"@);
        },
        SpacingMode::Recorded => {
            assert(ascii_lower("recorded"@) =~= "recorded"@);
            assert("none"@.len() != "recorded"@.len());
        },
        SpacingMode::Rate(rate) => {
            lemma_decimal(rate as nat);
            let s = decimal(rate as nat);
            assert(is_digit(s[0]));
            assert(ascii_lower(s)[0] == s[0]);
            assert("none"@[0] == 'n');
            assert("recorded"@[0] == 'r');
        },
    }
}

/// A floating-point value, held by its IEEE 754 bits.
#[derive(Debug, Clone, Copy, PartialEq, Eq, Structural)]
pub struct FloatBits {
    pub bits: u64,
}

/// A test that a repository's configuration defines in place.
#[derive(Debug, Clone)]
pub struct LocalTestDefinition {
    pub test_id: String,
    pub version: u32,
    pub description: Option<String>,
    pub test_folder: Option<String>,
    pub drasi_lib_instances: Vec<TestDrasiLibInstanceDefinition>,
    pub queries: Vec<TestQueryDefinition>,
    pub reactions: Vec<TestReactionDefinition>,
    pub sources: Vec<TestSourceDefinition>,
    /// Completion handlers that execute when all components finish
    pub completion_handlers: Vec<CompletionHandlerDefinition>,
}

/// A test as a repository stores it.
#[derive(Debug, Clone)]
pub struct TestDefinition {
    pub test_id: String,
    pub version: u32,
    pub description: Option<String>,
    pub test_folder: Option<String>,
    pub drasi_lib_instances: Vec<TestDrasiLibInstanceDefinition>,
    pub queries: Vec<TestQueryDefinition>,
    pub reactions: Vec<TestReactionDefinition>,
    pub sources: Vec<TestSourceDefinition>,
    /// Completion handlers that execute when all components finish
    /// These define what happens when the test completes (logging, uploads, etc.)
    pub completion_handlers: Vec<CompletionHandlerDefinition>,
}

/// Definition of a completion handler
///
/// Completion handlers execute when all test components (sources, queries, reactions) finish.
/// They are intrinsic to the test definition and define what happens on completion.
#[derive(Debug, Clone)]
pub enum CompletionHandlerDefinition {
    /// Log completion summary to configured log level
    Log(LogHandlerConfig),
    /// Compare each reaction's ordered-stream SHA-256 or final materialized
    /// state to a stored baseline.
    Sha256Determinism(Sha256DeterminismHandlerConfig),
}

/// Configuration for LogCompletionHandler
#[derive(Debug, Clone)]
pub struct LogHandlerConfig {
    /// Log level: "debug", "info", "warn", or "error"
    /// Defaults to "info" if not specified
    pub log_level: Option<String>,
}

/// Configuration for ordered-stream or final-state SHA-256 verification.
#[derive(Debug, Clone)]
pub struct Sha256DeterminismHandlerConfig {
    /// Map of `test_reaction_id` -> expected SHA-256 (hex). Reactions absent
    /// from this map are treated according to `missing_baseline`.
    pub expected: OrderedMap<String, String>,
    /// Behaviour when an ordered baseline or final-state golden is missing.
    pub missing_baseline: MissingBaselinePolicy,
    /// Path to a versioned final-state golden manifest, relative to the test's
    /// data folder. When set, final-state logger output is compared row by row.
    pub golden_file: Option<String>,
    /// Maximum number of missing and unexpected rows included per reaction in
    /// the verdict. Complete actual state is written to a separate candidate.
    pub diagnostic_limit: usize,
}

/// What to do when a reaction has no entry in `expected`.
#[derive(Clone, Copy, Debug, PartialEq, Eq, Structural)]
pub enum MissingBaselinePolicy {
    /// Log the actual SHA-256 and treat the reaction as passing. Useful for
    /// capturing a fresh baseline on the first run of a new test.
    Warn,
    /// Treat a missing baseline as a verification failure.
    Fail,
}

/// A source of a test.
#[derive(Debug, Clone)]
pub enum TestSourceDefinition {
    Model(ModelTestSourceDefinition),
    Script(ScriptTestSourceDefinition),
}

/// What every source has.
#[derive(Debug, Clone)]
pub struct CommonTestSourceDefinition {
    pub test_source_id: String,
    pub source_change_dispatchers: Vec<SourceChangeDispatcherDefinition>,
    pub subscribers: Vec<QueryId>,
}

/// A source whose data come from scripts.
#[derive(Debug, Clone)]
pub struct ScriptTestSourceDefinition {
    pub bootstrap_data_generator: Option<BootstrapDataGeneratorDefinition>,
    pub common: CommonTestSourceDefinition,
    pub source_change_generator: Option<SourceChangeGeneratorDefinition>,
}

/// A source whose data come from a model.
#[derive(Debug, Clone)]
pub struct ModelTestSourceDefinition {
    pub common: CommonTestSourceDefinition,
    pub model_data_generator: Option<ModelDataGeneratorDefinition>,
}

/// Where a source's initial data come from.
#[derive(Debug, Clone)]
pub enum BootstrapDataGeneratorDefinition {
    Script(ScriptBootstrapDataGeneratorDefinition),
}

/// What every generator of initial data has.
#[derive(Debug, Clone)]
pub struct CommonBootstrapDataGeneratorDefinition {
    pub time_mode: TimeMode,
}

/// Initial data from scripts.
#[derive(Debug, Clone)]
pub struct ScriptBootstrapDataGeneratorDefinition {
    pub common: CommonBootstrapDataGeneratorDefinition,
    pub script_file_folder: String,
}

/// The model that a source's data come from.
#[derive(Debug, Clone)]
pub enum ModelDataGeneratorDefinition {
    BuildingHierarchy(BuildingHierarchyDataGeneratorDefinition),
    StockTrade(StockTradeDataGeneratorDefinition),
}

/// What every model has.
#[derive(Debug, Clone)]
pub struct CommonModelDataGeneratorDefinition {
    pub change_count: Option<u64>,
    pub change_interval: Option<(u64, FloatBits, u64, u64)>,
    pub seed: Option<u64>,
    pub spacing_mode: SpacingMode,
    pub time_mode: TimeMode,
}

/// Buildings with floors, rooms and sensors.
#[derive(Debug, Clone)]
pub struct BuildingHierarchyDataGeneratorDefinition {
    pub common: CommonModelDataGeneratorDefinition,
    pub building_count: Option<(u32, FloatBits)>,
    pub floor_count: Option<(u32, FloatBits)>,
    pub room_count: Option<(u32, FloatBits)>,
    pub room_sensors: Vec<SensorDefinition>,
    pub send_initial_inserts: bool,
}

/// Stocks that are traded.
#[derive(Debug, Clone)]
pub struct StockTradeDataGeneratorDefinition {
    pub common: CommonModelDataGeneratorDefinition,
    pub stock_definitions: Vec<StockDefinition>,
    pub price_init: Option<(FloatBits, FloatBits)>,
    pub price_change: Option<(FloatBits, FloatBits)>,
    pub price_momentum: Option<(i32, FloatBits, FloatBits)>,
    pub price_range: Option<(FloatBits, FloatBits)>,
    pub volume_init: Option<(i64, FloatBits)>,
    pub volume_change: Option<(i64, FloatBits)>,
    pub volume_momentum: Option<(i32, FloatBits, FloatBits)>,
    pub volume_range: Option<(i64, i64)>,
    pub send_initial_inserts: bool,
}

/// A stock.
#[derive(Debug, Clone)]
pub struct StockDefinition {
    pub symbol: String,
    pub name: String,
}

/// A sensor of a room.
#[derive(Debug, Clone)]
pub enum SensorDefinition {
    NormalFloat(FloatNormalDistSensorDefinition),
    NormalInt(IntNormalDistSensorDefinition),
}

/// A sensor with normally distributed fractional values: means, deviations and bounds.
#[derive(Debug, Clone)]
pub struct FloatNormalDistSensorDefinition {
    pub id: String,
    pub momentum_init: Option<(i32, FloatBits, FloatBits)>,
    pub value_change: Option<(FloatBits, FloatBits)>,
    pub value_init: Option<(FloatBits, FloatBits)>,
    pub value_range: Option<(FloatBits, FloatBits)>,
}

/// A sensor with normally distributed integral values: means, deviations and bounds.
#[derive(Debug, Clone)]
pub struct IntNormalDistSensorDefinition {
    pub id: String,
    pub momentum_init: Option<(i32, FloatBits, FloatBits)>,
    pub value_change: Option<(i64, FloatBits)>,
    pub value_init: Option<(i64, FloatBits)>,
    pub value_range: Option<(i64, i64)>,
}

/// Where a source's changes come from.
#[derive(Debug, Clone)]
pub enum SourceChangeGeneratorDefinition {
    Script(ScriptSourceChangeGeneratorDefinition),
}
/// What every generator of changes has.
#[derive(Debug, Clone)]
pub struct CommonSourceChangeGeneratorDefinition {
    pub spacing_mode: SpacingMode,
    pub time_mode: TimeMode,
}

/// Changes from scripts.
#[derive(Debug, Clone)]
pub struct ScriptSourceChangeGeneratorDefinition {
    pub common: CommonSourceChangeGeneratorDefinition,
    pub ignore_scripted_pause_commands: bool,
    pub script_file_folder: String,
}
/// Where a source's changes go.
#[derive(Debug, Clone)]
pub enum SourceChangeDispatcherDefinition {
    Console(ConsoleSourceChangeDispatcherDefinition),
    Dapr(DaprSourceChangeDispatcherDefinition),
    Http(HttpSourceChangeDispatcherDefinition),
    Grpc(GrpcSourceChangeDispatcherDefinition),
    JsonlFile(JsonlFileSourceChangeDispatcherDefinition),
    RedisStream(RedisStreamSourceChangeDispatcherDefinition),
    DrasiLibInstanceChannel(DrasiLibInstanceChannelSourceChangeDispatcherDefinition),
}

/// Changes to the console.
#[derive(Debug, Clone)]
pub struct ConsoleSourceChangeDispatcherDefinition {
    pub date_time_format: Option<String>,
}

/// Changes to a Dapr topic.
#[derive(Debug, Clone)]
pub struct DaprSourceChangeDispatcherDefinition {
    pub host: Option<String>,
    pub port: Option<u16>,
    pub pubsub_name: Option<String>,
    pub pubsub_topic: Option<String>,
}

/// Changes to files of JSON lines.
#[derive(Debug, Clone)]
pub struct JsonlFileSourceChangeDispatcherDefinition {
    pub max_events_per_file: Option<u64>,
}

/// Changes to a Redis stream.
#[derive(Debug, Clone)]
pub struct RedisStreamSourceChangeDispatcherDefinition {
    pub host: Option<String>,
    pub port: Option<u16>,
    pub stream_name: Option<String>,
}

/// Changes to an HTTP endpoint, batched adaptively or not.
#[derive(Debug, Clone)]
pub struct HttpSourceChangeDispatcherDefinition {
    pub url: String,
    pub port: u16,
    pub endpoint: Option<String>,
    pub timeout_seconds: Option<u64>,
    pub batch_events: Option<bool>,
    pub source_id: Option<String>,

    pub adaptive_enabled: Option<bool>,
    pub batch_size: Option<u64>,
    pub batch_timeout_ms: Option<u64>,
}

/// Changes to a gRPC endpoint, batched adaptively or not.
#[derive(Debug, Clone)]
pub struct GrpcSourceChangeDispatcherDefinition {
    pub host: String,
    pub port: u16,
    pub timeout_seconds: Option<u64>,
    pub batch_events: Option<bool>,
    pub tls: Option<bool>,
    pub source_id: String,

    pub adaptive_enabled: Option<bool>,
    pub batch_size: Option<u64>,
    pub batch_timeout_ms: Option<u64>,
}

/// Changes to an embedded instance.
#[derive(Debug, Clone)]
pub struct DrasiLibInstanceChannelSourceChangeDispatcherDefinition {
    pub drasi_lib_instance_id: String,
    pub source_id: String,
    pub buffer_size: Option<usize>,
}

/// A query of a test.
#[derive(Debug, Clone)]
pub struct TestQueryDefinition {
    pub test_query_id: String,
    pub stop_trigger: Option<StopTriggerDefinition>,
}

/// A reaction of a test.
#[derive(Debug, Clone)]
pub struct TestReactionDefinition {
    pub test_reaction_id: String,
    pub output_handler: Option<ReactionHandlerDefinition>,
    pub stop_triggers: Option<Vec<StopTriggerDefinition>>,
}

/// Where a query's results are read.
#[derive(Debug, Clone)]
pub enum ResultStreamHandlerDefinition {
    DaprPubSub(DaprPubSubResultStreamHandlerDefinition),
    RedisStream(RedisStreamResultStreamHandlerDefinition),
}

/// Results from a Dapr topic.
#[derive(Debug, Clone)]
pub struct DaprPubSubResultStreamHandlerDefinition {
    pub host: Option<String>,
    pub port: Option<u16>,
    pub pubsub_name: Option<String>,
    pub pubsub_topic: Option<String>,
}

/// Results from a Redis stream.
#[derive(Debug, Clone)]
pub struct RedisStreamResultStreamHandlerDefinition {
    pub host: Option<String>,
    pub port: Option<u16>,
    pub stream_name: Option<String>,
    pub process_old_entries: Option<bool>,
}

/// When a component has seen enough.
#[derive(Debug, Clone)]
pub enum StopTriggerDefinition {
    RecordSequenceNumber(RecordSequenceNumberStopTriggerDefinition),
    RecordCount(RecordCountStopTriggerDefinition),
}

/// At a record's sequence number.
#[derive(Debug, Clone)]
pub struct RecordSequenceNumberStopTriggerDefinition {
    pub record_sequence_number: i64,
}

/// After a number of records.
#[derive(Debug, Clone)]
pub struct RecordCountStopTriggerDefinition {
    pub record_count: u64,
}

/// How a reaction's output is received.
#[derive(Debug, Clone)]
pub enum ReactionHandlerDefinition {
    Http(HttpReactionHandlerDefinition),
    EventGrid(EventGridReactionHandlerDefinition),
    Grpc(GrpcReactionHandlerDefinition),
    DrasiLibInstanceCallback(DrasiLibInstanceCallbackReactionHandlerDefinition),
    DrasiLibInstanceChannel(DrasiLibInstanceChannelReactionHandlerDefinition),
}

/// Output by HTTP.
#[derive(Debug, Clone)]
pub struct HttpReactionHandlerDefinition {
    pub host: Option<String>,
    pub port: Option<u16>,
    pub path: Option<String>,
    pub correlation_header: Option<String>,
}

/// Output by Event Grid.
#[derive(Debug, Clone)]
pub struct EventGridReactionHandlerDefinition {
    pub endpoint: Option<String>,
    pub access_key: Option<String>,
}

/// Output by gRPC of the queries subscribed to, with their initial state or without.
#[derive(Debug, Clone)]
pub struct GrpcReactionHandlerDefinition {
    pub host: Option<String>,
    pub port: Option<u16>,
    pub correlation_metadata_key: Option<String>,
    pub query_ids: Vec<String>,
    pub include_initial_state: Option<bool>,
}

/// Output by a callback of an embedded instance.
#[derive(Debug, Clone)]
pub struct DrasiLibInstanceCallbackReactionHandlerDefinition {
    pub drasi_lib_instance_id: String,
    pub reaction_id: String,
    pub callback_type: Option<String>,
}

/// Output by a channel of an embedded instance.
#[derive(Debug, Clone)]
pub struct DrasiLibInstanceChannelReactionHandlerDefinition {
    pub drasi_lib_instance_id: String,
    pub reaction_id: String,
    pub buffer_size: Option<usize>,
}

/// Where output is logged.
#[derive(Debug, Clone)]
pub enum OutputLoggerDefinition {
    Console(ConsoleOutputLoggerDefinition),
    JsonlFile(JsonlFileOutputLoggerDefinition),
}

/// Output to the console.
#[derive(Debug, Clone)]
pub struct ConsoleOutputLoggerDefinition {
    pub date_time_format: Option<String>,
}

/// Output to files of JSON lines.
#[derive(Debug, Clone)]
pub struct JsonlFileOutputLoggerDefinition {
    pub max_lines_per_file: Option<u64>,
}

/// A query on a node.
#[derive(Debug, Clone, PartialEq, Eq)]
pub struct QueryId {
    pub node_id: String,
    pub query_id: String,
}
/// Why a text names no query.
#[derive(Debug, Clone)]
pub enum ParseQueryIdError {
    InvalidFormat(String),
    InvalidValues(String),
}

/// Test definition for a drasi-lib instance stored in test repositories
#[derive(Debug, Clone)]
pub struct TestDrasiLibInstanceDefinition {
    /// Unique identifier for the drasi-lib instance.
    pub test_drasi_lib_instance_id: String,

    /// Human-readable name for the drasi-lib instance.
    pub name: Option<String>,

    /// Description of the drasi-lib instance's purpose in the test.
    pub description: Option<String>,

    /// drasi-lib instance configuration.
    pub config: DrasiLibInstanceConfig,
}

/// Runtime configuration for an embedded drasi-lib instance.
#[derive(Debug, Clone)]
pub struct DrasiLibInstanceConfig {
    /// Log level for the drasi-lib instance (trace, debug, info, warn, error).
    pub log_level: Option<String>,

    /// Source configurations.
    pub sources: Vec<DrasiLibSourceConfig>,

    /// Query configurations.
    pub queries: Vec<DrasiLibQueryConfig>,

    /// Reaction configurations.
    pub reactions: Vec<DrasiLibReactionConfig>,
}

/// Source configuration for an embedded drasi-lib instance.
#[derive(Debug, Clone)]
pub struct DrasiLibSourceConfig {
    /// Unique identifier for the source.
    pub id: String,

    /// Source kind, such as application.
    pub kind: String,

    /// Whether to automatically start this source.
    pub auto_start: bool,

    /// Kind-specific source configuration.
    pub config: Json,
}

/// Query configuration for an embedded drasi-lib instance.
#[derive(Debug, Clone)]
pub struct DrasiLibQueryConfig {
    /// Unique identifier for the query.
    pub id: String,

    /// Cypher query string.
    pub query: String,

    /// IDs of sources this query subscribes to.
    pub sources: Vec<String>,

    /// Whether to automatically start this query.
    pub auto_start: bool,

    /// Optional query-specific options.
    pub config: Json,
}

/// Reaction configuration for an embedded drasi-lib instance.
#[derive(Debug, Clone)]
pub struct DrasiLibReactionConfig {
    /// Unique identifier for the reaction.
    pub id: String,

    /// Reaction kind, such as application.
    pub kind: String,

    /// IDs of queries this reaction subscribes to.
    pub queries: Vec<String>,

    /// Whether to automatically start this reaction.
    pub auto_start: bool,

    /// Kind-specific reaction configuration.
    pub config: Json,
}

/// The default bound on the rows of each kind that a verdict shows.
pub fn default_diagnostic_limit() -> (r: usize)
    ensures
        r == 20,
{
    20
}

/// The default of a switch that is off.
pub fn is_false() -> (r: bool)
    ensures
        !r,
{
    false
}

/// The default of a switch that is on.
pub fn default_true() -> (r: bool)
    ensures
        r,
{
    true
}

/// The node of a query that names none.
pub fn default_query_node_id() -> (r: String)
    ensures
        r@ == "default"@,
{
    "default".to_owned()
}

/// The name of a query that has none.
pub fn default_query_id() -> (r: String)
    ensures
        r@ == "test_query"@,
{
    "test_query".to_owned()
}

impl Default for MissingBaselinePolicy {
    fn default() -> (r: MissingBaselinePolicy)
        ensures
            r == MissingBaselinePolicy::Warn,
    {
        MissingBaselinePolicy::Warn
    }
}

impl Default for Sha256DeterminismHandlerConfig {
    fn default() -> (r: Sha256DeterminismHandlerConfig)
        ensures
            r.expected.wf(),
            r.expected@ == Map::<Seq<char>, Seq<char>>::empty(),
            r.missing_baseline == MissingBaselinePolicy::Warn,
            r.golden_file is None,
            r.diagnostic_limit == 20,
    {
        Sha256DeterminismHandlerConfig {
            expected: OrderedMap::new(),
            missing_baseline: MissingBaselinePolicy::Warn,
            golden_file: None,
            diagnostic_limit: default_diagnostic_limit(),
        }
    }
}

/// The message that a component of a test is not defined.
pub open spec fn not_found_message(what: Seq<char>, id: Seq<char>) -> Seq<char> {
    what + debug_text(id) + " not found"@
}

fn not_found(what: &str, id: &str) -> (r: String)
    ensures
        r@ == not_found_message(what@, id@),
{
    let mut message = what.to_owned();
    message.append(str_debug(id).as_str());
    message.append(" not found");
    message
}

/// The name of a source.
pub open spec fn source_id_of(source: TestSourceDefinition) -> Seq<char> {
    match source {
        TestSourceDefinition::Model(def) => def.common.test_source_id@,
        TestSourceDefinition::Script(def) => def.common.test_source_id@,
    }
}

impl TestDefinition {
    /// The first query of that name.
    pub fn get_test_query(&self, query_id: &str) -> (r: Result<&TestQueryDefinition, String>)
        ensures
            match r {
                Ok(query) => exists|i: int|
                    #![trigger self.queries@[i]]
                    0 <= i < self.queries@.len() && *query == self.queries@[i]
                        && self.queries@[i].test_query_id@ == query_id@ && (forall|j: int|
                        0 <= j < i ==> (#[trigger] self.queries@[j]).test_query_id@ != query_id@),
                Err(error) => error@ == not_found_message("Test Query with ID "@, query_id@) && (
                forall|j: int|
                    0 <= j < self.queries@.len() ==> (#[trigger] self.queries@[j]).test_query_id@
                        != query_id@),
            },
    {
        let mut i: usize = 0;
        while i < self.queries.len()
            invariant
                0 <= i <= self.queries@.len(),
                forall|j: int|
                    0 <= j < i ==> (#[trigger] self.queries@[j]).test_query_id@ != query_id@,
            decreases self.queries@.len() - i,
        {
            if str_equal(self.queries[i].test_query_id.as_str(), query_id) {
                return Ok(&self.queries[i]);
            }
            i = i + 1;
        }
        Err(not_found("Test Query with ID ", query_id))
    }

    /// The first reaction of that name.
    pub fn get_test_reaction(&self, reaction_id: &str) -> (r: Result<
        &TestReactionDefinition,
        String,
    >)
        ensures
            match r {
                Ok(reaction) => exists|i: int|
                    #![trigger self.reactions@[i]]
                    0 <= i < self.reactions@.len() && *reaction == self.reactions@[i]
                        && self.reactions@[i].test_reaction_id@ == reaction_id@ && (forall|j: int|
                        0 <= j < i ==> (#[trigger] self.reactions@[j]).test_reaction_id@
                            != reaction_id@),
                Err(error) => error@ == not_found_message("Test Reaction with ID "@, reaction_id@)
                    && (forall|j: int|
                    0 <= j < self.reactions@.len() ==> (
                    #[trigger] self.reactions@[j]).test_reaction_id@ != reaction_id@),
            },
    {
        let mut i: usize = 0;
        while i < self.reactions.len()
            invariant
                0 <= i <= self.reactions@.len(),
                forall|j: int|
                    0 <= j < i ==> (#[trigger] self.reactions@[j]).test_reaction_id@ != reaction_id@,
            decreases self.reactions@.len() - i,
        {
            if str_equal(self.reactions[i].test_reaction_id.as_str(), reaction_id) {
                return Ok(&self.reactions[i]);
            }
            i = i + 1;
        }
        Err(not_found("Test Reaction with ID ", reaction_id))
    }

    /// The first reaction of that name, with its handler.
    pub fn get_reaction_handler(&self, reaction_id: &str) -> (r: Result<
        (&TestReactionDefinition, &ReactionHandlerDefinition),
        String,
    >)
        ensures
            match r {
                Ok((reaction, handler)) => exists|i: int|
                    #![trigger self.reactions@[i]]
                    0 <= i < self.reactions@.len() && *reaction == self.reactions@[i]
                        && self.reactions@[i].test_reaction_id@ == reaction_id@
                        && reaction.output_handler == Some(*handler) && (forall|j: int|
                        0 <= j < i ==> (#[trigger] self.reactions@[j]).test_reaction_id@
                            != reaction_id@),
                Err(error) => {
                    ||| error@ == not_found_message("Test Reaction with ID "@, reaction_id@) && (
                    forall|j: int|
                        0 <= j < self.reactions@.len() ==> (
                        #[trigger] self.reactions@[j]).test_reaction_id@ != reaction_id@)
                    ||| error@ == "No reaction handler defined for reaction "@ + reaction_id@ && (
                    exists|i: int|
                        #![trigger self.reactions@[i]]
                        0 <= i < self.reactions@.len() && self.reactions@[i].test_reaction_id@
                            == reaction_id@ && self.reactions@[i].output_handler is None && (forall|
                            j: int,
                        |
                            0 <= j < i ==> (#[trigger] self.reactions@[j]).test_reaction_id@
                                != reaction_id@))
                },
            },
    {
        match self.get_test_reaction(reaction_id) {
            Ok(reaction) => match &reaction.output_handler {
                Some(handler) => Ok((reaction, handler)),
                None => {
                    let mut message = "No reaction handler defined for reaction ".to_owned();
                    message.append(reaction_id);
                    Err(message)
                },
            },
            Err(error) => Err(error),
        }
    }

    /// The first embedded instance of that name.
    pub fn get_drasi_lib_instance(&self, instance_id: &str) -> (r: Result<
        &TestDrasiLibInstanceDefinition,
        String,
    >)
        ensures
            match r {
                Ok(instance) => exists|i: int|
                    #![trigger self.drasi_lib_instances@[i]]
                    0 <= i < self.drasi_lib_instances@.len() && *instance
                        == self.drasi_lib_instances@[i]
                        && self.drasi_lib_instances@[i].test_drasi_lib_instance_id@ == instance_id@
                        && (forall|j: int|
                        0 <= j < i ==> (
                        #[trigger] self.drasi_lib_instances@[j]).test_drasi_lib_instance_id@
                            != instance_id@),
                Err(error) => error@ == "drasi-lib instance definition not found: "@ + instance_id@
                    && (forall|j: int|
                    0 <= j < self.drasi_lib_instances@.len() ==> (
                    #[trigger] self.drasi_lib_instances@[j]).test_drasi_lib_instance_id@
                        != instance_id@),
            },
    {
        let mut i: usize = 0;
        while i < self.drasi_lib_instances.len()
            invariant
                0 <= i <= self.drasi_lib_instances@.len(),
                forall|j: int|
                    0 <= j < i ==> (
                    #[trigger] self.drasi_lib_instances@[j]).test_drasi_lib_instance_id@
                        != instance_id@,
            decreases self.drasi_lib_instances@.len() - i,
        {
            if str_equal(
                self.drasi_lib_instances[i].test_drasi_lib_instance_id.as_str(),
                instance_id,
            ) {
                return Ok(&self.drasi_lib_instances[i]);
            }
            i = i + 1;
        }
        let mut message = "drasi-lib instance definition not found: ".to_owned();
        message.append(instance_id);
        Err(message)
    }

    /// The first source of that name.
    pub fn get_test_source(&self, source_id: &str) -> (r: Result<&TestSourceDefinition, String>)
        ensures
            match r {
                Ok(source) => exists|i: int|
                    #![trigger self.sources@[i]]
                    0 <= i < self.sources@.len() && *source == self.sources@[i] && source_id_of(
                        self.sources@[i],
                    ) == source_id@ && (forall|j: int|
                        0 <= j < i ==> source_id_of(#[trigger] self.sources@[j]) != source_id@),
                Err(error) => error@ == not_found_message("Test Source with ID "@, source_id@) && (
                forall|j: int|
                    0 <= j < self.sources@.len() ==> source_id_of(#[trigger] self.sources@[j])
                        != source_id@),
            },
    {
        let mut i: usize = 0;
        while i < self.sources.len()
            invariant
                0 <= i <= self.sources@.len(),
                forall|j: int| 0 <= j < i ==> source_id_of(#[trigger] self.sources@[j]) != source_id@,
            decreases self.sources@.len() - i,
        {
            let found = match &self.sources[i] {
                TestSourceDefinition::Model(def) => str_equal(
                    def.common.test_source_id.as_str(),
                    source_id,
                ),
                TestSourceDefinition::Script(def) => str_equal(
                    def.common.test_source_id.as_str(),
                    source_id,
                ),
            };
            if found {
                return Ok(&self.sources[i]);
            }
            i = i + 1;
        }
        Err(not_found("Test Source with ID ", source_id))
    }
}

/// The text parts around the only dot.
pub open spec fn splits_at(text: Seq<char>, i: int) -> bool {
    &&& 0 <= i < text.len()
    &&& text[i] == '.'
    &&& forall|j: int| 0 <= j < text.len() && j != i ==> #[trigger] text[j] != '.'
}

impl QueryId {
    /// The query that a text of the form `node.query` names.
    pub fn try_from(value: &str) -> (r: Result<QueryId, ParseQueryIdError>)
        ensures
            match r {
                Ok(id) => exists|i: int| #[trigger]
                    splits_at(value@, i) && id.node_id@ == value@.take(i) && id.query_id@
                        == value@.skip(i + 1),
                Err(error) => (forall|i: int| !#[trigger] splits_at(value@, i)) && (
                error matches ParseQueryIdError::InvalidFormat(text) && text@ == value@),
            },
    {
        let chars = chars_of(value);
        let mut dots: usize = 0;
        let mut at: usize = 0;
        let mut i: usize = 0;
        while i < chars.len()
            invariant
                0 <= i <= chars@.len(),
                chars@ == value@,
                dots <= i,
                dots == 0 ==> forall|j: int| 0 <= j < i ==> #[trigger] chars@[j] != '.',
                dots >= 1 ==> at < i && chars@[at as int] == '.',
                dots == 1 ==> forall|j: int| 0 <= j < i && j != at ==> #[trigger] chars@[j] != '.',
                dots > 1 ==> exists|j: int| 0 <= j < i && j != at && #[trigger] chars@[j] == '.',
            decreases chars@.len() - i,
        {
            if chars[i] == '.' {
                dots = dots + 1;
                if dots == 1 {
                    at = i;
                }
            }
            i = i + 1;
        }
        if dots == 1 {
            assert(splits_at(value@, at as int));
            assert(value@.take(at as int) =~= value@.subrange(0, at as int));
            assert(value@.skip(at + 1) =~= value@.subrange(at + 1, value@.len() as int));
            Ok(
                QueryId {
                    node_id: value.substring_char(0, at).to_owned(),
                    query_id: value.substring_char(at + 1, chars.len()).to_owned(),
                },
            )
        } else {
            Err(ParseQueryIdError::InvalidFormat(value.to_owned()))
        }
    }
}

impl ParseQueryIdError {
    /// The error as a message.
    pub fn text(&self) -> (r: String)
        ensures
            r@ == (match *self {
                ParseQueryIdError::InvalidFormat(text) => "Invalid format for QueryId - "@ + text@,
                ParseQueryIdError::InvalidValues(text) => "Invalid values for QueryId - "@ + text@,
            }),
    {
        match self {
            ParseQueryIdError::InvalidFormat(text) => {
                let mut message = "Invalid format for QueryId - ".to_owned();
                message.append(text.as_str());
                message
            },
            ParseQueryIdError::InvalidValues(text) => {
                let mut message = "Invalid values for QueryId - ".to_owned();
                message.append(text.as_str());
                message
            },
        }
    }
}

/// A text has at most one reading as a query, and a node and a query without dots are read
/// back from the text that joins them with one.
pub proof fn lemma_query_id_round_trip(node_id: Seq<char>, query_id: Seq<char>)
    requires
        forall|i: int| 0 <= i < node_id.len() ==> #[trigger] node_id[i] != '.',
        forall|i: int| 0 <= i < query_id.len() ==> #[trigger] query_id[i] != '.',
    ensures
        ({
            let text = node_id + seq!['.'] + query_id;
            &&& splits_at(text, node_id.len() as int)
            &&& text.take(node_id.len() as int) == node_id
            &&& text.skip(node_id.len() as int + 1) == query_id
            &&& forall|i: int| #[trigger] splits_at(text, i) ==> i == node_id.len()
        }),
{
    let n = node_id.len() as int;
    let text = node_id + seq!['.'] + query_id;
    assert(text.take(n) =~= node_id);
    assert(text.skip(n + 1) =~= query_id);
    assert(text[n] == '.');
    assert forall|j: int| 0 <= j < text.len() && j != n implies #[trigger] text[j] != '.' by {
        if j < n {
            assert(text[j] == node_id[j]);
        } else {
            assert(text[j] == query_id[j - n - 1]);
        }
    }
}

} // verus!
