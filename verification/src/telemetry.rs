use std::time::{Duration, Instant};
use vstd::prelude::*;
use vstd::string::StrSliceExecFns;

verus! {

/// Sampling rates for high-frequency metrics, in percent (0 to 100):
/// 100 records every event, 10 one event in ten.
#[derive(Debug, Clone, Copy)]
pub struct TelemetryConfig {
    /// Sampling rate for message processing metrics.
    pub message_sampling_rate: u32,
    /// Sampling rate for signal metrics.
    pub signal_sampling_rate: u32,
    /// Sampling rate for queue wait time metrics.
    pub queue_wait_sampling_rate: u32,
}

impl Default for TelemetryConfig {
    /// Every rate at 100: everything is recorded.
    fn default() -> (r: TelemetryConfig)
        ensures
            r.message_sampling_rate == 100,
            r.signal_sampling_rate == 100,
            r.queue_wait_sampling_rate == 100,
    {
        TelemetryConfig { message_sampling_rate: 100, signal_sampling_rate: 100, queue_wait_sampling_rate: 100 }
    }
}

/// The telemetry settings of a process: the configuration once it is set
/// (it can be set only once), and the counter that drives sampling.
pub struct Telemetry {
    config: Option<TelemetryConfig>,
    sample_counter: u32,
}

/// The configuration in force: the one that was set, or the default.
pub open spec fn effective_config(c: Option<TelemetryConfig>) -> TelemetryConfig {
    match c {
        Some(c) => c,
        None => TelemetryConfig { message_sampling_rate: 100, signal_sampling_rate: 100, queue_wait_sampling_rate: 100 },
    }
}

/// With no configuration set, every event is recorded: all three rates
/// in force are 100, as in the default configuration; a configuration that
/// was set is the one in force.
pub proof fn lemma_default_config_in_force(c: TelemetryConfig)
    ensures
        effective_config(None).message_sampling_rate == 100,
        effective_config(None).signal_sampling_rate == 100,
        effective_config(None).queue_wait_sampling_rate == 100,
        effective_config(Some(c)) == c,
{
}

/// Whether the event that sees counter value `counter` is recorded at
/// sampling rate `rate`: always from 100 on, never at 0, otherwise when the
/// counter's last two decimal digits are below the rate.
pub open spec fn sampled(rate: u32, counter: u32) -> bool {
    if rate >= 100 {
        true
    } else if rate == 0 {
        false
    } else {
        counter % 100 < rate
    }
}

impl Telemetry {
    /// The configuration that was set, if any.
    pub closed spec fn config_view(&self) -> Option<TelemetryConfig> {
        self.config
    }

    /// The sampling counter.
    pub closed spec fn counter(&self) -> u32 {
        self.sample_counter
    }

    /// Nothing set yet; the counter at 0.
    pub fn new() -> (r: Telemetry)
        ensures
            r.config_view() is None,
            r.counter() == 0,
    {
        Telemetry { config: None, sample_counter: 0 }
    }

    /// Whether one more event is recorded at `rate`. Rates of 0 and of 100
    /// or more decide without the counter; other rates use the counter's
    /// current value and advance it (wrapping around).
    pub fn should_sample(&mut self, rate: u32) -> (r: bool)
        ensures
            r == sampled(rate, old(self).counter()),
            final(self).config_view() == old(self).config_view(),
            final(self).counter() == (if rate >= 100 || rate == 0 {
                old(self).counter() as int
            } else {
                (old(self).counter() + 1) % 0x1_0000_0000
            }),
    {
        if rate >= 100 {
            return true;
        }
        if rate == 0 {
            return false;
        }
        let counter = self.sample_counter;
        self.sample_counter = self.sample_counter.wrapping_add(1);
        counter % 100 < rate
    }
}

/// The configuration after a setting: the one already set, if any.
pub open spec fn config_after_set(c: Option<TelemetryConfig>, n: TelemetryConfig) -> Option<TelemetryConfig> {
    match c {
        Some(c) => Some(c),
        None => Some(n),
    }
}

/// Sets the configuration, once: a later call leaves the first one in
/// force.
pub fn set_config(telemetry: &mut Telemetry, config: TelemetryConfig)
    ensures
        final(telemetry).config_view() == config_after_set(old(telemetry).config_view(), config),
        final(telemetry).counter() == old(telemetry).counter(),
{
    if telemetry.config.is_none() {
        telemetry.config = Some(config);
    }
}

/// The configuration in force, which from then on stays in force (the
/// default when none was set).
pub fn get_config(telemetry: &mut Telemetry) -> (r: TelemetryConfig)
    ensures
        r == effective_config(old(telemetry).config_view()),
        final(telemetry).config_view() == Some(r),
        final(telemetry).counter() == old(telemetry).counter(),
{
    match telemetry.config {
        Some(c) => c,
        None => {
            let c = TelemetryConfig::default();
            telemetry.config = Some(c);
            c
        },
    }
}

/// Fixes the configuration in force (the default, unless one was set).
pub fn init(telemetry: &mut Telemetry)
    ensures
        final(telemetry).config_view() == Some(effective_config(old(telemetry).config_view())),
        final(telemetry).counter() == old(telemetry).counter(),
{
    let _ = get_config(telemetry);
}

/// The configuration is set once: a second setting changes nothing, so
/// after two settings from none the first is in force.
pub proof fn lemma_config_set_once(before: Option<TelemetryConfig>, first: TelemetryConfig, second: TelemetryConfig)
    ensures
        config_after_set(config_after_set(before, first), second) == config_after_set(before, first),
        before is None ==> config_after_set(config_after_set(before, first), second) == Some(first),
{
}

/// Whether the event that sees counter value `c` is recorded at `rate`,
/// for a counter taken as a mathematical integer.
pub open spec fn records_at(rate: u32, c: int) -> bool {
    rate >= 100 || (rate != 0 && c % 100 < rate)
}

/// How many of the `n` events that see counter values `start`, `start + 1`,
/// ..., `start + n - 1` are recorded at `rate`.
pub open spec fn recorded_count(rate: u32, start: int, n: nat) -> nat
    decreases n,
{
    if n == 0 {
        0
    } else {
        recorded_count(rate, start, (n - 1) as nat) + if records_at(rate, start + n - 1) {
            1nat
        } else {
            0nat
        }
    }
}

proof fn lemma_count_first(rate: u32, start: int, n: nat)
    requires
        n > 0,
    ensures
        recorded_count(rate, start, n) == (if records_at(rate, start) {
            1nat
        } else {
            0nat
        }) + recorded_count(rate, start + 1, (n - 1) as nat),
    decreases n,
{
    if n > 1 {
        lemma_count_first(rate, start, (n - 1) as nat);
        assert(recorded_count(rate, start + 1, (n - 1) as nat) == recorded_count(
            rate,
            start + 1,
            (n - 2) as nat,
        ) + if records_at(rate, start + n - 1) {
            1nat
        } else {
            0nat
        });
    } else {
        assert(recorded_count(rate, start, 0) == 0);
        assert(recorded_count(rate, start + 1, 0) == 0);
    }
}

proof fn lemma_count_from_zero(rate: u32, n: nat)
    requires
        0 < rate < 100,
        n <= 100,
    ensures
        recorded_count(rate, 0, n) == (if n < rate {
            n
        } else {
            rate as nat
        }),
    decreases n,
{
    if n > 0 {
        lemma_count_from_zero(rate, (n - 1) as nat);
        assert((n - 1) % 100 == n - 1);
    }
}

proof fn lemma_count_shift(rate: u32, start: nat)
    requires
        0 < rate < 100,
    ensures
        recorded_count(rate, start as int, 100) == rate,
    decreases start,
{
    if start == 0 {
        lemma_count_from_zero(rate, 100);
    } else {
        let s = start - 1;
        lemma_count_shift(rate, s as nat);
        lemma_count_first(rate, s, 100);
        assert((s + 100) % 100 == s % 100);
        assert(recorded_count(rate, s + 1, 100) == recorded_count(rate, s + 1, 99) + if records_at(
            rate,
            s + 100,
        ) {
            1nat
        } else {
            0nat
        });
    }
}

/// The sampling rate is the share of events recorded: whatever value the
/// counter starts at, of 100 consecutive events (counter values `start` to
/// `start + 99`, which `should_sample` advances through one per call, all
/// within `u32`) exactly `rate` are recorded for a rate below 100, and all
/// 100 for a rate of 100 or more. Each event's decision is `sampled`.
pub proof fn lemma_sampling_rate(rate: u32, start: u32)
    requires
        start + 99 <= u32::MAX,
    ensures
        recorded_count(rate, start as int, 100) == (if rate >= 100 {
            100
        } else {
            rate as int
        }),
        forall|k: int|
            0 <= k < 100 ==> (#[trigger] sampled(rate, (start + k) as u32) <==> records_at(
                rate,
                start + k,
            )),
{
    if rate >= 100 || rate == 0 {
        lemma_count_constant(rate, start as int, 100);
    } else {
        lemma_count_shift(rate, start as nat);
    }
}

proof fn lemma_count_constant(rate: u32, start: int, n: nat)
    requires
        rate >= 100 || rate == 0,
    ensures
        recorded_count(rate, start, n) == (if rate >= 100 {
            n
        } else {
            0
        }),
    decreases n,
{
    if n > 0 {
        lemma_count_constant(rate, start, (n - 1) as nat);
    }
}

/// A rate of 100 records every event and a rate of 0 none, whatever the
/// counter.
pub proof fn lemma_sampling_extremes(counter: u32)
    ensures
        sampled(100, counter),
        !sampled(0, counter),
{
}

// ---------------------------------------------------------------------------
// Spans
// ---------------------------------------------------------------------------

#[verifier::external_type_specification]
#[verifier::external_body]
pub struct ExInstant(Instant);

/// The trusted call of `Instant::now`. Nothing is stated of the time.
#[verifier::external_body]
fn now() -> Instant {
    Instant::now()
}

/// The trusted call of `Instant::elapsed`. Nothing is stated of the time.
#[verifier::external_body]
fn elapsed(start: &Instant) -> Duration {
    start.elapsed()
}

/// A measurement of how long an operation takes, under a metric name; it
/// may be switched off by sampling.
pub struct TelemetrySpan {
    start: Instant,
    metric_name: &'static str,
    should_record: bool,
}

impl TelemetrySpan {
    /// The metric the span records under.
    pub closed spec fn name_view(&self) -> Seq<char> {
        self.metric_name@
    }

    /// Whether the span records at all.
    pub closed spec fn records(&self) -> bool {
        self.should_record
    }

    /// A span that records, starting now.
    pub fn new(metric_name: &'static str) -> (r: TelemetrySpan)
        ensures
            r.name_view() == metric_name@,
            r.records(),
    {
        TelemetrySpan { start: now(), metric_name, should_record: true }
    }

    /// A span starting now that records only when `should_record` holds.
    pub fn new_sampled(metric_name: &'static str, should_record: bool) -> (r: TelemetrySpan)
        ensures
            r.name_view() == metric_name@,
            r.records() == should_record,
    {
        TelemetrySpan { start: now(), metric_name, should_record }
    }

    /// Ends the span: the metric name and the time since the start, to be
    /// recorded, or `None` when the span does not record.
    pub fn finish(self) -> (r: Option<(&'static str, Duration)>)
        ensures
            r is Some == self.records(),
            r matches Some((n, _)) ==> n@ == self.name_view(),
    {
        if self.should_record {
            Some((self.metric_name, elapsed(&self.start)))
        } else {
            None
        }
    }
}

/// Message metrics that depend on sampling.
pub struct MessageMetrics;

impl MessageMetrics {
    /// A span for processing one message, recording under
    /// `joerl_message_processing_duration_seconds` when the message sampling
    /// rate in force selects this message.
    pub fn message_processing_span(telemetry: &mut Telemetry) -> (r: TelemetrySpan)
        ensures
            r.name_view() == "joerl_message_processing_duration_seconds"@,
            r.records() == sampled(
                effective_config(old(telemetry).config_view()).message_sampling_rate,
                old(telemetry).counter(),
            ),
            final(telemetry).config_view() == Some(effective_config(old(telemetry).config_view())),
    {
        let config = get_config(telemetry);
        let record = telemetry.should_sample(config.message_sampling_rate);
        TelemetrySpan::new_sampled("joerl_message_processing_duration_seconds", record)
    }
}

/// Supervisor metrics.
pub struct SupervisorMetrics;

impl SupervisorMetrics {
    /// A span for one restart, recording under
    /// `joerl_supervisor_restart_duration_seconds`.
    pub fn restart_span() -> (r: TelemetrySpan)
        ensures
            r.name_view() == "joerl_supervisor_restart_duration_seconds"@,
            r.records(),
    {
        TelemetrySpan::new("joerl_supervisor_restart_duration_seconds")
    }
}

/// A measurement of one call to a generic server of some type.
pub struct GenServerCallSpan {
    start: Instant,
    server_type: String,
}

/// Generic server metrics.
pub struct GenServerMetrics;

impl GenServerMetrics {
    /// A span for one call to a server of the given type, starting now.
    pub fn call_span(server_type: &str) -> (r: GenServerCallSpan)
        ensures
            r.type_view() == server_type@,
    {
        GenServerCallSpan { start: now(), server_type: crate::text::string_of(server_type) }
    }
}

impl GenServerCallSpan {
    /// The server type the span is labelled with.
    pub closed spec fn type_view(&self) -> Seq<char> {
        self.server_type@
    }

    /// Ends the span: its server type and the time since the start, to be
    /// recorded.
    pub fn finish(self) -> (r: (String, Duration))
        ensures
            r.0@ == self.type_view(),
    {
        let d = elapsed(&self.start);
        (self.server_type, d)
    }
}

/// A measurement of the time a state machine spends in one state.
pub struct GenStatemStateSpan {
    start: Instant,
    fsm_type: String,
    state: String,
}

/// State machine metrics.
pub struct GenStatemMetrics;

impl GenStatemMetrics {
    /// A span for the time a machine of the given type spends in `state`,
    /// starting now.
    pub fn state_duration_span(fsm_type: &str, state: &str) -> (r: GenStatemStateSpan)
        ensures
            r.type_view() == fsm_type@,
            r.state_view() == state@,
    {
        GenStatemStateSpan {
            start: now(),
            fsm_type: crate::text::string_of(fsm_type),
            state: crate::text::string_of(state),
        }
    }
}

impl GenStatemStateSpan {
    /// The machine type the span is labelled with.
    pub closed spec fn type_view(&self) -> Seq<char> {
        self.fsm_type@
    }

    /// The state the span is labelled with.
    pub closed spec fn state_view(&self) -> Seq<char> {
        self.state@
    }

    /// Ends the span: its machine type, its state and the time since the
    /// start, to be recorded.
    pub fn finish(self) -> (r: (String, String, Duration))
        ensures
            r.0@ == self.type_view(),
            r.1@ == self.state_view(),
    {
        let d = elapsed(&self.start);
        (self.fsm_type, self.state, d)
    }
}

// ---------------------------------------------------------------------------
// Type names
// ---------------------------------------------------------------------------

/// Whether `s` holds `::` starting at index `i`.
pub open spec fn path_separator_at(s: Seq<char>, i: int) -> bool {
    0 <= i && i + 1 < s.len() && s[i] == ':' && s[i + 1] == ':'
}

/// The text after the last `::` of a path (the whole text when it has none).
pub open spec fn last_path_segment(s: Seq<char>) -> Seq<char> {
    if exists|i: int| #[trigger] path_separator_at(s, i) {
        let i = choose|i: int| #[trigger] path_separator_at(s, i) && forall|j: int| #[trigger]
            path_separator_at(s, j) ==> j <= i;
        s.subrange(i + 2, s.len() as int)
    } else {
        s
    }
}

/// The last segment of a type path such as `my_app::workers::Worker`:
/// `Worker`.
pub fn type_name_tail(full_name: &str) -> (r: &str)
    ensures
        r@ == last_path_segment(full_name@),
{
    let n = full_name.unicode_len();
    if n < 2 {
        proof {
            assert(!exists|i: int| #[trigger] path_separator_at(full_name@, i));
        }
        return full_name;
    }
    let mut i: usize = n - 1;
    while i > 0
        invariant
            n == full_name@.len(),
            n >= 2,
            i <= n - 1,
            forall|j: int| i <= j < n ==> !#[trigger] path_separator_at(full_name@, j),
        decreases i,
    {
        let k = i - 1;
        if full_name.get_char(k) == ':' && full_name.get_char(k + 1) == ':' {
            proof {
                let s = full_name@;
                assert(path_separator_at(s, k as int));
                let c = choose|c: int| #[trigger] path_separator_at(s, c) && forall|j: int| #[trigger]
                    path_separator_at(s, j) ==> j <= c;
                assert forall|j: int| #[trigger] path_separator_at(s, j) implies j <= k by {
                    if j > k {
                        assert(i <= j);
                    }
                }
                assert(c <= k);
                assert(c >= k);
            }
            return full_name.substring_char(k + 2, n);
        }
        i = k;
    }
    proof {
        assert(!path_separator_at(full_name@, 0)) by {
            assert(!path_separator_at(full_name@, 0int));
        }
        assert(!exists|i: int| #[trigger] path_separator_at(full_name@, i));
    }
    full_name
}

} // verus!
