use joerl::telemetry::{
    get_config, init, set_config, type_name_tail, GenServerMetrics, GenStatemMetrics,
    MessageMetrics, SupervisorMetrics, Telemetry, TelemetryConfig, TelemetrySpan,
};

#[test]
fn test_telemetry_span_creation() {
    let _span = TelemetrySpan::new("test_metric");
}

#[test]
fn test_span_finish() {
    let mut telemetry = Telemetry::new();
    let span = MessageMetrics::message_processing_span(&mut telemetry);
    span.finish();
}

#[test]
fn test_init() {
    let mut telemetry = Telemetry::new();
    init(&mut telemetry);
}

#[test]
fn default_config_records_everything() {
    let c = TelemetryConfig::default();
    assert_eq!(c.message_sampling_rate, 100);
    assert_eq!(c.signal_sampling_rate, 100);
    assert_eq!(c.queue_wait_sampling_rate, 100);
}

#[test]
fn config_is_set_once() {
    let mut t = Telemetry::new();
    set_config(&mut t, TelemetryConfig { message_sampling_rate: 10, ..Default::default() });
    set_config(&mut t, TelemetryConfig { message_sampling_rate: 50, ..Default::default() });
    assert_eq!(get_config(&mut t).message_sampling_rate, 10);

    let mut u = Telemetry::new();
    assert_eq!(get_config(&mut u).message_sampling_rate, 100);
    set_config(&mut u, TelemetryConfig { message_sampling_rate: 5, ..Default::default() });
    assert_eq!(get_config(&mut u).message_sampling_rate, 100);
}

#[test]
fn sampling_records_the_rate_out_of_each_hundred() {
    let mut t = Telemetry::new();
    let recorded = (0..100).filter(|_| t.should_sample(25)).count();
    assert_eq!(recorded, 25);
    assert!((0..10).all(|_| t.should_sample(100)));
    assert!((0..10).all(|_| !t.should_sample(0)));
}

#[test]
fn spans_name_their_metric() {
    let span = TelemetrySpan::new_sampled("m", false);
    assert!(span.finish().is_none());
    let span = TelemetrySpan::new("m");
    let (name, _) = span.finish().unwrap();
    assert_eq!(name, "m");
    let (name, _) = SupervisorMetrics::restart_span().finish().unwrap();
    assert_eq!(name, "joerl_supervisor_restart_duration_seconds");
    let mut t = Telemetry::new();
    set_config(&mut t, TelemetryConfig { message_sampling_rate: 0, ..Default::default() });
    assert!(MessageMetrics::message_processing_span(&mut t).finish().is_none());
    let (ty, _) = GenServerMetrics::call_span("Counter").finish();
    assert_eq!(ty, "Counter");
    let (ty, state, _) = GenStatemMetrics::state_duration_span("Door", "open").finish();
    assert_eq!(ty, "Door");
    assert_eq!(state, "open");
}

#[test]
fn type_names_lose_their_path() {
    assert_eq!(type_name_tail("my_app::workers::Worker"), "Worker");
    assert_eq!(type_name_tail("Worker"), "Worker");
    assert_eq!(type_name_tail("a:::b"), "b");
    assert_eq!(type_name_tail("a::"), "");
    assert_eq!(type_name_tail(""), "");
}

#[test]
fn sampling_rate_holds_from_any_counter() {
    let mut t = Telemetry::new();
    for _ in 0..37 {
        t.should_sample(50);
    }
    let recorded = (0..100).filter(|_| t.should_sample(25)).count();
    assert_eq!(recorded, 25);
}
