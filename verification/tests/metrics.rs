use canary_agent::observability::metrics::{
    make_exec_command_families, make_exec_command_samples, make_runtime_families,
    make_runtime_samples, make_web_search_families, make_web_search_samples, ExecCommandMetric,
    FamilyKind, MetricFamily, Sample, SampleValue,
};
use canary_agent::runtime::metrics::{
    FunctionCallOutcome, FunctionCallSkipReason, MetricStatus, MetricsRecorder,
    NoopMetricsRecorder, RuntimeMetric,
};
use canary_agent::time_span::TimeSpan;
use canary_agent::tools::web_search::{WebSearchMetric, WebSearchOutcome};
use prometheus::{
    CounterVec, Encoder, HistogramOpts, HistogramVec, Opts, Registry, TextEncoder,
};
use std::collections::HashMap;
use std::sync::Arc;

enum Instrument {
    Counter(CounterVec),
    Histogram(HistogramVec),
}

/// Keeps samples in a registry.
struct Recorder {
    registry: Arc<Registry>,
    instruments: HashMap<String, Instrument>,
}

fn seconds(span: TimeSpan) -> f64 {
    span.as_secs() as f64 + f64::from(span.subsec_nanos()) / 1e9
}

impl Recorder {
    fn new(
        registry: Arc<Registry>,
        families: Vec<MetricFamily>,
        labels: HashMap<String, String>,
    ) -> Self {
        let mut instruments = HashMap::new();
        for family in families {
            let names: Vec<&str> = family.labels.iter().map(|name| name.as_str()).collect();
            let opts = Opts::new(family.name.clone(), family.help.clone()).const_labels(labels.clone());
            let instrument = match family.kind {
                FamilyKind::Counter => {
                    let counter = CounterVec::new(opts, &names).expect("a counter");
                    registry.register(Box::new(counter.clone())).expect("registered");
                    Instrument::Counter(counter)
                }
                FamilyKind::Histogram => {
                    let histogram =
                        HistogramVec::new(HistogramOpts::from(opts), &names).expect("a histogram");
                    registry.register(Box::new(histogram.clone())).expect("registered");
                    Instrument::Histogram(histogram)
                }
            };
            instruments.insert(family.name, instrument);
        }
        Recorder {
            registry,
            instruments,
        }
    }

    fn keep(&self, samples: Vec<Sample>) {
        for sample in samples {
            let labels: Vec<&str> = sample.labels.iter().map(|label| label.as_str()).collect();
            let value = match sample.value {
                SampleValue::Count(n) => n as f64,
                SampleValue::Number(n) => n as f64,
                SampleValue::Seconds(span) => seconds(span),
                SampleValue::PerSecond { amount, duration } => amount as f64 / seconds(duration),
            };
            match &self.instruments[&sample.family] {
                Instrument::Counter(counter) => counter.with_label_values(&labels).inc_by(value),
                Instrument::Histogram(histogram) => {
                    histogram.with_label_values(&labels).observe(value)
                }
            }
        }
    }

    fn encode(&self) -> String {
        let mut out = Vec::new();
        TextEncoder::new()
            .encode(&self.registry.gather(), &mut out)
            .expect("metrics encoding");
        String::from_utf8(out).expect("text")
    }
}

#[test]
fn prom_recorder_exposes_runtime_metrics() {
    let mut labels = HashMap::new();
    labels.insert("service".to_string(), "checkout".to_string());
    let recorder = Recorder::new(Arc::new(Registry::new()), make_runtime_families(), labels);
    recorder.keep(make_runtime_samples(&RuntimeMetric::TurnFinished {
        status: MetricStatus::Completed,
        duration: TimeSpan::from_millis(10),
        function_calls: 2,
    }));
    recorder.keep(make_runtime_samples(&RuntimeMetric::TokenUsage {
        input_tokens: 3,
        cached_input_tokens: 1,
        output_tokens: 2,
        total_tokens: 5,
    }));

    let output = recorder.encode();
    assert!(output.contains("canary_agent_turns_total"));
    assert!(output.contains("canary_agent_tokens_total"));
    assert!(output.contains("service=\"checkout\""));
    recorder.keep(make_runtime_samples(
        &RuntimeMetric::ModelStreamingThroughput {
            output_tokens: 400,
            streaming_duration: TimeSpan::from_secs(2),
        },
    ));
    recorder.keep(make_runtime_samples(
        &RuntimeMetric::ModelStreamingThroughput {
            output_tokens: 400,
            streaming_duration: TimeSpan::from_secs(0),
        },
    ));
    for millis in [0, 20, 30] {
        recorder.keep(make_runtime_samples(
            &RuntimeMetric::ModelInterChunkLatency {
                duration: TimeSpan::from_millis(millis),
            },
        ));
    }
    let output = recorder.encode();
    assert!(output.contains(
        "canary_agent_model_streaming_output_tokens_per_second_sum{service=\"checkout\"} 200"
    ));
    assert!(output.contains(
        "canary_agent_model_streaming_output_tokens_per_second_count{service=\"checkout\"} 1"
    ));
    assert!(output.contains(
        "canary_agent_model_inter_chunk_latency_seconds_count{service=\"checkout\"} 3"
    ));
    assert!(output.contains(
        "canary_agent_model_inter_chunk_latency_seconds_sum{service=\"checkout\"} 0.05"
    ));
}

#[test]
fn records_web_search_metrics() {
    let recorder = Recorder::new(
        Arc::new(Registry::new()),
        make_web_search_families(),
        HashMap::new(),
    );
    recorder.keep(make_web_search_samples(&WebSearchMetric::Finished {
        outcome: WebSearchOutcome::Succeeded,
        duration: TimeSpan::from_millis(25),
        result_count: 3,
        response_bytes: 1024,
    }));
    let metric_families = recorder.registry.gather();
    assert!(metric_families
        .iter()
        .any(|family| family.name() == "canary_agent_web_searches_total"));
    assert!(metric_families
        .iter()
        .any(|family| family.name() == "canary_agent_web_search_duration_seconds"));
}

#[test]
fn supports_shared_registry() {
    let registry = Arc::new(Registry::new());
    let recorder = Recorder::new(
        registry.clone(),
        make_web_search_families(),
        HashMap::new(),
    );
    assert!(Arc::ptr_eq(&recorder.registry, &registry));
    // Families of different kinds of work share a registry.
    Recorder::new(registry.clone(), make_exec_command_families(), HashMap::new());
    Recorder::new(registry, make_runtime_families(), HashMap::new());
}

#[test]
fn samples_have_the_labels_of_their_family() {
    let metrics = vec![
        RuntimeMetric::ModelRequestFinished {
            status: MetricStatus::Failed,
            duration: TimeSpan::from_secs(1),
        },
        RuntimeMetric::FunctionCallFinished {
            name: "f".to_string(),
            outcome: FunctionCallOutcome::Completed,
            duration: TimeSpan::from_secs(1),
        },
        RuntimeMetric::FunctionCallSkipped {
            name: "f".to_string(),
            reason: FunctionCallSkipReason::TurnAborted,
        },
        RuntimeMetric::TimeToFirstToken {
            duration: TimeSpan::from_secs(1),
        },
    ];
    let families = make_runtime_families();
    for metric in &metrics {
        for sample in make_runtime_samples(metric) {
            let family = families
                .iter()
                .find(|family| family.name == sample.family)
                .expect("a family");
            assert_eq!(family.labels.len(), sample.labels.len());
        }
        NoopMetricsRecorder.record(metric.clone());
    }
}

#[test]
fn commands_are_measured_by_their_outcome() {
    let samples = make_exec_command_samples(&ExecCommandMetric::Finished {
        outcome: "completed".to_string(),
        duration: TimeSpan::from_secs(3),
        stdout_bytes: 5,
        stderr_bytes: 7,
        stdout_truncated: true,
        stderr_truncated: false,
    });
    assert!(!samples.is_empty());
    assert!(samples
        .iter()
        .any(|sample| sample.labels.iter().any(|label| label == "completed")));
    let recorder = Recorder::new(
        Arc::new(Registry::new()),
        make_exec_command_families(),
        HashMap::new(),
    );
    recorder.keep(samples);
    assert!(recorder.encode().contains("completed"));
}
