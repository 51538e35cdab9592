use netcore::logger::{level_to_string, should_log, LogLevel};
use netcore::metrics::Metrics;

fn counter_value(metrics: &Metrics, name: &str) -> Option<i64> {
    metrics.get_counters().into_iter().find(|e| e.0 == name).map(|e| e.1)
}

fn gauge_value(metrics: &Metrics, name: &str) -> Option<usize> {
    metrics.get_gauges().into_iter().find(|e| e.0 == name).map(|e| e.1)
}

fn histogram_value(metrics: &Metrics, name: &str) -> Option<(usize, usize)> {
    metrics.get_histograms().into_iter().find(|e| e.0 == name).map(|e| e.1)
}

#[test]
fn test_increment_counter() {
    let mut metrics = Metrics::new();

    metrics.increment_counter("test_counter");
    metrics.increment_counter("test_counter");

    assert_eq!(counter_value(&metrics, "test_counter"), Some(2));
}

#[test]
fn test_set_gauge() {
    let mut metrics = Metrics::new();

    metrics.set_gauge("test_gauge", 5);
    metrics.set_gauge("test_gauge", 10);

    assert_eq!(gauge_value(&metrics, "test_gauge"), Some(10));
}

#[test]
fn test_update_histogram() {
    let mut metrics = Metrics::new();

    metrics.update_histogram("test_histogram", 5);
    metrics.update_histogram("test_histogram", 15);

    let (sum, count) = histogram_value(&metrics, "test_histogram").unwrap();
    assert_eq!(sum, 20);
    assert_eq!(count, 2);
}

#[test]
fn test_get_counters() {
    let mut metrics = Metrics::new();
    metrics.increment_counter("counter1");
    metrics.increment_counter("counter2");
    metrics.increment_counter("counter1");

    let counters = metrics.get_counters();
    assert_eq!(counters.len(), 2);
    assert_eq!(counter_value(&metrics, "counter1"), Some(2));
    assert_eq!(counter_value(&metrics, "counter2"), Some(1));
}

#[test]
fn test_get_gauges() {
    let mut metrics = Metrics::new();
    metrics.set_gauge("gauge1", 5);
    metrics.set_gauge("gauge2", 10);
    metrics.set_gauge("gauge1", 15);

    let gauges = metrics.get_gauges();
    assert_eq!(gauges.len(), 2);
    assert_eq!(gauge_value(&metrics, "gauge1"), Some(15));
    assert_eq!(gauge_value(&metrics, "gauge2"), Some(10));
}

#[test]
fn test_get_histograms() {
    let mut metrics = Metrics::new();
    metrics.update_histogram("hist1", 1);
    metrics.update_histogram("hist1", 2);
    metrics.update_histogram("hist2", 3);

    let histograms = metrics.get_histograms();
    assert_eq!(histograms.len(), 2);
    assert_eq!(histogram_value(&metrics, "hist1"), Some((3, 2)));
    assert_eq!(histogram_value(&metrics, "hist2"), Some((3, 1)));
}

#[test]
fn test_counters_are_independent_of_gauges() {
    let mut metrics = Metrics::new();
    metrics.increment_counter("shared_name");
    metrics.set_gauge("shared_name", 9);
    assert_eq!(counter_value(&metrics, "shared_name"), Some(1));
    assert_eq!(gauge_value(&metrics, "shared_name"), Some(9));
}

#[test]
fn test_log_level_gating() {
    assert!(should_log(LogLevel::ERROR, LogLevel::INFO));
    assert!(should_log(LogLevel::INFO, LogLevel::INFO));
    assert!(!should_log(LogLevel::DEBUG, LogLevel::INFO));
    assert!(!should_log(LogLevel::INFO, LogLevel::CRITICAL));
    assert_eq!(level_to_string(LogLevel::WARNING), "WARNING");
    assert_eq!(level_to_string(LogLevel::DEBUG), "DEBUG");
}
