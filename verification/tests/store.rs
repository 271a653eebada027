use sensor_telemetry::sample::Sample;
use sensor_telemetry::store::{TelemetryStore, DEFAULT_CAPACITY};

fn reading(temperature: f64, humidity: f64, timestamp: i64) -> Sample {
    Sample::indoor(temperature.to_bits(), humidity.to_bits(), timestamp)
}

fn numbered(count: usize) -> Vec<Sample> {
    let mut samples = Vec::new();
    for i in 0..count {
        samples.push(reading(i as f64, 50.0, 1_000 * i as i64));
    }
    samples
}

#[test]
fn new_store_is_empty() {
    let store = TelemetryStore::new(8);
    assert_eq!(store.len(), 0);
    assert!(store.is_empty());
    assert_eq!(store.capacity(), 8);
    assert_eq!(store.latest(), None);
    assert_eq!(store.history(8), vec![]);
}

#[test]
fn default_store_keeps_one_day() {
    let store = TelemetryStore::default();
    assert_eq!(DEFAULT_CAPACITY, 1440);
    assert_eq!(store.capacity(), 1440);
    assert!(store.is_empty());
}

#[test]
fn append_then_read_returns_reverse_insertion_order() {
    for capacity in [1usize, 2, 5, 60] {
        for count in 0..=capacity {
            let samples = numbered(count);
            let mut store = TelemetryStore::new(capacity);
            for sample in &samples {
                store.append(*sample);
            }
            let mut expected = samples.clone();
            expected.reverse();
            assert_eq!(store.history(count), expected);
            assert_eq!(store.len(), count);
        }
    }
}

#[test]
fn one_sample_too_many_evicts_the_oldest() {
    let capacity = 5;
    let samples = numbered(capacity + 1);
    let mut store = TelemetryStore::new(capacity);
    for sample in &samples {
        store.append(*sample);
    }
    assert_eq!(store.len(), capacity);
    let held = store.history(capacity + 1);
    assert_eq!(held.len(), capacity);
    assert!(!held.contains(&samples[0]));
    let mut expected = samples[1..].to_vec();
    expected.reverse();
    assert_eq!(held, expected);
}

#[test]
fn ring_wraps_around_more_than_once() {
    let capacity = 4;
    let samples = numbered(3 * capacity + 2);
    let mut store = TelemetryStore::new(capacity);
    for (i, sample) in samples.iter().enumerate() {
        store.append(*sample);
        assert_eq!(store.latest(), Some(*sample));
        assert_eq!(store.len(), (i + 1).min(capacity));
        let first = (i + 1).saturating_sub(capacity);
        let mut expected = samples[first..=i].to_vec();
        expected.reverse();
        assert_eq!(store.history(capacity), expected);
    }
}

#[test]
fn default_capacity_evicts_after_one_day() {
    let samples = numbered(DEFAULT_CAPACITY + 1);
    let mut store = TelemetryStore::default();
    for sample in &samples {
        store.append(*sample);
    }
    assert_eq!(store.len(), 1440);
    let held = store.history(usize::MAX);
    assert_eq!(held.len(), 1440);
    assert_eq!(held[0], samples[1440]);
    assert_eq!(held[1439], samples[1]);
}

#[test]
fn empty_store_reads_are_empty_for_any_limit() {
    let store = TelemetryStore::new(3);
    for limit in [0usize, 1, 2, 3, 4, 1440, usize::MAX] {
        assert_eq!(store.history(limit), vec![]);
    }
    assert_eq!(store.latest(), None);
}

#[test]
fn history_of_zero_is_empty() {
    let mut store = TelemetryStore::new(3);
    store.append(reading(20.0, 40.0, 1));
    store.append(reading(21.0, 41.0, 2));
    assert_eq!(store.history(0), vec![]);
}

#[test]
fn history_is_clamped_to_what_is_stored() {
    let mut store = TelemetryStore::new(10);
    let samples = numbered(3);
    for sample in &samples {
        store.append(*sample);
    }
    for limit in [3usize, 4, 10, 11, usize::MAX] {
        let held = store.history(limit);
        assert_eq!(held.len(), 3);
        assert_eq!(held, vec![samples[2], samples[1], samples[0]]);
    }
    assert_eq!(store.history(1), vec![samples[2]]);
    assert_eq!(store.history(2), vec![samples[2], samples[1]]);
}

#[test]
fn latest_and_history_of_three_samples() {
    let t1 = 1_700_000_000_000;
    let t2 = 1_700_000_060_000;
    let t3 = 1_700_000_120_000;
    let first = reading(20.0, 45.0, t1);
    let second = reading(21.0, 45.0, t2);
    let third = reading(22.0, 45.0, t3);
    let mut store = TelemetryStore::new(1440);
    store.append(first);
    store.append(second);
    store.append(third);
    let latest = store.latest().unwrap();
    assert_eq!(latest.timestamp, t3);
    assert_eq!(f64::from_bits(latest.temperature_bits), 22.0);
    assert_eq!(store.history(2), vec![third, second]);
}

#[test]
fn store_of_capacity_zero_stays_empty() {
    let mut store = TelemetryStore::new(0);
    store.append(reading(20.0, 45.0, 1));
    assert_eq!(store.len(), 0);
    assert_eq!(store.latest(), None);
    assert_eq!(store.history(5), vec![]);
}

#[test]
fn store_of_capacity_one_keeps_the_last() {
    let mut store = TelemetryStore::new(1);
    let a = reading(20.0, 45.0, 1);
    let b = reading(21.0, 46.0, 2);
    store.append(a);
    assert_eq!(store.history(3), vec![a]);
    store.append(b);
    assert_eq!(store.history(3), vec![b]);
    assert_eq!(store.latest(), Some(b));
    assert_eq!(store.len(), 1);
}

#[test]
fn history_runs_from_the_most_recent_timestamp_downwards() {
    let mut store = TelemetryStore::new(7);
    for sample in numbered(20) {
        store.append(sample);
    }
    let held = store.history(7);
    for pair in held.windows(2) {
        assert!(pair[0].timestamp >= pair[1].timestamp);
    }
    assert_eq!(held[0].timestamp, 19_000);
    assert_eq!(held[6].timestamp, 13_000);
}

#[test]
fn outdoor_sample_keeps_its_pressure() {
    let sample = Sample::outdoor(
        12.5f64.to_bits(),
        1013.25f64.to_bits(),
        80.0f64.to_bits(),
        42,
    );
    assert!(sample.is_outdoor());
    assert_eq!(sample.pressure_bits.map(f64::from_bits), Some(1013.25));
    assert_eq!(f64::from_bits(sample.temperature_bits), 12.5);
    assert_eq!(f64::from_bits(sample.humidity_bits), 80.0);
    let indoor = Sample::indoor(12.5f64.to_bits(), 80.0f64.to_bits(), 42);
    assert!(!indoor.is_outdoor());
    assert_eq!(indoor.pressure_bits, None);
    let mut store = TelemetryStore::new(2);
    store.append(sample);
    assert_eq!(store.latest(), Some(sample));
}

#[test]
fn restamp_replaces_only_the_timestamp() {
    let sample = Sample::outdoor(1, 2, 3, 0);
    let stamped = sample.restamp(1_700_000_000_000);
    assert_eq!(stamped.timestamp, 1_700_000_000_000);
    assert_eq!(stamped.temperature_bits, 1);
    assert_eq!(stamped.pressure_bits, Some(2));
    assert_eq!(stamped.humidity_bits, 3);
    assert_eq!(stamped, Sample::outdoor(1, 2, 3, 1_700_000_000_000));
}
