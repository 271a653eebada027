use sensor_telemetry::query::{
    decoded_rows, history, history_limit, history_of_rows, latest, latest_reply, LatestReply,
    DEFAULT_HISTORY,
};
use sensor_telemetry::sample::Sample;
use sensor_telemetry::store::TelemetryStore;

fn reading(temperature: f64, timestamp: i64) -> Sample {
    Sample::indoor(temperature.to_bits(), 55.0f64.to_bits(), timestamp)
}

#[test]
fn default_history_is_one_day_of_minutes() {
    assert_eq!(DEFAULT_HISTORY, 24 * 60);
    assert_eq!(history_limit(None), 1440);
}

#[test]
fn size_is_clamped_not_refused() {
    assert_eq!(history_limit(Some(0)), 0);
    assert_eq!(history_limit(Some(-1)), 0);
    assert_eq!(history_limit(Some(i64::MIN)), 0);
    assert_eq!(history_limit(Some(1)), 1);
    assert_eq!(history_limit(Some(1440)), 1440);
    assert_eq!(history_limit(Some(100_000)), 100_000);
    let largest = history_limit(Some(i64::MAX));
    assert_eq!(largest as u128, (i64::MAX as u128).min(usize::MAX as u128));
}

#[test]
fn latest_on_an_empty_store_is_no_content() {
    let store = TelemetryStore::new(10);
    assert_eq!(latest(&store), LatestReply::NoContent);
    assert_eq!(latest_reply(None), LatestReply::NoContent);
}

#[test]
fn latest_is_the_most_recent_sample() {
    let mut store = TelemetryStore::new(10);
    store.append(reading(20.0, 1));
    store.append(reading(21.0, 2));
    store.append(reading(22.0, 3));
    assert_eq!(latest(&store), LatestReply::Content(reading(22.0, 3)));
    assert_eq!(
        latest_reply(Some(reading(22.0, 3))),
        LatestReply::Content(reading(22.0, 3))
    );
}

#[test]
fn history_without_a_size_uses_the_default_window() {
    let mut store = TelemetryStore::new(2000);
    for i in 0..1500 {
        store.append(reading(i as f64, i));
    }
    let held = history(&store, None);
    assert_eq!(held.len(), 1440);
    assert_eq!(held[0], reading(1499.0, 1499));
    assert_eq!(held[1439], reading(60.0, 60));
}

#[test]
fn history_with_a_size_is_capped_at_what_is_stored() {
    let mut store = TelemetryStore::new(10);
    store.append(reading(20.0, 1));
    store.append(reading(21.0, 2));
    store.append(reading(22.0, 3));
    assert_eq!(
        history(&store, Some(2)),
        vec![reading(22.0, 3), reading(21.0, 2)]
    );
    assert_eq!(history(&store, Some(3)).len(), 3);
    assert_eq!(history(&store, Some(50)).len(), 3);
    assert_eq!(history(&store, Some(i64::MAX)).len(), 3);
    assert_eq!(history(&store, Some(0)), vec![]);
    assert_eq!(history(&store, Some(-7)), vec![]);
}

#[test]
fn history_of_an_empty_store_is_an_empty_sequence() {
    let store = TelemetryStore::new(10);
    assert_eq!(history(&store, None), vec![]);
    assert_eq!(history(&store, Some(5)), vec![]);
    assert_eq!(history(&store, Some(-5)), vec![]);
}

#[test]
fn rows_that_did_not_decode_are_dropped_in_place() {
    let a = reading(20.0, 3);
    let b = reading(21.0, 2);
    let c = reading(22.0, 1);
    assert_eq!(decoded_rows(&vec![]), vec![]);
    assert_eq!(decoded_rows(&vec![None, None]), vec![]);
    assert_eq!(decoded_rows(&vec![Some(a), Some(b), Some(c)]), vec![a, b, c]);
    assert_eq!(
        decoded_rows(&vec![None, Some(a), None, None, Some(b), Some(c), None]),
        vec![a, b, c]
    );
    assert_eq!(decoded_rows(&vec![Some(c), None, Some(a)]), vec![c, a]);
}

#[test]
fn history_of_rows_is_capped_at_the_size() {
    let a = reading(20.0, 3);
    let b = reading(21.0, 2);
    let c = reading(22.0, 1);
    let rows = vec![Some(a), None, Some(b), Some(c)];
    assert_eq!(history_of_rows(&rows, None), vec![a, b, c]);
    assert_eq!(history_of_rows(&rows, Some(10)), vec![a, b, c]);
    assert_eq!(history_of_rows(&rows, Some(3)), vec![a, b, c]);
    assert_eq!(history_of_rows(&rows, Some(2)), vec![a, b]);
    assert_eq!(history_of_rows(&rows, Some(1)), vec![a]);
    assert_eq!(history_of_rows(&rows, Some(0)), vec![]);
    assert_eq!(history_of_rows(&rows, Some(-1)), vec![]);
    assert_eq!(history_of_rows(&vec![], Some(5)), vec![]);
}

#[test]
fn rows_of_a_scan_give_the_history_of_the_store() {
    let mut store = TelemetryStore::new(5);
    for i in 0..8 {
        store.append(reading(i as f64, i));
    }
    for size in [None, Some(-2), Some(0), Some(1), Some(4), Some(5), Some(9)] {
        let scan: Vec<Option<Sample>> = history(&store, size).into_iter().map(Some).collect();
        assert_eq!(history_of_rows(&scan, size), history(&store, size));
    }
}
