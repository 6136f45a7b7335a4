use serial_monitor::ingest::{ingest_line, ingest_shared, Ingested};
use serial_monitor::measurements::{AppendError, Measurements};
use serial_monitor::shared::{append_shared, append_under, snapshot_shared, snapshot_under};
use std::sync::{Arc, Mutex};

fn number(field: &str) -> Option<f64> {
    field.parse::<f64>().ok()
}

#[test]
fn bad_line_leaves_the_store_unchanged() {
    let mut store: Measurements<f64> = Measurements::new(1000);
    assert_eq!(ingest_line(&mut store, "1.5,2.5,bad".to_string(), number), Ingested::Unparsed);
    assert_eq!(store.channel_count(), 0);
    assert_eq!(store.last_x_value(), 0);
    assert!(store.values().is_empty());

    assert_eq!(store.append_after(3, vec![1.5, 2.5]), Ok(()));
    let before = store.values();
    assert_eq!(ingest_line(&mut store, "1.5,2.5,bad".to_string(), number), Ingested::Unparsed);
    assert_eq!(ingest_line(&mut store, String::new(), number), Ingested::Unparsed);
    assert_eq!(store.values(), before);
    assert_eq!(store.last_x_value(), 3);
}

#[test]
fn good_line_is_appended() {
    let mut store: Measurements<f64> = Measurements::new(60_000);
    assert_eq!(ingest_line(&mut store, "1.5,2.5".to_string(), number), Ingested::Appended);
    assert_eq!(ingest_line(&mut store, "3.5,4.5".to_string(), number), Ingested::Appended);
    let snapshot = store.values();
    assert_eq!(snapshot.len(), 2);
    assert_eq!(snapshot[0].iter().map(|s| s.y).collect::<Vec<f64>>(), vec![1.5, 3.5]);
    assert_eq!(snapshot[1].iter().map(|s| s.y).collect::<Vec<f64>>(), vec![2.5, 4.5]);
    assert_eq!(snapshot[0][1].x, store.last_x_value());
}

#[test]
fn line_with_other_column_count_is_refused() {
    let mut store: Measurements<f64> = Measurements::new(60_000);
    assert_eq!(ingest_line(&mut store, "1.5,2.5".to_string(), number), Ingested::Appended);
    let before = store.values();
    assert_eq!(
        ingest_line(&mut store, "1.5".to_string(), number),
        Ingested::Refused(AppendError::ChannelMismatch)
    );
    assert_eq!(
        ingest_line(&mut store, "1,2,3".to_string(), number),
        Ingested::Refused(AppendError::ChannelMismatch)
    );
    assert_eq!(store.values(), before);
}

#[test]
fn shared_store_takes_lines() {
    let shared = Arc::new(Mutex::new(Measurements::<f64>::new(60_000)));
    let writer = Arc::clone(&shared);
    assert_eq!(snapshot_shared(&shared), Some(Vec::new()));
    assert_eq!(ingest_shared(&writer, "1.5,2.5".to_string(), number), Ingested::Appended);
    assert_eq!(ingest_shared(&writer, "1.5,2.5,bad".to_string(), number), Ingested::Unparsed);
    assert_eq!(
        ingest_shared(&writer, "7".to_string(), number),
        Ingested::Refused(AppendError::ChannelMismatch)
    );
    assert_eq!(append_shared(&writer, vec![3.5, 4.5]), Some(Ok(())));
    assert_eq!(append_shared(&writer, vec![]), Some(Err(AppendError::NoValues)));
    let snapshot = snapshot_shared(&shared).unwrap();
    assert_eq!(snapshot.len(), 2);
    assert_eq!(snapshot[0].len(), 2);
    assert_eq!(snapshot[1].len(), 2);
    assert_eq!(snapshot[0].iter().map(|s| s.y).collect::<Vec<f64>>(), vec![1.5, 3.5]);
    assert_eq!(snapshot[1].iter().map(|s| s.y).collect::<Vec<f64>>(), vec![2.5, 4.5]);
    assert_eq!(snapshot[0][0].x, snapshot[1][0].x);
    assert_eq!(snapshot[0][1].x, snapshot[1][1].x);
    assert_eq!(snapshot_shared(&writer), Some(snapshot));
}

#[test]
fn nothing_is_done_without_a_guard() {
    assert_eq!(snapshot_under::<f64>(None), None);
    assert_eq!(append_under::<f64>(None, vec![1.0]), None);
}

#[test]
fn guard_gives_access_to_the_store() {
    let shared = Mutex::new(Measurements::<f64>::new(60_000));
    assert_eq!(snapshot_under(shared.lock().ok()), Some(Vec::new()));
    assert_eq!(append_under(shared.lock().ok(), vec![1.0, 2.0]), Some(Ok(())));
    assert_eq!(append_under(shared.lock().ok(), vec![]), Some(Err(AppendError::NoValues)));
    assert_eq!(
        append_under(shared.lock().ok(), vec![1.0]),
        Some(Err(AppendError::ChannelMismatch))
    );
    let snapshot = snapshot_under(shared.lock().ok()).unwrap();
    assert_eq!(snapshot.len(), 2);
    assert_eq!(snapshot[0].iter().map(|s| s.y).collect::<Vec<f64>>(), vec![1.0]);
    assert_eq!(snapshot[1].iter().map(|s| s.y).collect::<Vec<f64>>(), vec![2.0]);
    assert_eq!(snapshot_shared(&shared), Some(snapshot));
}
