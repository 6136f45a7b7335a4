use serial_monitor::app::App;
use serial_monitor::shared::{append_shared, snapshot_shared};

#[test]
fn new_app_is_idle() {
    let app: App<f64> = App::new(1000, Some(vec![-1.0, 1.0]), true);
    assert!(app.savable());
    assert_eq!(app.include_y(), &Some(vec![-1.0, 1.0]));
    assert_eq!(app.lines(), Some(Vec::new()));
    let plain: App<f64> = App::new(1000, None, false);
    assert!(!plain.savable());
    assert_eq!(plain.include_y(), &None);
}

#[test]
fn shortcut_arms_one_capture() {
    let mut app: App<f64> = App::new(1000, None, true);
    assert!(!app.frame_completed(true));
    assert!(app.shortcut_pressed());
    assert!(app.frame_completed(true));
    assert!(!app.frame_completed(true));
}

#[test]
fn two_presses_arm_one_capture() {
    let mut app: App<f64> = App::new(1000, None, true);
    assert!(app.shortcut_pressed());
    assert!(app.shortcut_pressed());
    assert!(app.frame_completed(true));
    assert!(!app.frame_completed(true));
}

#[test]
fn frame_without_screenshot_uses_the_capture_up() {
    let mut app: App<f64> = App::new(1000, None, true);
    assert!(app.shortcut_pressed());
    assert!(!app.frame_completed(false));
    assert!(!app.frame_completed(true));
}

#[test]
fn shortcut_does_nothing_where_saving_is_off() {
    let mut app: App<f64> = App::new(1000, None, false);
    assert!(!app.shortcut_pressed());
    assert!(!app.frame_completed(true));
}

#[test]
fn app_draws_what_the_handle_appends() {
    let app: App<f64> = App::new(60_000, None, false);
    let writer = app.measurements();
    assert_eq!(append_shared(&writer, vec![1.0, 2.0]), Some(Ok(())));
    assert_eq!(append_shared(&writer, vec![3.0, 4.0]), Some(Ok(())));
    let lines = app.lines().unwrap();
    assert_eq!(lines.len(), 2);
    assert_eq!(lines[0].iter().map(|s| s.y).collect::<Vec<f64>>(), vec![1.0, 3.0]);
    assert_eq!(lines[1].iter().map(|s| s.y).collect::<Vec<f64>>(), vec![2.0, 4.0]);
    assert_eq!(lines[0].len(), lines[1].len());
    assert_eq!(app.lines(), Some(lines));
}

#[test]
fn handles_reach_the_same_store() {
    let app: App<f64> = App::new(0, None, false);
    let first = app.measurements();
    let second = app.measurements();
    assert!(std::sync::Arc::ptr_eq(&first, &second));
    assert_eq!(append_shared(&first, vec![1.0]), Some(Ok(())));
    assert_eq!(snapshot_shared(&second).map(|s| s.len()), Some(1));
    assert_eq!(app.lines().map(|s| s.len()), Some(1));
}
