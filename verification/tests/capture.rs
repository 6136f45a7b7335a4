use serial_monitor::app::App;
use serial_monitor::capture::{written, SaveError, Screenshot, Timestamp};

fn stamp() -> Timestamp {
    Timestamp { year: 2023, month: 4, day: 9, hour: 7, minute: 5, second: 30 }
}

fn decode(file: &[u8]) -> (u32, u32, png::ColorType, png::BitDepth, Vec<u8>) {
    let decoder = png::Decoder::new(file);
    let mut reader = decoder.read_info().unwrap();
    let mut pixels = vec![0; reader.output_buffer_size()];
    let info = reader.next_frame(&mut pixels).unwrap();
    pixels.truncate(info.buffer_size());
    (info.width, info.height, info.color_type, info.bit_depth, pixels)
}

#[test]
fn path_is_named_after_the_time() {
    assert_eq!(stamp().path(), "imgs/230409_070530.png");
    let late = Timestamp { year: 1999, month: 12, day: 31, hour: 23, minute: 59, second: 59 };
    assert_eq!(late.path(), "imgs/991231_235959.png");
    let early = Timestamp { year: 2000, month: 1, day: 1, hour: 0, minute: 0, second: 0 };
    assert_eq!(early.path(), "imgs/000101_000000.png");
}

#[test]
fn path_takes_the_last_two_digits() {
    let odd = Timestamp { year: 12345, month: 107, day: 0, hour: 100, minute: 9, second: 61 };
    assert_eq!(odd.path(), "imgs/450700_000961.png");
}

#[test]
fn frame_is_written_as_png() {
    let rgba: Vec<u8> = vec![
        255, 0, 0, 255, 0, 255, 0, 255, 0, 0, 255, 255, //
        1, 2, 3, 4, 5, 6, 7, 8, 9, 10, 11, 12,
    ];
    let frame = Screenshot { width: 3, height: 2, rgba: rgba.clone() };
    let file = frame.encode().unwrap();
    assert_eq!(&file[..8], &[137, 80, 78, 71, 13, 10, 26, 10]);
    assert_ne!(file, rgba);
    let (width, height, color, depth, pixels) = decode(&file);
    assert_eq!(width, 3);
    assert_eq!(height, 2);
    assert!(matches!(color, png::ColorType::Rgba));
    assert!(matches!(depth, png::BitDepth::Eight));
    assert_eq!(pixels, rgba);
    assert_eq!(frame.encode().unwrap(), file);
}

#[test]
fn saved_plot_has_path_and_bytes() {
    let app: App<f64> = App::new(1000, None, true);
    let frame = Screenshot { width: 1, height: 1, rgba: vec![10, 20, 30, 40] };
    let saved = app.save_current_plot(&frame, &stamp()).unwrap();
    assert_eq!(saved.path, "imgs/230409_070530.png");
    assert_eq!(saved.png, frame.encode().unwrap());
    let (width, height, _, _, pixels) = decode(&saved.png);
    assert_eq!((width, height), (1, 1));
    assert_eq!(pixels, vec![10, 20, 30, 40]);
}

#[test]
fn frame_without_pixels_is_refused() {
    let flat = Screenshot { width: 0, height: 4, rgba: Vec::new() };
    assert_eq!(flat.encode(), Err(SaveError::EmptyFrame));
    let thin = Screenshot { width: 4, height: 0, rgba: Vec::new() };
    assert_eq!(thin.encode(), Err(SaveError::EmptyFrame));
    let none = Screenshot { width: 0, height: 0, rgba: vec![1, 2, 3, 4] };
    assert_eq!(none.encode(), Err(SaveError::EmptyFrame));
}

#[test]
fn frame_with_wrong_buffer_is_refused() {
    let short = Screenshot { width: 2, height: 2, rgba: vec![0; 15] };
    assert_eq!(short.encode(), Err(SaveError::BufferMismatch));
    let long = Screenshot { width: 2, height: 2, rgba: vec![0; 17] };
    assert_eq!(long.encode(), Err(SaveError::BufferMismatch));
    let app: App<f64> = App::new(1000, None, true);
    assert!(matches!(app.save_current_plot(&short, &stamp()), Err(SaveError::BufferMismatch)));
}

#[test]
fn frame_too_wide_is_refused() {
    if let Ok(wide) = usize::try_from(u32::MAX as u64 + 1) {
        let frame = Screenshot { width: wide, height: 1, rgba: Vec::new() };
        assert_eq!(frame.encode(), Err(SaveError::FrameTooLarge));
        let frame = Screenshot { width: 1, height: wide, rgba: Vec::new() };
        assert_eq!(frame.encode(), Err(SaveError::FrameTooLarge));
    }
    let widest = Screenshot { width: u32::MAX as usize, height: 1, rgba: Vec::new() };
    assert_eq!(widest.encode(), Err(SaveError::BufferMismatch));
}

#[test]
fn encoder_failure_is_reported() {
    assert_eq!(written(Err(png::EncodingError::LimitsExceeded)), Err(SaveError::Encoder));
    assert_eq!(written(Ok(vec![1, 2, 3])), Ok(vec![1, 2, 3]));
}
