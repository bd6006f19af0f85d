use squirrel_scanner::camera::{
    capture_plan, frame_gaps_ms, video_device_path, FrameClock, CAPTURE_FOURCC,
    LOOP_COUNTER_MAX,
};

#[test]
fn device_path_default_and_configured() {
    assert_eq!(video_device_path(None), "/dev/video2");
    assert_eq!(video_device_path(Some("/dev/video0".to_string())), "/dev/video0");
}

#[test]
fn capture_plan_accepts_yuyv() {
    assert_eq!(CAPTURE_FOURCC, *b"YUYV");
    let p = capture_plan(*b"YUYV", 1920 * 1080 * 2).unwrap();
    assert_eq!((p.width, p.height, p.bytes_per_pixel), (1920, 1080, 2));
    let p = capture_plan(*b"YUYV", 100).unwrap();
    assert_eq!(p.bytes_per_pixel, 0);
}

#[test]
fn capture_plan_refuses_other_formats() {
    assert!(capture_plan(*b"MJPG", 4147200).is_none());
    assert!(capture_plan(*b"YUYW", 4147200).is_none());
}

#[test]
fn frame_clock_records_in_ring() {
    let mut c = FrameClock::new(5);
    assert_eq!(c.counter(), 0);
    assert_eq!(c.frame_times(), vec![5; 8]);
    let mut reports = Vec::new();
    for t in 1..=12i128 {
        reports.push(c.record_frame(t * 1000));
    }
    assert_eq!(c.counter(), 12);
    // slot i holds the frame of the last iteration with counter % 8 == i
    assert_eq!(c.frame_times(), vec![8000, 9000, 10000, 11000, 12000, 5000, 6000, 7000]);
    let due: Vec<usize> = (0..12).filter(|i| reports[*i]).map(|i| i + 1).collect();
    assert_eq!(due, vec![6, 12]);
}

#[test]
fn frame_clock_counter_wraps() {
    let mut c = FrameClock::new(0);
    let mut n = 0usize;
    while n < LOOP_COUNTER_MAX {
        c.record_frame(1);
        n += 1;
    }
    assert_eq!(c.counter(), LOOP_COUNTER_MAX);
    // 100000001 wraps to 0, which is a multiple of the report period
    assert!(c.record_frame(42));
    assert_eq!(c.counter(), 0);
    assert_eq!(c.frame_times()[0], 42);
}

#[test]
fn gaps_in_milliseconds() {
    let ms = 1_000_000i128;
    let times = [0, 33 * ms, 66 * ms + 999_999, 50 * ms, 100 * ms];
    assert_eq!(frame_gaps_ms(&times), vec![33, 33, 0, 50]);
    assert_eq!(frame_gaps_ms(&[7]), Vec::<u128>::new());
}

#[test]
fn gaps_across_the_epoch_and_extremes() {
    assert_eq!(frame_gaps_ms(&[-1_500_000, 1_500_000]), vec![3]);
    let g = frame_gaps_ms(&[i128::MIN, i128::MAX]);
    assert_eq!(g, vec![u128::MAX / 1_000_000]);
}
