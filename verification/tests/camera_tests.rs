use timelapse_core::buffers::PicsFolders;
use timelapse_core::camera::capture_poll_step;
use timelapse_core::camera::frame_path;
use timelapse_core::camera::raspistill_args;
use timelapse_core::camera::should_continue_window;
use timelapse_core::camera::tmp_file_path;
use timelapse_core::camera::Camera;
use timelapse_core::camera::PollOutcome;

#[test]
fn buffer_paths_and_alternation() {
    assert_eq!(PicsFolders::A.path(), "/mnt/skynet/pics/a");
    assert_eq!(PicsFolders::B.path(), "/mnt/skynet/pics/b");
    assert_eq!(PicsFolders::A.to_string(), "a");
    assert_eq!(PicsFolders::A.get_other_one(), PicsFolders::B);
    assert_eq!(PicsFolders::B.get_other_one(), PicsFolders::A);
    let mut f = PicsFolders::A;
    f.switch_folders();
    assert_eq!(f, PicsFolders::B);
    f.switch_folders();
    assert_eq!(f, PicsFolders::A);
}

#[test]
fn capture_process_profile_is_fixed() {
    assert_eq!(
        raspistill_args(),
        vec![
            "-q",
            "7",
            "-w",
            "1640",
            "-h",
            "1232",
            "-s",
            "-n",
            "-ex",
            "sports",
            "-a",
            "8",
            "-a",
            "%d-%m-%Y %X",
            "-o",
            "/mnt/ram/image_latest.jpg",
        ]
    );
    assert_eq!(tmp_file_path(), "/mnt/ram/image_latest.jpg");
}

#[test]
fn trigger_signal_names_the_process() {
    let c = Camera::new(4711);
    assert_eq!(c.trigger_args(), vec!["-USR1", "4711"]);
}

#[test]
fn poll_returns_first_nonempty_read() {
    match capture_poll_step(0, Some(vec![1, 2, 3])) {
        PollOutcome::Frame(bytes) => assert_eq!(bytes, vec![1, 2, 3]),
        _ => panic!("expected a frame"),
    }
    assert!(matches!(capture_poll_step(9, Some(vec![9])), PollOutcome::Frame(_)));
}

#[test]
fn poll_retries_within_budget_and_aborts_after() {
    assert!(matches!(capture_poll_step(0, None), PollOutcome::Retry));
    assert!(matches!(capture_poll_step(8, None), PollOutcome::Retry));
    assert!(matches!(capture_poll_step(9, None), PollOutcome::Abort));
    assert!(matches!(capture_poll_step(3, Some(vec![])), PollOutcome::Retry));
    assert!(matches!(capture_poll_step(9, Some(vec![])), PollOutcome::Abort));
}

#[test]
fn window_runs_through_its_hour_with_a_frame_floor() {
    assert!(should_continue_window(13, 13, 1000));
    assert!(should_continue_window(14, 13, 4));
    assert!(!should_continue_window(14, 13, 5));
    assert!(should_continue_window(13, 13, 0));
}

#[test]
fn frame_paths_are_dense_and_zero_padded() {
    assert_eq!(frame_path(&PicsFolders::A, 0), "/mnt/skynet/pics/a/00000.jpg");
    assert_eq!(frame_path(&PicsFolders::B, 17), "/mnt/skynet/pics/b/00017.jpg");
    assert_eq!(frame_path(&PicsFolders::A, 123456), "/mnt/skynet/pics/a/123456.jpg");
}
