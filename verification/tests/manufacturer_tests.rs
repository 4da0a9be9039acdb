use timelapse_core::archive::get_dir_structure;
use timelapse_core::buffers::PicsFolders;
use timelapse_core::manufacturer::FillState;
use timelapse_core::manufacturer::TimeLapseManufacturer;

#[test]
fn fresh_orchestrator_is_idle_on_buffer_a() {
    let m = TimeLapseManufacturer::new();
    assert_eq!(m.curr_tmp_pic_recording_folder, PicsFolders::A);
    assert_eq!(m.folder_a, FillState::Empty);
    assert_eq!(m.folder_b, FillState::Empty);
    assert_eq!(m.picture_taking_day, None);
    assert!(!m.encoding_active);
}

#[test]
fn one_window_cycle_keeps_buffers_disjoint() {
    let mut m = TimeLapseManufacturer::new();
    m.start_taking_pictures(14);
    assert_eq!(m.folder_a, FillState::Filling);
    assert_eq!(m.picture_taking_day, Some(14));
    assert_eq!(m.folder_b, FillState::Empty);

    m.wait_taking_pictures();
    assert_eq!(m.folder_a, FillState::Full);
    assert_eq!(m.picture_taking_day, None);

    m.switch_recording_folder();
    assert_eq!(m.curr_tmp_pic_recording_folder, PicsFolders::B);

    m.start_taking_pictures(14);
    assert_eq!(m.folder_b, FillState::Filling);
    assert_eq!(m.folder_a, FillState::Full);

    let job = m.start_encoding_thread(
        "/mnt/skynet/pics/a".to_string(),
        "/mnt/skynet/encoding/today/50400.mp4".to_string(),
        "50400.mp4".to_string(),
    );
    assert_eq!(m.folder_a, FillState::Encoding);
    assert!(m.encoding_active);
    // The filling buffer is never the encoding one.
    assert_eq!(m.folder_b, FillState::Filling);
    assert_eq!(job.output.filename, "50400.mp4");
    assert_eq!(job.output.output_path_with_filename, "/mnt/skynet/encoding/today/50400.mp4");
    assert_eq!(
        job.args,
        vec![
            "-framerate",
            "10",
            "-i",
            "/mnt/skynet/pics/a/%05d.jpg",
            "-video_size",
            "1640:1232",
            "-vf",
            "fps=10",
            "-preset",
            "slow",
            "-crf",
            "32",
            "/mnt/skynet/encoding/today/50400.mp4",
        ]
    );

    m.finish_encoding();
    assert_eq!(m.folder_a, FillState::Empty);
    assert!(!m.encoding_active);
}

#[test]
fn encode_plan_names_the_window_start() {
    let mut m = TimeLapseManufacturer::new();
    m.start_taking_pictures(1);
    m.wait_taking_pictures();
    m.switch_recording_folder();
    // Active is now "b"; the just-filled buffer is "a". The clip carries
    // the finished window's start timestamp, as its completion signalled.
    let p = m.encode_last_hour_plan(100000);
    assert_eq!(p.img_dir, "/mnt/skynet/pics/a");
    assert_eq!(p.tmp_output_dir, "/mnt/skynet/encoding/today");
    assert_eq!(p.encoded_movie_filename, "100000.mp4");
    assert_eq!(p.output_path_with_filename, "/mnt/skynet/encoding/today/100000.mp4");
}

#[test]
fn today_folder_created_only_when_missing() {
    let empty = get_dir_structure(&vec![]).unwrap();
    let p = TimeLapseManufacturer::today_folder_create_path(&empty, 5555);
    assert_eq!(p, Some("/mnt/skynet/movies/5555".to_string()));

    let listing = vec![timelapse_core::archive::RootEntry {
        name: "5555".to_string(),
        is_file: false,
        children: vec![],
    }];
    let with_today = get_dir_structure(&listing).unwrap();
    assert_eq!(TimeLapseManufacturer::today_folder_create_path(&with_today, 9999), None);
}

#[test]
fn rollover_fires_exactly_on_day_change() {
    assert!(!TimeLapseManufacturer::rollover_needed(12, 12));
    assert!(TimeLapseManufacturer::rollover_needed(31, 1));
}
