//! The whole first day of an orchestrator run, played against the archive
//! model: an empty root, two same-day capture windows, then a window that
//! crosses midnight and triggers the stitch.

use timelapse_core::archive::get_dir_structure;
use timelapse_core::archive::ChildEntry;
use timelapse_core::archive::RootEntry;
use timelapse_core::buffers::PicsFolders;
use timelapse_core::camera::frame_path;
use timelapse_core::camera::should_continue_window;
use timelapse_core::manufacturer::FillState;
use timelapse_core::manufacturer::TimeLapseManufacturer;
use timelapse_core::stitch::stitch;

#[test]
fn first_day_of_operation() {
    // Startup: archive root empty, both buffers empty, nothing pending.
    let mut root: Vec<RootEntry> = vec![];
    let ds = get_dir_structure(&root).unwrap();
    assert!(ds.movies.is_empty());
    assert!(ds.today_folder.is_none());

    let mut m = TimeLapseManufacturer::new();
    assert_eq!(m.folder_a, FillState::Empty);
    assert_eq!(m.folder_b, FillState::Empty);

    // First capture window on buffer "a", day 1, starting in hour 13.
    m.start_taking_pictures(1);
    let mut frames: u64 = 0;
    while should_continue_window(14, 13, frames) {
        let p = frame_path(&m.curr_tmp_pic_recording_folder, frames);
        assert!(p.starts_with("/mnt/skynet/pics/a/"));
        frames += 1;
    }
    // The hour had already turned, so exactly the five-frame floor ran.
    assert_eq!(frames, 5);
    m.wait_taking_pictures();

    // Swap and immediately open the next window (still day 1) on "b".
    m.switch_recording_folder();
    m.start_taking_pictures(1);
    assert_eq!(m.curr_tmp_pic_recording_folder, PicsFolders::B);

    // Encode the filled buffer "a"; the clip is named by the window's
    // start timestamp, the one the completion signal carried.
    let ts0: i64 = 100000;
    let plan = m.encode_last_hour_plan(ts0);
    assert_eq!(plan.img_dir, "/mnt/skynet/pics/a");
    assert_eq!(plan.encoded_movie_filename, "100000.mp4");
    let job = m.start_encoding_thread(
        plan.img_dir,
        plan.output_path_with_filename,
        plan.encoded_movie_filename,
    );
    assert_eq!(job.args[3], "/mnt/skynet/pics/a/%05d.jpg");
    m.finish_encoding();

    // No today folder yet: the orchestrator creates one named by "now".
    let ds = get_dir_structure(&root).unwrap();
    let create = TimeLapseManufacturer::today_folder_create_path(&ds, ts0);
    assert_eq!(create, Some("/mnt/skynet/movies/100000".to_string()));
    root.push(RootEntry { name: "100000".to_string(), is_file: false, children: vec![] });

    // The encoded clip is moved into it.
    root[0].children.push(ChildEntry { name: job.output.filename.clone(), is_file: true });
    let ds = get_dir_structure(&root).unwrap();
    let today = ds.today_folder.as_ref().unwrap();
    assert_eq!(today.timestamp, 100000);
    assert_eq!(today.today_movies.len(), 1);
    assert_eq!(today.today_movies[0].path, "/mnt/skynet/movies/100000/100000.mp4");

    // Same day: no stitch after the second window's clip arrives.
    assert!(!TimeLapseManufacturer::rollover_needed(1, 1));
    root[0].children.push(ChildEntry { name: "103600.mp4".to_string(), is_file: true });
    let ds = get_dir_structure(&root).unwrap();
    assert_eq!(ds.today_folder.as_ref().unwrap().today_movies.len(), 2);
    assert!(ds.movies.is_empty());

    // The next window starts on day 2: the rollover fires and the day is
    // stitched into one archive movie named by the accumulation.
    assert!(TimeLapseManufacturer::rollover_needed(1, 2));
    let plan = stitch(&ds).unwrap();
    // Chronological playback: the morning clip is listed first.
    assert_eq!(
        plan.list_file_contents,
        "file '/mnt/skynet/movies/100000/100000.mp4'\nfile '/mnt/skynet/movies/100000/103600.mp4'\n"
    );
    assert_eq!(plan.out_path, "/mnt/skynet/encoding/100000.mp4");
    assert_eq!(plan.dest_path, "/mnt/skynet/movies/100000.mp4");

    // The accumulation directory is deleted and the output renamed in.
    root.clear();
    root.push(RootEntry { name: "100000.mp4".to_string(), is_file: true, children: vec![] });
    let ds = get_dir_structure(&root).unwrap();
    assert!(ds.today_folder.is_none());
    assert_eq!(ds.movies.len(), 1);
    assert_eq!(ds.movies[0].timestamp, 100000);
}
