use timelapse_core::consumer::consumer_encode_args;
use timelapse_core::consumer::consumer_image_path;
use timelapse_core::consumer::consumer_video_path;
use timelapse_core::consumer::pace_sleep_millis;
use timelapse_core::consumer::remove_file_over_max;
use timelapse_core::consumer::round_suffix;
use timelapse_core::consumer::MovieFile;

fn files(stamps: &[u64]) -> Vec<MovieFile> {
    stamps
        .iter()
        .map(|t| MovieFile { path: format!("/videos/{}.mp4", t), filename_no_extension: *t })
        .collect()
}

#[test]
fn below_the_cap_nothing_is_removed() {
    assert_eq!(remove_file_over_max(&files(&[5; 19])), None);
    assert_eq!(remove_file_over_max(&vec![]), None);
}

#[test]
fn at_the_cap_the_oldest_goes() {
    let mut stamps: Vec<u64> = (100..120).collect();
    stamps[7] = 3;
    let fs = files(&stamps);
    assert_eq!(remove_file_over_max(&fs), Some(7));
}

#[test]
fn fetch_rounds_alternate_suffixes_and_pad_to_four() {
    assert_eq!(round_suffix(true), "_a");
    assert_eq!(round_suffix(false), "_b");
    assert_eq!(consumer_image_path(3, "_a"), "/mnt/SkynetStorage/imgs/image0003_a.jpg");
    assert_eq!(consumer_image_path(12345, "_b"), "/mnt/SkynetStorage/imgs/image12345_b.jpg");
    assert_eq!(consumer_video_path(1650000000), "/mnt/SkynetStorage/videos/1650000000.mp4");
}

#[test]
fn consumer_encode_command_is_fixed() {
    assert_eq!(
        consumer_encode_args("_a", "/mnt/SkynetStorage/videos/99.mp4"),
        vec![
            "-framerate",
            "10",
            "-i",
            "/mnt/SkynetStorage/imgs/image%04d_a.jpg",
            "-video_size",
            "1640:1232",
            "-vf",
            "fps=10",
            "/mnt/SkynetStorage/videos/99.mp4",
        ]
    );
}

#[test]
fn fetch_pacing_fills_the_half_second() {
    assert_eq!(pace_sleep_millis(0), Some(500));
    assert_eq!(pace_sleep_millis(499), Some(1));
    assert_eq!(pace_sleep_millis(500), None);
    assert_eq!(pace_sleep_millis(2000), None);
}

#[test]
fn ties_pick_the_first_oldest() {
    let mut stamps: Vec<u64> = vec![50; 20];
    stamps[4] = 2;
    stamps[11] = 2;
    let fs = files(&stamps);
    assert_eq!(remove_file_over_max(&fs), Some(4));
}
