use timelapse_core::archive::get_dir_structure;
use timelapse_core::archive::ChildEntry;
use timelapse_core::archive::RootEntry;
use timelapse_core::encoder::stitch_args;
use timelapse_core::stitch::stitch;

fn listing_with_today(children: Vec<ChildEntry>) -> Vec<RootEntry> {
    vec![RootEntry { name: "86400".to_string(), is_file: false, children }]
}

fn child(name: &str) -> ChildEntry {
    ChildEntry { name: name.to_string(), is_file: true }
}

#[test]
fn no_accumulation_means_no_stitch() {
    let ds = get_dir_structure(&vec![]).unwrap();
    assert!(stitch(&ds).is_none());
}

#[test]
fn empty_accumulation_is_left_alone() {
    let ds = get_dir_structure(&listing_with_today(vec![])).unwrap();
    assert!(ds.today_folder.is_some());
    assert!(stitch(&ds).is_none());
}

#[test]
fn stitch_lists_clips_in_chronological_order() {
    let ds = get_dir_structure(&listing_with_today(vec![
        child("93600.mp4"),
        child("90000.mp4"),
        child("97200.mp4"),
    ]))
    .unwrap();
    let plan = stitch(&ds).unwrap();
    // Oldest clip first, whatever order the directory listed them in.
    assert_eq!(
        plan.list_file_contents,
        "file '/mnt/skynet/movies/86400/90000.mp4'\nfile '/mnt/skynet/movies/86400/93600.mp4'\nfile '/mnt/skynet/movies/86400/97200.mp4'\n"
    );
    assert_eq!(plan.out_path, "/mnt/skynet/encoding/86400.mp4");
    assert_eq!(plan.today_folder_path, "/mnt/skynet/movies/86400");
    assert_eq!(plan.dest_path, "/mnt/skynet/movies/86400.mp4");
}

#[test]
fn single_clip_stitch() {
    let ds = get_dir_structure(&listing_with_today(vec![child("90000.mp4")])).unwrap();
    let plan = stitch(&ds).unwrap();
    assert_eq!(plan.list_file_contents, "file '/mnt/skynet/movies/86400/90000.mp4'\n");
}

#[test]
fn stitch_command_concatenates_without_reencode() {
    assert_eq!(
        stitch_args("/mnt/skynet/encoding/86400.mp4"),
        vec![
            "-f",
            "concat",
            "-safe",
            "0",
            "-i",
            "files.txt",
            "-c",
            "copy",
            "/mnt/skynet/encoding/86400.mp4",
        ]
    );
}
