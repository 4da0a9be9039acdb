use timelapse_core::archive::ChildEntry;
use timelapse_core::archive::RootEntry;
use timelapse_core::streaming::dir_curr_files;
use timelapse_core::streaming::filename_to_date;
use timelapse_core::streaming::FilenameError;
use timelapse_core::streaming::PastDayMovies;
use timelapse_core::streaming::TodayMovie;

#[test]
fn filename_to_date_reads_the_timestamp_back() {
    let d = filename_to_date("86400.mp4").unwrap();
    assert_eq!(d.timestamp, 86400);
    assert!((1..=12).contains(&d.month));
    assert!((1..=31).contains(&d.day));
    assert!(d.hour <= 23);
    // One day after the epoch, any local reading stays in these years.
    assert!((1969..=1970).contains(&d.year));
}

#[test]
fn filename_errors_are_classified() {
    assert_eq!(filename_to_date("86400.jpg").unwrap_err(), FilenameError::NotMp4);
    assert_eq!(filename_to_date("86400"), Err(FilenameError::NotMp4));
    assert_eq!(filename_to_date("abc.mp4").unwrap_err(), FilenameError::NotATimestamp);
    assert_eq!(filename_to_date("-5.mp4").unwrap_err(), FilenameError::NotATimestamp);
    assert_eq!(
        filename_to_date("18446744073709551615.mp4").unwrap_err(),
        FilenameError::TimestampOutOfRange
    );
}

#[test]
fn today_movie_carries_relative_path_and_hour_label() {
    let m = TodayMovie::new("86400", "90000.mp4").unwrap();
    assert_eq!(m.filepath, "86400/90000.mp4");
    assert!(m.hour <= 23);
    assert_eq!(m.formatted_date, format!("{}h", m.hour));
}

#[test]
fn past_day_movie_keeps_name_and_timestamp() {
    let m = PastDayMovies::new("86400.mp4").unwrap();
    assert_eq!(m.filename, "86400.mp4");
    assert_eq!(m.timestamp, 86400);
    let parts: Vec<&str> = m.formatted_date.split('-').collect();
    assert_eq!(parts.len(), 3);
    let day: u32 = parts[0].parse().unwrap();
    let month: u32 = parts[1].parse().unwrap();
    let year: i32 = parts[2].parse().unwrap();
    assert!((1..=31).contains(&day));
    assert!((1..=12).contains(&month));
    assert!((1969..=1970).contains(&year));
}

#[test]
fn lists_files_and_directory_clips() {
    let listing = vec![
        RootEntry { name: "86400.mp4".to_string(), is_file: true, children: vec![] },
        RootEntry {
            name: "172800".to_string(),
            is_file: false,
            children: vec![
                ChildEntry { name: "180000.mp4".to_string(), is_file: true },
                ChildEntry { name: "readme.txt".to_string(), is_file: true },
                ChildEntry { name: "190000.mp4".to_string(), is_file: true },
            ],
        },
        RootEntry { name: "notes.txt".to_string(), is_file: true, children: vec![] },
    ];
    let av = dir_curr_files(&listing).unwrap();
    assert_eq!(av.past_day_movies.len(), 1);
    assert_eq!(av.past_day_movies[0].filename, "86400.mp4");
    assert_eq!(av.past_day_movies[0].timestamp, 86400);
    assert_eq!(av.today_movies.len(), 2);
    assert_eq!(av.today_movies[0].filepath, "172800/180000.mp4");
    assert_eq!(av.today_movies[1].filepath, "172800/190000.mp4");
}

#[test]
fn bad_name_in_listing_is_reported() {
    let listing = vec![RootEntry { name: "oops.mp4".to_string(), is_file: true, children: vec![] }];
    assert_eq!(dir_curr_files(&listing).unwrap_err(), FilenameError::NotATimestamp);

    let listing = vec![RootEntry {
        name: "day".to_string(),
        is_file: false,
        children: vec![ChildEntry { name: "bad.mp4".to_string(), is_file: true }],
    }];
    assert_eq!(dir_curr_files(&listing).unwrap_err(), FilenameError::NotATimestamp);
}
