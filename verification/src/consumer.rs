//! Disk-budget rotation on the archive consumer's side: once the collected
//! movie files reach the cap, the oldest one — the file with the smallest
//! timestamp name — is chosen for deletion.

use vstd::prelude::*;
use crate::camera::seq_views;
use crate::digits::dec_rep;
use crate::digits::padded;
use crate::digits::u64_to_padded_string;
use crate::digits::u64_to_string;

verus! {

/// Where the consumer stores fetched frames and finished videos.
pub open spec fn consumer_image_dir_view() -> Seq<char> {
    "/mnt/SkynetStorage/imgs"@
}

pub open spec fn consumer_video_dir_view() -> Seq<char> {
    "/mnt/SkynetStorage/videos"@
}

/// The buffer suffix frames of the current fetch round carry; rounds
/// alternate between the two.
pub open spec fn round_suffix_view(a_round: bool) -> Seq<char> {
    if a_round {
        "_a"@
    } else {
        "_b"@
    }
}

pub fn round_suffix(a_round: bool) -> (r: &'static str)
    ensures
        r@ == round_suffix_view(a_round),
{
    if a_round {
        "_a"
    } else {
        "_b"
    }
}

/// Where fetched frame `i` of the round with the given suffix lands: a
/// dense four-wide zero-padded sequence.
pub open spec fn consumer_image_path_view(i: nat, suffix: Seq<char>) -> Seq<char> {
    consumer_image_dir_view() + "/image"@ + padded(i, 4) + suffix + ".jpg"@
}

pub fn consumer_image_path(i: u64, suffix: &str) -> (r: String)
    ensures
        r@ == consumer_image_path_view(i as nat, suffix@),
{
    let mut r = String::from_str("/mnt/SkynetStorage/imgs");
    r.append("/image");
    let num = u64_to_padded_string(i, 4);
    r.append(num.as_str());
    r.append(suffix);
    r.append(".jpg");
    r
}

/// Where the video encoded from one round lands, named by its timestamp.
pub open spec fn consumer_video_path_view(ts: nat) -> Seq<char> {
    consumer_video_dir_view() + "/"@ + dec_rep(ts) + ".mp4"@
}

pub fn consumer_video_path(ts: u64) -> (r: String)
    ensures
        r@ == consumer_video_path_view(ts as nat),
{
    let mut r = String::from_str("/mnt/SkynetStorage/videos");
    r.append("/");
    let num = u64_to_string(ts);
    r.append(num.as_str());
    r.append(".mp4");
    r
}

/// The consumer's encode profile over one round's frame pattern.
pub open spec fn consumer_encode_args_view(suffix: Seq<char>, out: Seq<char>) -> Seq<
    Seq<char>,
> {
    seq![
        "-framerate"@,
        "10"@,
        "-i"@,
        consumer_image_dir_view() + "/image%04d"@ + suffix + ".jpg"@,
        "-video_size"@,
        "1640:1232"@,
        "-vf"@,
        "fps=10"@,
        out,
    ]
}

pub fn consumer_encode_args(img_suffix: &str, out_path: &str) -> (r: Vec<String>)
    ensures
        seq_views(r@) == consumer_encode_args_view(img_suffix@, out_path@),
{
    let mut pattern = String::from_str("/mnt/SkynetStorage/imgs");
    pattern.append("/image%04d");
    pattern.append(img_suffix);
    pattern.append(".jpg");
    let mut v: Vec<String> = Vec::new();
    v.push(String::from_str("-framerate"));
    v.push(String::from_str("10"));
    v.push(String::from_str("-i"));
    v.push(pattern);
    v.push(String::from_str("-video_size"));
    v.push(String::from_str("1640:1232"));
    v.push(String::from_str("-vf"));
    v.push(String::from_str("fps=10"));
    v.push(String::from_str(out_path));
    assert(seq_views(v@) =~= consumer_encode_args_view(img_suffix@, out_path@));
    v
}

/// The fetch pacing rule: a round that came back in under half a second
/// sleeps the rest of it off.
pub fn pace_sleep_millis(elapsed: u64) -> (r: Option<u64>)
    ensures
        match r {
            Some(ms) => elapsed < 500 && ms == 500 - elapsed,
            None => elapsed >= 500,
        },
{
    if elapsed < 500 {
        Some(500 - elapsed)
    } else {
        None
    }
}

/// One collected movie file: its path and its timestamp name.
pub struct MovieFile {
    pub path: String,
    pub filename_no_extension: u64,
}

/// The rotation decision: with fewer than twenty files nothing is removed;
/// otherwise the first file carrying the smallest timestamp is.
pub fn remove_file_over_max(files: &Vec<MovieFile>) -> (r: Option<usize>)
    ensures
        match r {
            None => files@.len() < 20,
            Some(i) => {
                &&& files@.len() >= 20
                &&& 0 <= i < files@.len()
                &&& forall|k: int|
                    0 <= k < files@.len() ==> files@[i as int].filename_no_extension
                        <= files@[k].filename_no_extension
                &&& forall|k: int|
                    0 <= k < i ==> files@[k].filename_no_extension > files@[
                        i as int
                    ].filename_no_extension
            },
        },
{
    if files.len() < 20 {
        return None;
    }
    let mut oldest: usize = 0;
    let mut k: usize = 1;
    while k < files.len()
        invariant
            files@.len() >= 20,
            0 <= oldest < k <= files@.len(),
            forall|j: int|
                0 <= j < k ==> files@[oldest as int].filename_no_extension
                    <= files@[j].filename_no_extension,
            forall|j: int|
                0 <= j < oldest ==> files@[j].filename_no_extension > files@[
                    oldest as int
                ].filename_no_extension,
        decreases files@.len() - k,
    {
        if files[k].filename_no_extension < files[oldest].filename_no_extension {
            oldest = k;
        }
        k = k + 1;
    }
    Some(oldest)
}

} // verus!
