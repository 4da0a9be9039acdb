//! The exact command lines handed to the external video encoder: one fixed
//! profile that turns a buffer of frames into an hourly clip, and one that
//! concatenates a day's clips without re-encoding.

use vstd::prelude::*;
use crate::camera::seq_views;

verus! {

/// The scratch area in-flight encode and stitch outputs land in before the
/// rename that publishes them.
pub open spec fn encoding_folder_view() -> Seq<char> {
    "/mnt/skynet/encoding"@
}

pub fn encoding_folder() -> (r: &'static str)
    ensures
        r@ == encoding_folder_view(),
{
    "/mnt/skynet/encoding"
}

/// The fixed encode profile: frame-rate 10, the buffer's zero-padded frame
/// pattern as input, 1640x1232, the slow preset at quality 32.
pub open spec fn encoding_args_view(img_dir: Seq<char>, output: Seq<char>) -> Seq<Seq<char>> {
    seq![
        "-framerate"@,
        "10"@,
        "-i"@,
        img_dir + "/%05d.jpg"@,
        "-video_size"@,
        "1640:1232"@,
        "-vf"@,
        "fps=10"@,
        "-preset"@,
        "slow"@,
        "-crf"@,
        "32"@,
        output,
    ]
}

pub fn encoding_args(img_dir: &str, output_path_with_filename: &str) -> (r: Vec<String>)
    ensures
        seq_views(r@) == encoding_args_view(img_dir@, output_path_with_filename@),
{
    let mut pattern = String::from_str(img_dir);
    pattern.append("/%05d.jpg");
    let mut v: Vec<String> = Vec::new();
    v.push(String::from_str("-framerate"));
    v.push(String::from_str("10"));
    v.push(String::from_str("-i"));
    v.push(pattern);
    v.push(String::from_str("-video_size"));
    v.push(String::from_str("1640:1232"));
    v.push(String::from_str("-vf"));
    v.push(String::from_str("fps=10"));
    v.push(String::from_str("-preset"));
    v.push(String::from_str("slow"));
    v.push(String::from_str("-crf"));
    v.push(String::from_str("32"));
    v.push(String::from_str(output_path_with_filename));
    assert(seq_views(v@) =~= encoding_args_view(img_dir@, output_path_with_filename@));
    v
}

/// The concatenate-without-re-encode profile used at day rollover, reading
/// the list file the stitch plan wrote.
pub open spec fn stitch_args_view(out_path: Seq<char>) -> Seq<Seq<char>> {
    seq![
        "-f"@,
        "concat"@,
        "-safe"@,
        "0"@,
        "-i"@,
        "files.txt"@,
        "-c"@,
        "copy"@,
        out_path,
    ]
}

pub fn stitch_args(out_path: &str) -> (r: Vec<String>)
    ensures
        seq_views(r@) == stitch_args_view(out_path@),
{
    let mut v: Vec<String> = Vec::new();
    v.push(String::from_str("-f"));
    v.push(String::from_str("concat"));
    v.push(String::from_str("-safe"));
    v.push(String::from_str("0"));
    v.push(String::from_str("-i"));
    v.push(String::from_str("files.txt"));
    v.push(String::from_str("-c"));
    v.push(String::from_str("copy"));
    v.push(String::from_str(out_path));
    assert(seq_views(v@) =~= stitch_args_view(out_path@));
    v
}

} // verus!
