//! The capture side: the handle on the external still-image process, the
//! fixed command profile it is started with, and the decisions the capture
//! worker takes each cycle. All process and file traffic happens outside the
//! library; what is verified here is every value and choice that traffic is
//! driven by.

use vstd::prelude::*;
use crate::buffers::PicsFolders;
use crate::digits::dec_rep;
use crate::digits::padded5;
use crate::digits::u64_to_padded5_string;
use crate::digits::u64_to_string;

verus! {

/// Views of a sequence of owned strings, for stating argument vectors.
pub open spec fn seq_views(v: Seq<String>) -> Seq<Seq<char>> {
    v.map_values(|s: String| s@)
}

/// Handle on a running capture process.
#[derive(Clone, Copy, Debug, PartialEq, Eq, Structural)]
pub struct Camera {
    pub process_id: u32,
}

/// The well-known single slot the capture process writes each frame to.
pub open spec fn tmp_file_view() -> Seq<char> {
    "/mnt/ram/image_latest.jpg"@
}

pub fn tmp_file_path() -> (r: &'static str)
    ensures
        r@ == tmp_file_view(),
{
    "/mnt/ram/image_latest.jpg"
}

/// The fixed resolution/quality/annotation profile the capture process is
/// launched with: quality 7, 1640x1232, signal-triggered, no preview, sports
/// exposure, day/month/year-and-time annotation, output to the shared slot.
pub open spec fn raspistill_args_view() -> Seq<Seq<char>> {
    seq![
        "-q"@,
        "7"@,
        "-w"@,
        "1640"@,
        "-h"@,
        "1232"@,
        "-s"@,
        "-n"@,
        "-ex"@,
        "sports"@,
        "-a"@,
        "8"@,
        "-a"@,
        "%d-%m-%Y %X"@,
        "-o"@,
        tmp_file_view(),
    ]
}

/// The trigger signal sent to the capture process: `-USR1` and its id.
pub open spec fn kill_signal_args_view(pid: nat) -> Seq<Seq<char>> {
    seq!["-USR1"@, dec_rep(pid)]
}

impl Camera {
    pub fn new(process_id: u32) -> (c: Camera)
        ensures
            c.process_id == process_id,
    {
        Camera { process_id }
    }

    /// Arguments of the `kill` command that triggers one capture.
    pub fn trigger_args(&self) -> (r: Vec<String>)
        ensures
            seq_views(r@) == kill_signal_args_view(self.process_id as nat),
    {
        let mut v: Vec<String> = Vec::new();
        v.push(String::from_str("-USR1"));
        v.push(u64_to_string(self.process_id as u64));
        assert(seq_views(v@) =~= kill_signal_args_view(self.process_id as nat));
        v
    }
}

/// Arguments the capture process is started with.
pub fn raspistill_args() -> (r: Vec<String>)
    ensures
        seq_views(r@) == raspistill_args_view(),
{
    let mut v: Vec<String> = Vec::new();
    v.push(String::from_str("-q"));
    v.push(String::from_str("7"));
    v.push(String::from_str("-w"));
    v.push(String::from_str("1640"));
    v.push(String::from_str("-h"));
    v.push(String::from_str("1232"));
    v.push(String::from_str("-s"));
    v.push(String::from_str("-n"));
    v.push(String::from_str("-ex"));
    v.push(String::from_str("sports"));
    v.push(String::from_str("-a"));
    v.push(String::from_str("8"));
    v.push(String::from_str("-a"));
    v.push(String::from_str("%d-%m-%Y %X"));
    v.push(String::from_str("-o"));
    v.push(String::from_str("/mnt/ram/image_latest.jpg"));
    assert(seq_views(v@) =~= raspistill_args_view());
    v
}

/// What one retrieval poll decided: a frame was read, the slot is to be
/// polled again, or the attempt budget is spent and capture is unrecoverable.
pub enum PollOutcome {
    Frame(Vec<u8>),
    Retry,
    Abort,
}

/// One step of the bounded retrieval poll: the first non-empty read wins,
/// anything else retries until ten attempts (0 through 9) are spent.
pub fn capture_poll_step(attempt: u32, read: Option<Vec<u8>>) -> (r: PollOutcome)
    ensures
        match read {
            Some(bytes) => {
                if bytes@.len() > 0 {
                    r matches PollOutcome::Frame(f) && f@ == bytes@
                } else if attempt < 9 {
                    r matches PollOutcome::Retry
                } else {
                    r matches PollOutcome::Abort
                }
            },
            None => {
                if attempt < 9 {
                    r matches PollOutcome::Retry
                } else {
                    r matches PollOutcome::Abort
                }
            },
        },
{
    match read {
        Some(bytes) => {
            if bytes.len() > 0 {
                PollOutcome::Frame(bytes)
            } else if attempt < 9 {
                PollOutcome::Retry
            } else {
                PollOutcome::Abort
            }
        },
        None => {
            if attempt < 9 {
                PollOutcome::Retry
            } else {
                PollOutcome::Abort
            }
        },
    }
}

/// A capture window keeps going while the wall-clock hour it started in has
/// not ended, with a floor of five frames so a window started just before an
/// hour boundary is never pathologically short.
pub fn should_continue_window(current_hour: u32, initial_hour: u32, frames_taken: u64) -> (b:
    bool)
    ensures
        b == (current_hour == initial_hour || frames_taken < 5),
{
    current_hour == initial_hour || frames_taken < 5
}

/// Where frame number `index` of a window recorded into `folder` lands: the
/// dense, zero-padded sequence the encoder's input pattern matches.
pub open spec fn frame_path_view(folder: PicsFolders, index: nat) -> Seq<char> {
    folder.path_view() + "/"@ + padded5(index) + ".jpg"@
}

pub fn frame_path(folder: &PicsFolders, index: u64) -> (p: String)
    ensures
        p@ == frame_path_view(*folder, index as nat),
{
    let mut p = folder.path();
    p.append("/");
    let num = u64_to_padded5_string(index);
    p.append(num.as_str());
    p.append(".jpg");
    p
}

} // verus!
