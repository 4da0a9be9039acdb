//! The orchestration engine: which buffer fills, which encodes, whether a
//! capture window is pending and whether an encode is in flight. Every
//! transition is a pure function of the state, and the non-overlap
//! invariant — never two filling buffers, never a buffer filling and
//! encoding at once — is proved to survive any sequence of transitions.

use vstd::prelude::*;
use crate::buffers::PicsFolders;
use crate::camera::seq_views;
use crate::digits::i64_to_string;
use crate::digits::int_rep;
use crate::encoder::encoding_args;
use crate::encoder::encoding_args_view;
use crate::archive::mp4_suffix;
use crate::archive::movies_root_view;
use crate::archive::path_join;
use crate::archive::DirStructure;
use crate::archive::join_path;
use crate::archive::movies_folder_root;

verus! {

/// Completion signal of one capture window, carrying the window's start
/// timestamp — the name the window's clip is published under.
pub enum PicTakingMessage {
    Done(i64),
}

/// Where a finished encode landed and what the clip is called.
pub struct EncodingOutput {
    pub output_path_with_filename: String,
    pub filename: String,
}

/// Completion signal of one encode run.
pub enum EncodingMessage {
    Done(EncodingOutput),
}

/// What one buffer currently holds.
#[derive(Clone, Copy, Debug, PartialEq, Eq, Structural)]
pub enum FillState {
    Empty,
    Filling,
    Full,
    Encoding,
}

/// The orchestrator's state: the buffer currently designated to receive
/// frames, what each buffer holds, the day the pending capture window
/// started on (while one runs), and whether an encode is in flight.
#[derive(Clone, Copy, Debug, PartialEq, Eq, Structural)]
pub struct TimeLapseManufacturer {
    pub curr_tmp_pic_recording_folder: PicsFolders,
    pub folder_a: FillState,
    pub folder_b: FillState,
    pub picture_taking_day: Option<u32>,
    pub encoding_active: bool,
}

/// One orchestration transition.
pub enum OrchestratorOp {
    StartWindow { day: u32 },
    FinishWindow,
    SwitchFolder,
    StartEncoding,
    FinishEncoding,
}

impl TimeLapseManufacturer {
    pub open spec fn fill_state_of(self, f: PicsFolders) -> FillState {
        match f {
            PicsFolders::A => self.folder_a,
            PicsFolders::B => self.folder_b,
        }
    }

    pub open spec fn active(self) -> PicsFolders {
        self.curr_tmp_pic_recording_folder
    }

    pub open spec fn inactive(self) -> PicsFolders {
        self.curr_tmp_pic_recording_folder.other()
    }

    pub open spec fn with_fill(self, f: PicsFolders, st: FillState) -> Self {
        match f {
            PicsFolders::A => Self { folder_a: st, ..self },
            PicsFolders::B => Self { folder_b: st, ..self },
        }
    }

    /// The orchestration invariant: a buffer fills only while it is the
    /// active one and a window is pending, so the two buffers never fill at
    /// once; an encode runs exactly on the inactive buffer while the encode
    /// flag is up, so the active buffer is never the one encoding.
    pub open spec fn wf(self) -> bool {
        &&& !(self.folder_a is Filling && self.folder_b is Filling)
        &&& (self.folder_a is Filling ==> self.active() == PicsFolders::A)
        &&& (self.folder_b is Filling ==> self.active() == PicsFolders::B)
        &&& (self.picture_taking_day is Some <==> self.fill_state_of(self.active()) is Filling)
        &&& (self.encoding_active <==> self.fill_state_of(self.inactive()) is Encoding)
        &&& !(self.fill_state_of(self.active()) is Encoding)
    }

    /// When a transition may fire.
    pub open spec fn op_enabled(self, op: OrchestratorOp) -> bool {
        match op {
            OrchestratorOp::StartWindow { day } => self.picture_taking_day is None
                && self.fill_state_of(self.active()) is Empty,
            OrchestratorOp::FinishWindow => self.picture_taking_day is Some,
            OrchestratorOp::SwitchFolder => self.picture_taking_day is None
                && !self.encoding_active,
            OrchestratorOp::StartEncoding => !self.encoding_active && self.fill_state_of(
                self.inactive(),
            ) is Full,
            OrchestratorOp::FinishEncoding => self.encoding_active,
        }
    }

    /// The transition function; an op that is not enabled changes nothing.
    pub open spec fn apply_op(self, op: OrchestratorOp) -> Self {
        if !self.op_enabled(op) {
            self
        } else {
            match op {
                OrchestratorOp::StartWindow { day } => Self {
                    picture_taking_day: Some(day),
                    ..self.with_fill(self.active(), FillState::Filling)
                },
                OrchestratorOp::FinishWindow => Self {
                    picture_taking_day: None,
                    ..self.with_fill(self.active(), FillState::Full)
                },
                OrchestratorOp::SwitchFolder => Self {
                    curr_tmp_pic_recording_folder: self.inactive(),
                    ..self
                },
                OrchestratorOp::StartEncoding => Self {
                    encoding_active: true,
                    ..self.with_fill(self.inactive(), FillState::Encoding)
                },
                OrchestratorOp::FinishEncoding => Self {
                    encoding_active: false,
                    ..self.with_fill(self.inactive(), FillState::Empty)
                },
            }
        }
    }

    pub open spec fn apply_ops(self, ops: Seq<OrchestratorOp>) -> Self
        decreases ops.len(),
    {
        if ops.len() == 0 {
            self
        } else {
            self.apply_ops(ops.drop_last()).apply_op(ops.last())
        }
    }

    /// Every single transition preserves the orchestration invariant.
    pub proof fn lemma_op_preserves_wf(self, op: OrchestratorOp)
        requires
            self.wf(),
        ensures
            self.apply_op(op).wf(),
    {
    }

    /// Under any sequence of capture windows, buffer swaps and encode runs,
    /// the two buffers are never simultaneously filling, and no buffer is
    /// ever filling and encoding at the same time: whichever buffer fills
    /// is the active one, whichever encodes is the inactive one, and they
    /// are never the same buffer.
    pub proof fn lemma_never_double_filling(self, ops: Seq<OrchestratorOp>)
        requires
            self.wf(),
        ensures
            self.apply_ops(ops).wf(),
            !(self.apply_ops(ops).folder_a is Filling && self.apply_ops(ops).folder_b is Filling),
            forall|f: PicsFolders|
                self.apply_ops(ops).fill_state_of(f) is Filling ==> f == self.apply_ops(
                    ops,
                ).active(),
            forall|f: PicsFolders|
                self.apply_ops(ops).fill_state_of(f) is Encoding ==> f == self.apply_ops(
                    ops,
                ).inactive(),
            self.apply_ops(ops).active() != self.apply_ops(ops).inactive(),
        decreases ops.len(),
    {
        if ops.len() > 0 {
            self.lemma_never_double_filling(ops.drop_last());
            self.apply_ops(ops.drop_last()).lemma_op_preserves_wf(ops.last());
        }
    }

    /// The steady state at the top of the orchestration loop: a window is
    /// pending on the active buffer, the other buffer is wiped, and no
    /// encode is in flight.
    pub open spec fn loop_state(self) -> bool {
        &&& self.wf()
        &&& self.picture_taking_day is Some
        &&& self.fill_state_of(self.active()) is Filling
        &&& self.fill_state_of(self.inactive()) is Empty
        &&& !self.encoding_active
    }

    /// Opening the first window moves a fresh orchestrator into the steady
    /// loop state.
    pub proof fn lemma_startup_reaches_loop_state(self, day: u32)
        requires
            self.wf(),
            self.picture_taking_day is None,
            self.fill_state_of(self.active()) is Empty,
            self.fill_state_of(self.inactive()) is Empty,
            !self.encoding_active,
        ensures
            self.apply_op(OrchestratorOp::StartWindow { day }).loop_state(),
    {
    }

    /// One full pass of the orchestration loop — finish the pending window,
    /// swap buffers, open the next window, encode the filled buffer and
    /// wipe it — is always fully enabled from the steady state, and lands
    /// back in the steady state with the buffer roles exchanged.
    pub proof fn lemma_loop_iteration(self, day: u32)
        requires
            self.loop_state(),
        ensures
            ({
                let s1 = self.apply_op(OrchestratorOp::FinishWindow);
                let s2 = s1.apply_op(OrchestratorOp::SwitchFolder);
                let s3 = s2.apply_op(OrchestratorOp::StartWindow { day });
                let s4 = s3.apply_op(OrchestratorOp::StartEncoding);
                let s5 = s4.apply_op(OrchestratorOp::FinishEncoding);
                &&& self.op_enabled(OrchestratorOp::FinishWindow)
                &&& s1.op_enabled(OrchestratorOp::SwitchFolder)
                &&& s2.op_enabled(OrchestratorOp::StartWindow { day })
                &&& s3.op_enabled(OrchestratorOp::StartEncoding)
                &&& s4.op_enabled(OrchestratorOp::FinishEncoding)
                &&& s5.loop_state()
                &&& s5.active() == self.inactive()
            }),
    {
    }

    /// A fresh orchestrator: buffer "a" designated active, both buffers
    /// empty, no window pending, no encode in flight.
    pub fn new() -> (m: Self)
        ensures
            m.curr_tmp_pic_recording_folder == PicsFolders::A,
            m.folder_a == FillState::Empty,
            m.folder_b == FillState::Empty,
            m.picture_taking_day is None,
            !m.encoding_active,
            m.wf(),
    {
        TimeLapseManufacturer {
            curr_tmp_pic_recording_folder: PicsFolders::A,
            folder_a: FillState::Empty,
            folder_b: FillState::Empty,
            picture_taking_day: None,
            encoding_active: false,
        }
    }

    /// What the given buffer currently holds.
    pub fn fill_state(&self, f: &PicsFolders) -> (st: FillState)
        ensures
            st == self.fill_state_of(*f),
    {
        match f {
            PicsFolders::A => self.folder_a,
            PicsFolders::B => self.folder_b,
        }
    }

    /// A capture window opens on the active buffer, recording the calendar
    /// day it starts on.
    pub fn start_taking_pictures(&mut self, start_day: u32)
        requires
            old(self).wf(),
            old(self).op_enabled(OrchestratorOp::StartWindow { day: start_day }),
        ensures
            *final(self) == old(self).apply_op(OrchestratorOp::StartWindow { day: start_day }),
            final(self).wf(),
    {
        proof {
            self.lemma_op_preserves_wf(OrchestratorOp::StartWindow { day: start_day });
        }
        match self.curr_tmp_pic_recording_folder {
            PicsFolders::A => {
                self.folder_a = FillState::Filling;
            },
            PicsFolders::B => {
                self.folder_b = FillState::Filling;
            },
        }
        self.picture_taking_day = Some(start_day);
    }

    /// The pending window's completion signal has been consumed: the active
    /// buffer now holds a full window of frames.
    pub fn wait_taking_pictures(&mut self)
        requires
            old(self).wf(),
            old(self).op_enabled(OrchestratorOp::FinishWindow),
        ensures
            *final(self) == old(self).apply_op(OrchestratorOp::FinishWindow),
            final(self).wf(),
    {
        proof {
            self.lemma_op_preserves_wf(OrchestratorOp::FinishWindow);
        }
        match self.curr_tmp_pic_recording_folder {
            PicsFolders::A => {
                self.folder_a = FillState::Full;
            },
            PicsFolders::B => {
                self.folder_b = FillState::Full;
            },
        }
        self.picture_taking_day = None;
    }

    /// The active/inactive designation swaps between windows.
    pub fn switch_recording_folder(&mut self)
        requires
            old(self).wf(),
            old(self).op_enabled(OrchestratorOp::SwitchFolder),
        ensures
            *final(self) == old(self).apply_op(OrchestratorOp::SwitchFolder),
            final(self).wf(),
    {
        proof {
            self.lemma_op_preserves_wf(OrchestratorOp::SwitchFolder);
        }
        self.curr_tmp_pic_recording_folder.switch_folders();
    }

    /// An encode opens on the just-filled inactive buffer; the caller gets
    /// the exact encoder command arguments for the buffer's frame pattern
    /// and the requested output location.
    pub fn start_encoding_thread(
        &mut self,
        img_dir: String,
        output_path_with_filename: String,
        filename: String,
    ) -> (job: EncodeJob)
        requires
            old(self).wf(),
            old(self).op_enabled(OrchestratorOp::StartEncoding),
        ensures
            *final(self) == old(self).apply_op(OrchestratorOp::StartEncoding),
            final(self).wf(),
            seq_views(job.args@) == encoding_args_view(img_dir@, output_path_with_filename@),
            job.output.output_path_with_filename@ == output_path_with_filename@,
            job.output.filename@ == filename@,
    {
        proof {
            self.lemma_op_preserves_wf(OrchestratorOp::StartEncoding);
        }
        let args = encoding_args(img_dir.as_str(), output_path_with_filename.as_str());
        match self.curr_tmp_pic_recording_folder {
            PicsFolders::A => {
                self.folder_b = FillState::Encoding;
            },
            PicsFolders::B => {
                self.folder_a = FillState::Encoding;
            },
        }
        self.encoding_active = true;
        EncodeJob { args, output: EncodingOutput { output_path_with_filename, filename } }
    }

    /// The encode's completion signal has been consumed and the encoded
    /// buffer wiped: it is empty and may become active again.
    pub fn finish_encoding(&mut self)
        requires
            old(self).wf(),
            old(self).op_enabled(OrchestratorOp::FinishEncoding),
        ensures
            *final(self) == old(self).apply_op(OrchestratorOp::FinishEncoding),
            final(self).wf(),
    {
        proof {
            self.lemma_op_preserves_wf(OrchestratorOp::FinishEncoding);
        }
        match self.curr_tmp_pic_recording_folder {
            PicsFolders::A => {
                self.folder_b = FillState::Empty;
            },
            PicsFolders::B => {
                self.folder_a = FillState::Empty;
            },
        }
        self.encoding_active = false;
    }
}

/// Everything the encode step of one window needs: the frame directory of
/// the buffer that just finished filling, the scratch directory the clip is
/// encoded into, and the clip's logical filename — the finished window's
/// start timestamp.
pub struct EncodePlan {
    pub img_dir: String,
    pub tmp_output_dir: String,
    pub output_path_with_filename: String,
    pub encoded_movie_filename: String,
}

pub open spec fn encoding_today_dir_view() -> Seq<char> {
    "/mnt/skynet/encoding/today"@
}

impl TimeLapseManufacturer {
    /// Plan the encode of the buffer that just finished filling: the clip
    /// is named by the finished window's start timestamp, the one its
    /// completion signal carried.
    pub fn encode_last_hour_plan(&self, window_start_ts: i64) -> (p: EncodePlan)
        ensures
            p.img_dir@ == self.inactive().path_view(),
            p.tmp_output_dir@ == encoding_today_dir_view(),
            p.encoded_movie_filename@ == int_rep(window_start_ts as int) + mp4_suffix(),
            p.output_path_with_filename@ == path_join(
                encoding_today_dir_view(),
                p.encoded_movie_filename@,
            ),
    {
        let mut filename = i64_to_string(window_start_ts);
        filename.append(".mp4");
        let pics_folder = self.curr_tmp_pic_recording_folder.get_other_one();
        let img_dir = pics_folder.path();
        let tmp_output_dir = String::from_str("/mnt/skynet/encoding/today");
        let output = join_path("/mnt/skynet/encoding/today", filename.as_str());
        EncodePlan {
            img_dir,
            tmp_output_dir,
            output_path_with_filename: output,
            encoded_movie_filename: filename,
        }
    }

    /// Where a fresh today-accumulation directory must be created, named by
    /// the current timestamp — or nothing, when the archive already has one.
    pub fn today_folder_create_path(structure: &DirStructure, now_ts: i64) -> (r: Option<
        String,
    >)
        ensures
            match r {
                Some(p) => structure.today_folder is None && p@ == path_join(
                    movies_root_view(),
                    int_rep(now_ts as int),
                ),
                None => structure.today_folder is Some,
            },
    {
        match &structure.today_folder {
            Some(_) => None,
            None => {
                let name = i64_to_string(now_ts);
                let p = join_path(movies_folder_root(), name.as_str());
                Some(p)
            },
        }
    }

    /// The day boundary check: a stitch runs exactly when the day recorded
    /// at the finished window's start differs from the day the next window
    /// started on.
    pub fn rollover_needed(start_pic_day: u32, curr_pic_taking_day: u32) -> (b: bool)
        ensures
            b == (start_pic_day != curr_pic_taking_day),
    {
        start_pic_day != curr_pic_taking_day
    }
}

/// An encode run handed back to the caller: the encoder's argument vector
/// and the completion record to publish when the encoder exits.
pub struct EncodeJob {
    pub args: Vec<String>,
    pub output: EncodingOutput,
}

} // verus!
