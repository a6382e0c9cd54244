//! The renderer's frame cycle: which frame in flight is current, and whether a
//! command recording session is open.
//!
//! The renderer waits, acquires, records, submits and presents; these functions decide
//! whether each step may happen and what state follows.

use vstd::prelude::*;
use vstd::string::StringExecFns;

use crate::error::RenderError;

verus! {

/// An open command recording session.
#[derive(Debug, Clone, Copy, PartialEq, Eq, Structural)]
pub struct RecordingSession {
    /// Frame in flight the commands are recorded for
    pub frame_index: usize,
    /// Swapchain image the commands render to
    pub image_index: u32,
}

/// Frame counter and recording state of the renderer.
pub struct FrameCycle {
    current_frame: usize,
    max_frames_in_flight: usize,
    recording: Option<RecordingSession>,
}

/// The frame after `frame`, cycling through `max` frames.
pub open spec fn next_frame(frame: nat, max: nat) -> nat {
    ((frame + 1) % max) as nat
}

impl FrameCycle {
    /// The current frame in flight.
    pub closed spec fn spec_current_frame(&self) -> usize {
        self.current_frame
    }

    /// The number of frames in flight.
    pub closed spec fn spec_max_frames(&self) -> usize {
        self.max_frames_in_flight
    }

    /// The open recording session, if any.
    pub closed spec fn session(&self) -> Option<RecordingSession> {
        self.recording
    }

    /// The current frame is one of the frames in flight.
    pub closed spec fn wf(&self) -> bool {
        self.current_frame < self.max_frames_in_flight
    }

    /// Start at frame 0 with no recording session.
    pub fn new(max_frames_in_flight: usize) -> (c: Self)
        requires
            max_frames_in_flight >= 1,
        ensures
            c.wf(),
            c.spec_current_frame() == 0,
            c.spec_max_frames() == max_frames_in_flight,
            c.session() is None,
    {
        FrameCycle { current_frame: 0, max_frames_in_flight, recording: None }
    }

    /// The current frame in flight.
    pub fn current_frame(&self) -> (f: usize)
        ensures
            f == self.spec_current_frame(),
    {
        self.current_frame
    }

    /// The number of frames in flight.
    pub fn max_frames_in_flight(&self) -> (n: usize)
        ensures
            n == self.spec_max_frames(),
    {
        self.max_frames_in_flight
    }

    /// Whether a render pass may begin: refused while a recording is open.  On success
    /// the frame whose completion must be awaited (the current one) is returned.
    pub fn check_begin(&self) -> (r: Result<usize, RenderError>)
        ensures
            self.session() is Some ==> (r matches Err(RenderError::BackendError(m))
                && m@ == "Command recording already in progress"@),
            self.session() is None ==> r == Ok::<usize, RenderError>(self.spec_current_frame()),
    {
        if self.recording.is_some() {
            return Err(RenderError::BackendError(String::from_str("Command recording already in progress")));
        }
        Ok(self.current_frame)
    }

    /// Open a recording session for the current frame, rendering to `image_index`.
    pub fn start_recording(&mut self, image_index: u32)
        requires
            old(self).session() is None,
        ensures
            final(self).session() == Some(
                RecordingSession { frame_index: old(self).spec_current_frame(), image_index },
            ),
            final(self).spec_current_frame() == old(self).spec_current_frame(),
            final(self).spec_max_frames() == old(self).spec_max_frames(),
            old(self).wf() ==> final(self).wf(),
    {
        self.recording = Some(RecordingSession { frame_index: self.current_frame, image_index });
    }

    /// Whether a draw may be recorded: only inside a recording session.
    pub fn check_draw(&self) -> (r: Result<(), RenderError>)
        ensures
            self.session() is Some ==> r is Ok,
            self.session() is None ==> (r matches Err(RenderError::BackendError(m))
                && m@ == "No active command recording. Call begin_render_pass() first."@),
    {
        if self.recording.is_none() {
            return Err(
                RenderError::BackendError(String::from_str("No active command recording. Call begin_render_pass() first.")),
            );
        }
        Ok(())
    }

    /// Close the recording session for submission; refused when none is open.
    pub fn finish_recording(&mut self) -> (r: Result<RecordingSession, RenderError>)
        ensures
            final(self).session() is None,
            final(self).spec_current_frame() == old(self).spec_current_frame(),
            final(self).spec_max_frames() == old(self).spec_max_frames(),
            old(self).wf() ==> final(self).wf(),
            match old(self).session() {
                Some(s) => r == Ok::<RecordingSession, RenderError>(s),
                None => r matches Err(RenderError::BackendError(m)) && m@ == "No active command recording to submit"@,
            },
    {
        match self.recording.take() {
            Some(s) => Ok(s),
            None => Err(RenderError::BackendError(String::from_str("No active command recording to submit"))),
        }
    }

    /// Move to the next frame in flight, after a frame was submitted.
    pub fn advance_frame(&mut self)
        requires
            old(self).wf(),
        ensures
            final(self).wf(),
            final(self).spec_current_frame() == next_frame(
                old(self).spec_current_frame() as nat,
                old(self).spec_max_frames() as nat,
            ),
            final(self).spec_max_frames() == old(self).spec_max_frames(),
            final(self).session() == old(self).session(),
    {
        self.current_frame = (self.current_frame + 1) % self.max_frames_in_flight;
    }
}

/// The frame reached from `f` after `k` advances.
pub open spec fn advance_times(f: nat, max: nat, k: nat) -> nat
    decreases k,
{
    if k == 0 {
        f
    } else {
        next_frame(advance_times(f, max, (k - 1) as nat), max)
    }
}

/// Frames in flight are used in turn: starting from frame `f`, `k` advances lead to
/// frame `(f + k) mod max`, so after `max` advances the same frame is current again.
pub proof fn law_frames_cycle(f: nat, max: nat, k: nat)
    requires
        max >= 1,
        f < max,
    ensures
        advance_times(f, max, k) == (f + k) % max,
        advance_times(f, max, max) == f,
{
    lemma_advance_times(f, max, k);
    lemma_advance_times(f, max, max);
    vstd::arithmetic::div_mod::lemma_mod_add_multiples_vanish(f as int, max as int);
    vstd::arithmetic::div_mod::lemma_small_mod(f, max);
}

/// `k` advances from `f` lead to `(f + k) mod max`.
proof fn lemma_advance_times(f: nat, max: nat, k: nat)
    requires
        max >= 1,
        f < max,
    ensures
        advance_times(f, max, k) == (f + k) % max,
    decreases k,
{
    if k > 0 {
        lemma_advance_times(f, max, (k - 1) as nat);
        vstd::arithmetic::div_mod::lemma_add_mod_noop_right(1, (f + k - 1) as int, max as int);
    } else {
        vstd::arithmetic::div_mod::lemma_small_mod(f, max);
    }
}

} // verus!
