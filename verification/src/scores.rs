//! The summary of one analysis window, and the numbering of successive
//! summaries.

use crate::audio_buffer::WindowModel;
use crate::notes::NoteEvent;
use vstd::prelude::*;

verus! {

/// What the analysis of one window found. `D` is the type of the dissonance
/// score, which is carried through untouched.
pub struct Scores<D> {
    /// The notes of the peaks, one entry for each peak, in their order.
    pub notes: Vec<NoteEvent>,
    /// The smoothed dissonance after this window.
    pub dissonance: D,
    /// The position of the window among all windows of the stream, those
    /// dropped as backlog included.
    pub frame: u64,
}

/// Numbers the summaries: each gets the index after that of the one before,
/// moved on by the number of windows that were dropped in between.
pub struct FrameAssembler {
    next: u64,
}

impl FrameAssembler {
    /// The index that the next window of the stream has.
    pub closed spec fn spec_next_index(&self) -> nat {
        self.next as nat
    }

    /// An assembler for a stream of which no window has been seen.
    pub fn new() -> (a: FrameAssembler)
        ensures
            a.spec_next_index() == 0,
    {
        FrameAssembler { next: 0 }
    }

    /// The index that the next window of the stream has.
    pub fn next_index(&self) -> (i: u64)
        ensures
            i == self.spec_next_index(),
    {
        self.next
    }

    /// Whether a summary can still be numbered after `skipped` dropped
    /// windows.
    pub fn has_room(&self, skipped: usize) -> (ok: bool)
        ensures
            ok == (self.spec_next_index() + skipped < u64::MAX),
    {
        (skipped as u64) < u64::MAX - self.next
    }

    /// Bundles the results of one window into a summary. `skipped` is the
    /// number of whole windows dropped since the window before.
    pub fn assemble<D>(&mut self, notes: Vec<NoteEvent>, dissonance: D, skipped: usize) -> (s:
        Scores<D>)
        requires
            old(self).spec_next_index() + skipped < u64::MAX,
        ensures
            s.notes == notes,
            s.dissonance == dissonance,
            s.frame == old(self).spec_next_index() + skipped,
            final(self).spec_next_index() == s.frame + 1,
    {
        let frame: u64 = self.next + skipped as u64;
        self.next = frame + 1;
        Scores { notes, dissonance, frame }
    }
}

/// The index that the summary of window `i` gets when the summaries of
/// `windows` are assembled in order, starting with a new assembler.
pub open spec fn spec_frame_index<T>(windows: Seq<WindowModel<T>>, i: int) -> nat
    decreases i,
{
    if i <= 0 {
        windows[0].skipped
    } else {
        spec_frame_index(windows, i - 1) + 1 + windows[i].skipped
    }
}

/// Summaries are numbered in strictly increasing order.
pub proof fn lemma_frame_order<T>(windows: Seq<WindowModel<T>>, i: int, j: int)
    requires
        0 <= i < j < windows.len(),
    ensures
        spec_frame_index(windows, i) < spec_frame_index(windows, j),
    decreases j - i,
{
    if i + 1 < j {
        lemma_frame_order(windows, i, j - 1);
    }
}

/// Between the indices of two successive summaries lie exactly as many
/// indices as windows were dropped between them.
pub proof fn lemma_frame_gaps<T>(windows: Seq<WindowModel<T>>, i: int)
    requires
        0 < i < windows.len(),
    ensures
        spec_frame_index(windows, i) - spec_frame_index(windows, i - 1) - 1 == windows[i].skipped,
{
}

/// Where no window was dropped the indices have no gaps: summary `i` has
/// index `i`.
pub proof fn lemma_frames_gap_free<T>(windows: Seq<WindowModel<T>>, i: int)
    requires
        0 <= i < windows.len(),
        forall|j: int| 0 <= j < windows.len() ==> (#[trigger] windows[j]).skipped == 0,
    ensures
        spec_frame_index(windows, i) == i,
    decreases i,
{
    if i > 0 {
        lemma_frames_gap_free(windows, i - 1);
    }
}

} // verus!
