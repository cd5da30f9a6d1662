//! The frame counter of the progressive renderer.
//!
//! Each frame adds one sample per pixel to a running mean. The counter says
//! how many samples the mean already holds; any change of what is rendered
//! starts the mean afresh.

use vstd::prelude::*;

verus! {

/// The number of frames that the accumulated image holds.
#[derive(Clone, Copy, Debug, PartialEq, Eq, Structural)]
pub struct Accumulator {
    pub accumulated_frames: u32,
}

/// What happened since the frame before that shows in the image.
#[derive(Clone, Copy, Debug, PartialEq, Eq, Structural)]
pub struct Changes {
    /// The scene was set back to its defaults.
    pub reset: bool,
    /// A scene was loaded from a file.
    pub loaded: bool,
    /// The user asked for the accumulation to be cleared.
    pub cleared: bool,
    /// A render setting was edited.
    pub settings_edited: bool,
    /// The camera, the sky or a plane was edited, or a plane was added or
    /// removed.
    pub scene_edited: bool,
    /// The controls moved or turned the camera.
    pub camera_moved: bool,
    /// The camera went through a portal.
    pub hopped: bool,
}

impl Changes {
    /// Something has changed.
    pub open spec fn any(self) -> bool {
        self.reset || self.loaded || self.cleared || self.settings_edited || self.scene_edited
            || self.camera_moved || self.hopped
    }

    /// Whether the accumulation has to start afresh: whenever anything has
    /// changed.
    pub fn changed(&self) -> (r: bool)
        ensures
            r == self.any(),
    {
        self.reset || self.loaded || self.cleared || self.settings_edited || self.scene_edited
            || self.camera_moved || self.hopped
    }
}

/// The count that a frame is rendered with: zero after a change, else the
/// count so far.
pub open spec fn sample_index(frames: nat, changed: bool) -> nat {
    if changed {
        0
    } else {
        frames
    }
}

/// The count after a run of frames, given for each frame whether something
/// had changed.
pub open spec fn after_run(start: nat, changes: Seq<bool>) -> nat
    decreases changes.len(),
{
    if changes.len() == 0 {
        start
    } else {
        sample_index(after_run(start, changes.drop_last()), changes.last()) + 1
    }
}

/// With nothing changing, the count goes up by one per frame.
pub proof fn lemma_steady_run(start: nat, changes: Seq<bool>)
    requires
        forall|i: int| 0 <= i < changes.len() ==> !changes[i],
    ensures
        after_run(start, changes) == start + changes.len(),
    decreases changes.len(),
{
    if changes.len() > 0 {
        lemma_steady_run(start, changes.drop_last());
    }
}

/// A change starts the count afresh: after a run it is the number of frames
/// since the last change, that frame included, whatever it was before.
pub proof fn lemma_run_since_change(start: nat, changes: Seq<bool>, last_change: int)
    requires
        0 <= last_change < changes.len(),
        changes[last_change],
        forall|i: int| last_change < i < changes.len() ==> !changes[i],
    ensures
        after_run(start, changes) == changes.len() - last_change,
    decreases changes.len(),
{
    if last_change < changes.len() - 1 {
        lemma_run_since_change(start, changes.drop_last(), last_change);
    }
}

impl Accumulator {
    /// An empty accumulation.
    pub fn new() -> (r: Accumulator)
        ensures
            r.accumulated_frames == 0,
    {
        Accumulator { accumulated_frames: 0 }
    }

    /// Discards what was accumulated.
    pub fn clear(&mut self)
        ensures
            final(self).accumulated_frames == 0,
    {
        self.accumulated_frames = 0;
    }

    /// Accounts for one frame and returns the count to render it with.
    ///
    /// `changed` says whether anything that shows in the image has changed
    /// since the frame before. The frame is rendered with a count of zero
    /// after a change and with the count so far otherwise, and the counter
    /// then stands one above that.
    pub fn frame(&mut self, changed: bool) -> (n: u32)
        requires
            changed || old(self).accumulated_frames < u32::MAX,
        ensures
            n == sample_index(old(self).accumulated_frames as nat, changed),
            final(self).accumulated_frames == n + 1,
            final(self).accumulated_frames == after_run(
                old(self).accumulated_frames as nat,
                seq![changed],
            ),
    {
        if changed {
            self.accumulated_frames = 0;
        }
        let n = self.accumulated_frames;
        self.accumulated_frames = n + 1;
        proof {
            let run = seq![changed];
            assert(run.drop_last().len() == 0);
            assert(run.last() == changed);
            let start = old(self).accumulated_frames as nat;
            assert(after_run(start, run.drop_last()) == start);
        }
        n
    }
}

} // verus!
