use vstd::prelude::*;

verus! {

/// Per-frame values that the passes of a frame read.
#[derive(Clone, Copy, Debug, PartialEq, Eq, Structural)]
pub struct FrameParams {
    /// How many frames, this one included, have been blended into the image:
    /// the weight of this frame's sample in the running mean is one over it.
    pub render_count: u32,
    pub frame_width: u32,
    /// Seed of this frame's random sequence.
    pub seed: u32,
}

/// Counts the frames rendered so far.
#[derive(Clone, Copy, Debug, PartialEq, Eq, Structural)]
pub struct FrameCounter {
    pub render_count: u32,
}

/// Relies on rand::random: a value drawn from the thread-local generator. Any
/// `u32` may come back.
#[verifier::external_body]
fn fresh_seed() -> (r: u32) {
    rand::random::<u32>()
}

impl FrameCounter {
    pub fn new() -> (r: FrameCounter)
        ensures
            r.render_count == 0,
    {
        FrameCounter { render_count: 0 }
    }

    /// Starts a frame with the given seed. The count stops at its largest value
    /// rather than wrapping to zero, which would make the blend divide by zero.
    pub fn begin_frame(&mut self, frame_width: u32, seed: u32) -> (r: FrameParams)
        ensures
            final(self).render_count == if old(self).render_count == u32::MAX {
                u32::MAX
            } else {
                (old(self).render_count + 1) as u32
            },
            r == (FrameParams { render_count: final(self).render_count, frame_width, seed }),
    {
        if self.render_count < u32::MAX {
            self.render_count = self.render_count + 1;
        }
        FrameParams { render_count: self.render_count, frame_width, seed }
    }

    /// Starts a frame with a freshly drawn seed.
    pub fn next_frame(&mut self, frame_width: u32) -> (r: FrameParams)
        ensures
            final(self).render_count == if old(self).render_count == u32::MAX {
                u32::MAX
            } else {
                (old(self).render_count + 1) as u32
            },
            r.render_count == final(self).render_count,
            r.frame_width == frame_width,
    {
        let seed = fresh_seed();
        self.begin_frame(frame_width, seed)
    }
}

} // verus!
