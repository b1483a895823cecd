//! Pipe pairs: obstacles that scroll to the left at a constant speed.
use vstd::prelude::*;

use crate::{GAP_MAX, GAP_MIN, HALF_GAP, OFF_SCREEN_X, PIPE_SPEED, TOP_OFFSET};

verus! {

/// Relies on macroquad::rand::gen_range (quad-rand) for integers: for
/// `0 <= low < high <= 65536` it computes `low + (high - low) * u / 2^32` in
/// `f64` from a random `u32` `u` and truncates, which is exact in that range
/// and so lies in `[low, high)`. Nothing more is known of the value.
#[verifier::external_body]
fn random_in_range(low: i64, high: i64) -> (r: i64)
    requires
        0 <= low < high <= 65536,
    ensures
        low <= r < high,
{
    macroquad::rand::gen_range::<i64>(low, high)
}

/// A top pipe and a bottom pipe around one opening. `gap_y` is the vertical
/// centre of the opening; it is fixed when the pair is made.
#[derive(Clone, Copy, Debug, PartialEq, Eq, Structural)]
pub struct PairOfPipes {
    pub x: i64,
    pub gap_y: i64,
}

impl PairOfPipes {
    /// The gap anchor lies in the range new pairs draw it from.
    pub open spec fn wf(self) -> bool {
        GAP_MIN <= self.gap_y < GAP_MAX
    }

    /// The pair one frame later.
    pub open spec fn spec_moved(self) -> PairOfPipes {
        PairOfPipes { x: (self.x - PIPE_SPEED) as i64, gap_y: self.gap_y }
    }

    pub open spec fn spec_off_screen(self) -> bool {
        self.x < OFF_SCREEN_X
    }

    /// Drawing position of the top pipe, which is drawn flipped.
    pub open spec fn spec_top_y(self) -> int {
        self.gap_y - HALF_GAP - TOP_OFFSET
    }

    /// Drawing position of the bottom pipe.
    pub open spec fn spec_bottom_y(self) -> int {
        self.gap_y + HALF_GAP
    }

    /// A pair at `x` with a gap anchor drawn at random from `[GAP_MIN, GAP_MAX)`.
    pub fn new(x: i64) -> (r: PairOfPipes)
        ensures
            r.x == x,
            r.wf(),
    {
        let gap_y = random_in_range(GAP_MIN, GAP_MAX);
        PairOfPipes { x, gap_y }
    }

    /// A pair at `x` with the given gap anchor.
    pub fn with_gap(x: i64, gap_y: i64) -> (r: PairOfPipes)
        requires
            GAP_MIN <= gap_y < GAP_MAX,
        ensures
            r == (PairOfPipes { x, gap_y }),
            r.wf(),
    {
        PairOfPipes { x, gap_y }
    }

    /// Scrolls the pair one step to the left.
    pub fn update(&mut self)
        requires
            old(self).x - PIPE_SPEED >= i64::MIN,
        ensures
            final(self).x == old(self).x - PIPE_SPEED,
            final(self).gap_y == old(self).gap_y,
            *final(self) == old(self).spec_moved(),
    {
        self.x = self.x - PIPE_SPEED;
    }

    pub fn is_off_screen(&self) -> (r: bool)
        ensures
            r == (self.x < OFF_SCREEN_X),
            r == self.spec_off_screen(),
    {
        self.x < OFF_SCREEN_X
    }

    pub fn top_y(&self) -> (r: i64)
        requires
            self.wf(),
        ensures
            r == self.spec_top_y(),
    {
        self.gap_y - HALF_GAP - TOP_OFFSET
    }

    pub fn bottom_y(&self) -> (r: i64)
        requires
            self.wf(),
        ensures
            r == self.spec_bottom_y(),
    {
        self.gap_y + HALF_GAP
    }
}

} // verus!
