use vstd::prelude::*;

verus! {

/// The running count of a Monte Carlo estimate of pi: how many points were
/// drawn in the square `[-1, 1]^2`, and how many of them fell inside the
/// unit circle.
#[derive(Debug, Clone, Copy, PartialEq, Eq, Structural)]
pub struct PiTally {
    pub trials: u32,
    pub inside: u32,
}

/// The estimate `4 * inside / trials` as a fraction, or nothing when no point
/// has been drawn.
pub open spec fn pi_fraction(inside: nat, trials: nat) -> Option<(u64, u32)> {
    if trials == 0 {
        None
    } else {
        Some(((4 * inside) as u64, trials as u32))
    }
}

impl PiTally {
    /// No point counted inside the circle can have gone uncounted as a trial.
    pub open spec fn wf(&self) -> bool {
        self.inside <= self.trials
    }

    /// A tally with nothing drawn yet.
    pub fn new() -> (r: PiTally)
        ensures
            r.trials == 0,
            r.inside == 0,
            r.wf(),
    {
        PiTally { trials: 0, inside: 0 }
    }

    /// Counts one more point; `hit` tells whether it fell inside the circle.
    pub fn record(&mut self, hit: bool)
        requires
            old(self).wf(),
            old(self).trials < u32::MAX,
        ensures
            final(self).wf(),
            final(self).trials == old(self).trials + 1,
            final(self).inside == old(self).inside + if hit { 1int } else { 0int },
    {
        self.trials = self.trials + 1;
        if hit {
            self.inside = self.inside + 1;
        }
    }

    /// The estimate of pi as `(numerator, denominator)`, that is
    /// `(4 * inside, trials)`, or `None` when no point was drawn: an
    /// estimate from zero trials is refused rather than divided by zero.
    pub fn estimate_fraction(&self) -> (r: Option<(u64, u32)>)
        requires
            self.wf(),
        ensures
            r == pi_fraction(self.inside as nat, self.trials as nat),
    {
        if self.trials == 0 {
            None
        } else {
            Some((4 * (self.inside as u64), self.trials))
        }
    }
}

} // verus!
