//! A short history of a score, kept for display.

use vstd::prelude::*;

verus! {

/// How many points a history holds unless it is told otherwise.
pub const HISTORY_POINTS: usize = 100;

/// The last values of the threat score with the times they were taken at,
/// oldest first.
#[derive(Debug)]
pub struct MetricsHistory {
    pub threat_history: Vec<(u64, i64)>,
    pub max_points: usize,
}

/// The history after a point has been recorded: the point comes last, and
/// if that makes more points than `max_points`, the oldest one goes.
pub open spec fn recorded(points: Seq<(u64, i64)>, max_points: int, point: (u64, i64)) -> Seq<
    (u64, i64),
> {
    if points.len() + 1 > max_points {
        points.push(point).remove(0)
    } else {
        points.push(point)
    }
}

impl Default for MetricsHistory {
    /// An empty history that keeps no point until it is given a size.
    fn default() -> (history: MetricsHistory)
        ensures
            history.threat_history@ == Seq::<(u64, i64)>::empty(),
            history.max_points == 0,
    {
        MetricsHistory { threat_history: Vec::new(), max_points: 0 }
    }
}

impl MetricsHistory {
    /// An empty history of the usual size.
    pub fn new() -> (history: MetricsHistory)
        ensures
            history.threat_history@ == Seq::<(u64, i64)>::empty(),
            history.max_points == HISTORY_POINTS,
    {
        MetricsHistory { threat_history: Vec::new(), max_points: HISTORY_POINTS }
    }

    /// Records the value that the score has at `time`, and drops the oldest
    /// point once there are more than `max_points`.
    pub fn record(&mut self, time: u64, value: i64)
        ensures
            final(self).max_points == old(self).max_points,
            final(self).threat_history@ == recorded(
                old(self).threat_history@,
                old(self).max_points as int,
                (time, value),
            ),
    {
        self.threat_history.push((time, value));
        if self.threat_history.len() > self.max_points {
            self.threat_history.remove(0);
        }
    }
}

} // verus!
