//! Monotonic platform-wide counters.

use vstd::prelude::*;

use crate::mentorship::types::PlatformStats;

verus! {

/// Holds the aggregate counters the session engine reports into.
pub struct StatsManager {
    pub stats: PlatformStats,
}

impl StatsManager {
    pub open spec fn wf(self) -> bool {
        self.stats.wf()
    }

    /// All counters at zero.
    pub fn new() -> (r: StatsManager)
        ensures
            r.wf(),
            r.stats == (PlatformStats {
                total_mentors: 0,
                total_mentees: 0,
                total_sessions: 0,
                completed_sessions: 0,
                disputed_sessions: 0,
                total_rewards_distributed: 0,
                total_fees_collected: 0,
            }),
    {
        StatsManager {
            stats: PlatformStats {
                total_mentors: 0,
                total_mentees: 0,
                total_sessions: 0,
                completed_sessions: 0,
                disputed_sessions: 0,
                total_rewards_distributed: 0,
                total_fees_collected: 0,
            },
        }
    }

    pub fn increment_mentors(&mut self)
        requires
            old(self).stats.total_mentors < u32::MAX,
        ensures
            final(self).stats == (PlatformStats {
                total_mentors: (old(self).stats.total_mentors + 1) as u32,
                ..old(self).stats
            }),
    {
        self.stats.total_mentors = self.stats.total_mentors + 1;
    }

    pub fn increment_mentees(&mut self)
        requires
            old(self).stats.total_mentees < u32::MAX,
        ensures
            final(self).stats == (PlatformStats {
                total_mentees: (old(self).stats.total_mentees + 1) as u32,
                ..old(self).stats
            }),
    {
        self.stats.total_mentees = self.stats.total_mentees + 1;
    }

    pub fn increment_total_sessions(&mut self)
        requires
            old(self).stats.total_sessions < u32::MAX,
        ensures
            final(self).stats == (PlatformStats {
                total_sessions: (old(self).stats.total_sessions + 1) as u32,
                ..old(self).stats
            }),
    {
        self.stats.total_sessions = self.stats.total_sessions + 1;
    }

    pub fn increment_disputed(&mut self)
        requires
            old(self).stats.disputed_sessions < u32::MAX,
        ensures
            final(self).stats == (PlatformStats {
                disputed_sessions: (old(self).stats.disputed_sessions + 1) as u32,
                ..old(self).stats
            }),
    {
        self.stats.disputed_sessions = self.stats.disputed_sessions + 1;
    }

    /// Counts one settled reward: `reward - fee` went to a participant and
    /// `fee` to the platform.
    pub fn record_completion(&mut self, reward: i128, fee: i128)
        requires
            old(self).wf(),
            old(self).stats.completed_sessions < u32::MAX,
            0 <= fee <= reward,
            old(self).stats.total_rewards_distributed + (reward - fee) <= i128::MAX,
            old(self).stats.total_fees_collected + fee <= i128::MAX,
        ensures
            final(self).wf(),
            final(self).stats == (PlatformStats {
                completed_sessions: (old(self).stats.completed_sessions + 1) as u32,
                total_rewards_distributed: (old(self).stats.total_rewards_distributed + (reward
                    - fee)) as i128,
                total_fees_collected: (old(self).stats.total_fees_collected + fee) as i128,
                ..old(self).stats
            }),
    {
        self.stats.completed_sessions = self.stats.completed_sessions + 1;
        self.stats.total_rewards_distributed = self.stats.total_rewards_distributed + (reward
            - fee);
        self.stats.total_fees_collected = self.stats.total_fees_collected + fee;
    }

    pub fn get_stats(&self) -> (r: PlatformStats)
        ensures
            r == self.stats,
    {
        self.stats.clone()
    }
}

} // verus!
