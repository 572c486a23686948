use vstd::prelude::*;

use crate::scoring;

verus! {

/// How the anti-spam cooldown of `queue_action` is configured. Either way
/// the engine enforces the gap per action kind; the two variants exist so a
/// configuration can distinguish one shared setting from a per-action one.
#[derive(Debug, Clone, Copy, PartialEq, Eq, Structural)]
pub enum ActionCooldown {
    Shared(u8),
    Each(u8),
}

/// The configuration bundle threaded through the engine: how long a piece
/// may rest before it locks, whether a hard drop still honours that delay,
/// whether rotations may kick off walls, which scoring table is active, and
/// the minimum tick gap between two uses of the same action.
#[derive(Debug, Clone, Copy, PartialEq, Eq, Structural)]
pub struct Rules {
    pub lock_delay: u32,
    pub lock_delay_on_hard_drop: bool,
    pub wall_kicks: bool,
    pub scoring_system: scoring::Kind,
    pub action_cooldown: ActionCooldown,
}

impl Rules {
    /// The number of ticks that must pass between two uses of the same
    /// action kind.
    pub open spec fn cooldown_ticks(self) -> u8 {
        match self.action_cooldown {
            ActionCooldown::Shared(n) => n,
            ActionCooldown::Each(n) => n,
        }
    }

    /// The default rule set: no lock delay, instant lock on hard drop, wall
    /// kicks on, the BPS table, and a 20-tick action cooldown.
    pub fn new() -> (rules: Rules)
        ensures
            rules == (Rules {
                lock_delay: 0,
                lock_delay_on_hard_drop: false,
                wall_kicks: true,
                scoring_system: scoring::Kind::OriginalBPS,
                action_cooldown: ActionCooldown::Shared(20),
            }),
    {
        Rules {
            lock_delay: 0,
            lock_delay_on_hard_drop: false,
            wall_kicks: true,
            scoring_system: scoring::Kind::OriginalBPS,
            action_cooldown: ActionCooldown::Shared(20),
        }
    }

    /// Set how many ticks a resting piece may wait before it locks.
    pub fn lock_delay(&mut self, ld: u32)
        ensures
            *final(self) == (Rules { lock_delay: ld, ..*old(self) }),
    {
        self.lock_delay = ld
    }

    /// Set whether a hard drop still honours the lock delay.
    pub fn lock_delay_on_hard_drop(&mut self, v: bool)
        ensures
            *final(self) == (Rules { lock_delay_on_hard_drop: v, ..*old(self) }),
    {
        self.lock_delay_on_hard_drop = v
    }

    /// Select the scoring table.
    pub fn scoring_system(&mut self, kind: scoring::Kind)
        ensures
            *final(self) == (Rules { scoring_system: kind, ..*old(self) }),
    {
        self.scoring_system = kind
    }

    /// Set the anti-spam cooldown.
    pub fn action_cooldown(&mut self, action_cooldown: ActionCooldown)
        ensures
            *final(self) == (Rules { action_cooldown: action_cooldown, ..*old(self) }),
    {
        self.action_cooldown = action_cooldown
    }
}

} // verus!
