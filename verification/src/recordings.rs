use vstd::prelude::*;

use crate::actions;
use crate::tetrominos;

verus! {

/// One kind of event worth replaying: pauses, the end of the game, a piece
/// entering play, or a player action.
#[derive(Debug, Copy, Clone, PartialEq, Eq, Structural)]
pub enum EventKind {
    Pause,
    Unpause,
    GameOver,
    PieceSpawned(tetrominos::Kind),
    Action(actions::Action),
}

/// An event stamped with the tick at which it happened.
#[derive(Debug, Copy, Clone, PartialEq, Eq, Structural)]
pub struct Event {
    pub kind: EventKind,
    pub at: usize,
}

/// An append-only log of timestamped events. Its timestamps never decrease,
/// and it is the sole artifact needed to reconstruct the piece sequence and
/// the input sequence of a finished game.
#[derive(Debug, Clone)]
#[verifier::ext_equal]
pub struct Recording {
    pub events: Vec<Event>,
}

impl Recording {
    /// Event timestamps never decrease along the log.
    pub open spec fn wf(self) -> bool {
        forall|i: int, j: int|
            0 <= i <= j < self.events@.len() ==> (#[trigger] self.events@[i]).at
                <= (#[trigger] self.events@[j]).at
    }

    /// The timestamp of the latest event, or zero for an empty log.
    pub open spec fn last_at(self) -> int {
        if self.events@.len() == 0 {
            0
        } else {
            self.events@[self.events@.len() - 1].at as int
        }
    }

    /// Start an empty log.
    pub fn new() -> (recording: Recording)
        ensures
            recording.events@ =~= Seq::<Event>::empty(),
            recording.wf(),
    {
        Recording { events: Vec::new() }
    }

    /// Append a player action issued at tick `at`.
    pub fn push_action(&mut self, at: usize, action: actions::Action)
        requires
            old(self).wf(),
            at >= old(self).last_at(),
        ensures
            final(self).wf(),
            final(self).events@ == old(self).events@.push(
                Event { kind: EventKind::Action(action), at },
            ),
    {
        self.events.push(Event { kind: EventKind::Action(action), at })
    }

    /// Append the spawn of a piece at tick `at`.
    pub fn push_piece(&mut self, at: usize, k: tetrominos::Kind)
        requires
            old(self).wf(),
            at >= old(self).last_at(),
        ensures
            final(self).wf(),
            final(self).events@ == old(self).events@.push(
                Event { kind: EventKind::PieceSpawned(k), at },
            ),
    {
        self.events.push(Event { kind: EventKind::PieceSpawned(k), at })
    }

    /// Append the end of the game at tick `at`.
    pub fn gameover(&mut self, at: usize)
        requires
            old(self).wf(),
            at >= old(self).last_at(),
        ensures
            final(self).wf(),
            final(self).events@ == old(self).events@.push(
                Event { kind: EventKind::GameOver, at },
            ),
    {
        self.events.push(Event { kind: EventKind::GameOver, at })
    }
}

} // verus!
