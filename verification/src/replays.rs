use vstd::prelude::*;

use crate::actions;
use crate::errors::GameError;
use crate::game;
use crate::game::PieceProvider;
use crate::recordings;
use crate::tetrominos;

verus! {

/// A recording wrapped up for playback.
pub struct Replay {
    pub recording: recordings::Recording,
}

/// The kinds of the spawn events of a sequence of recorded events, in
/// recorded order.
pub open spec fn spawned_kinds(events: Seq<recordings::Event>) -> Seq<tetrominos::Kind>
    decreases events.len(),
{
    if events.len() == 0 {
        Seq::empty()
    } else {
        let rest = spawned_kinds(events.drop_last());
        match events.last().kind {
            recordings::EventKind::PieceSpawned(k) => rest.push(k),
            _ => rest,
        }
    }
}

/// A replay-driven piece provider: it hands out the recorded piece kinds
/// strictly in recorded order and reports exhaustion once they run out,
/// which the game treats as the natural end of the replay.
#[derive(Debug, Clone)]
#[verifier::ext_equal]
pub struct ReplayPieces {
    pub pieces: Vec<tetrominos::Kind>,
    pub idx: usize,
}

impl ReplayPieces {
    /// Seed a provider with the spawn events of a recording, oldest first.
    pub fn new(replay: &Replay) -> (provider: ReplayPieces)
        ensures
            provider.pieces@ == spawned_kinds(replay.recording.events@),
            provider.idx == 0,
            provider.inv(),
    {
        let mut pieces: Vec<tetrominos::Kind> = Vec::new();
        let n = replay.recording.events.len();
        let mut i: usize = 0;
        while i < n
            invariant
                i <= n,
                n == replay.recording.events@.len(),
                pieces@ == spawned_kinds(replay.recording.events@.take(i as int)),
            decreases n - i,
        {
            let ev = &replay.recording.events[i];
            match ev.kind {
                recordings::EventKind::PieceSpawned(k) => {
                    pieces.push(k);
                },
                _ => {},
            }
            proof {
                let evs = replay.recording.events@;
                assert(evs.take(i + 1).drop_last() =~= evs.take(i as int));
                assert(evs.take(i + 1).last() == evs[i as int]);
            }
            i += 1;
        }
        proof {
            assert(replay.recording.events@.take(n as int) =~= replay.recording.events@);
        }
        ReplayPieces { pieces, idx: 0 }
    }
}

impl game::PieceProvider for ReplayPieces {
    /// The cursor never runs past the recorded list.
    open spec fn inv(&self) -> bool {
        self.idx <= self.pieces@.len()
    }

    open spec fn model(&self) -> game::ProviderModel {
        game::ProviderModel::Replay(self.pieces@, self.idx as int)
    }

    fn next(&mut self) -> (r: Result<tetrominos::Kind, GameError>) {
        if self.idx >= self.pieces.len() {
            return Err(GameError::ReplayExhausted);
        }
        let p = self.pieces[self.idx];
        self.idx += 1;
        Ok(p)
    }
}

} // verus!

verus! {

/// The index of the first event at or after `i` whose kind is an action,
/// except that the scan never walks past the last event.
pub open spec fn scan_to_action(events: Seq<recordings::Event>, i: int) -> int
    decreases events.len() - i,
{
    if i < events.len() - 1 && !(events[i].kind is Action) {
        scan_to_action(events, i + 1)
    } else {
        i
    }
}

impl Replay {
    /// The replay driver's per-tick decision: starting from cursor `idx`,
    /// find the next recorded action; if it is due (recorded at or before
    /// `next_tick`, the tick the caller is about to simulate), hand it out
    /// and move the cursor past it, otherwise keep waiting. The caller
    /// queues the returned action on the same game machinery live play uses,
    /// so the action is consumed on the tick it was recorded at.
    #[verifier::loop_isolation(false)]
    pub fn next_due_action(&self, idx: usize, next_tick: usize) -> (r: (
        usize,
        Option<actions::Action>,
    ))
        requires
            idx <= self.recording.events@.len(),
        ensures
            ({
                let events = self.recording.events@;
                let j = scan_to_action(events, idx as int);
                if 0 <= j < events.len() && (events[j].kind matches recordings::EventKind::Action(
                    a,
                ) && events[j].at <= next_tick) {
                    r == ((j + 1) as usize, Some(events[j].kind->Action_0))
                } else {
                    r == (j as usize, None::<actions::Action>)
                }
            }),
    {
        let ghost events = self.recording.events@;
        let n = self.recording.events.len();
        let mut i: usize = idx;
        if n == 0 {
            return (i, None);
        }
        while i < n - 1 && !matches!(self.recording.events[i].kind, recordings::EventKind::Action(
            _,
        ))
            invariant
                idx <= i <= events.len(),
                scan_to_action(events, idx as int) == scan_to_action(events, i as int),
            decreases n - i,
        {
            i += 1;
        }
        proof {
            assert(scan_to_action(events, i as int) == i);
        }
        if i < n {
            match self.recording.events[i].kind {
                recordings::EventKind::Action(a) => {
                    if self.recording.events[i].at <= next_tick {
                        return (i + 1, Some(a));
                    }
                    return (i, None);
                },
                _ => {
                    return (i, None);
                },
            }
        }
        (i, None)
    }
}

} // verus!
