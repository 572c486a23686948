use vstd::prelude::*;

pub mod actions;
pub mod assets;
pub mod errors;
pub mod game;
pub mod playfield;
pub mod preferences;
pub mod recording_file;
pub mod recordings;
pub mod replays;
mod rng;
pub mod rules;
pub mod scoring;
pub mod tetrominos;

verus! {

/// Gravity interval in ticks for a given level: a lower value means the
/// active piece falls one row after fewer ticks, so play is faster.
/// Level 16 and above stay at the fastest defined interval.
pub open spec fn speed_for_level(level: u8) -> u8 {
    match level {
        1 => 70,
        2 => 60,
        3 => 51,
        4 => 43,
        5 => 36,
        6 => 30,
        7 => 25,
        8 => 21,
        9 => 18,
        10 => 16,
        11 => 15,
        12 => 14,
        13 => 13,
        14 => 12,
        15 => 11,
        _ => 10,
    }
}

/// Look up the fall speed (ticks per one-row drop) for a level.
pub fn calculate_speed_from_level(level: u8) -> (speed: u8)
    ensures
        speed == speed_for_level(level),
        10 <= speed <= 70,
{
    match level {
        1 => 70,
        2 => 60,
        3 => 51,
        4 => 43,
        5 => 36,
        6 => 30,
        7 => 25,
        8 => 21,
        9 => 18,
        10 => 16,
        11 => 15,
        12 => 14,
        13 => 13,
        14 => 12,
        15 => 11,
        _ => 10,
    }
}

} // verus!
