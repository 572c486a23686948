use vstd::prelude::*;

verus! {

/// How the drop preview of the falling piece is drawn.
#[derive(Clone, Copy, Debug, PartialEq, Eq, Structural)]
pub enum DropIndicatorStyle {
    Hidden,
    Outline,
    Triangles,
}

/// Player-facing presentation preferences; the simulation itself never reads
/// them.
#[derive(Clone, Copy, Debug, PartialEq, Eq, Structural)]
pub struct Preferences {
    pub drop_indicator: DropIndicatorStyle,
}

impl Preferences {
    /// The default preferences: an outline drop preview.
    pub fn new() -> (prefs: Preferences)
        ensures
            prefs == (Preferences { drop_indicator: DropIndicatorStyle::Outline }),
    {
        Preferences { drop_indicator: DropIndicatorStyle::Outline }
    }
}

} // verus!
