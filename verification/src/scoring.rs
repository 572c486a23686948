use vstd::prelude::*;

verus! {

/// Selector for one of the four historical scoring tables.
#[derive(Clone, Copy, Debug, PartialEq, Eq, Structural)]
pub enum Kind {
    OriginalBPS,
    OriginalSega,
    OriginalNintendo,
    DS,
}

/// The BPS table: a flat award per simultaneous clear count, independent of
/// the level; counts outside 0 to 4 score nothing.
pub open spec fn bps_points(level: u8, lines: u8) -> u32 {
    match lines {
        0 => 0,
        1 => 40,
        2 => 100,
        3 => 300,
        4 => 1200,
        _ => 0,
    }
}

/// The Sega table: awards banded by level range; counts outside 1 to 4
/// score nothing.
pub open spec fn sega_points(level: u8, count: u8) -> u32 {
    if 1 <= level <= 2 {
        match count {
            1 => 100,
            2 => 400,
            3 => 900,
            4 => 2000,
            _ => 0,
        }
    } else if 3 <= level <= 4 {
        match count {
            1 => 200,
            2 => 800,
            3 => 1800,
            4 => 4000,
            _ => 0,
        }
    } else if 5 <= level <= 6 {
        match count {
            1 => 300,
            2 => 1200,
            3 => 2700,
            4 => 6000,
            _ => 0,
        }
    } else if 7 <= level <= 8 {
        match count {
            1 => 400,
            2 => 1600,
            3 => 3600,
            4 => 8000,
            _ => 0,
        }
    } else {
        match count {
            1 => 500,
            2 => 2000,
            3 => 4500,
            4 => 10000,
            _ => 0,
        }
    }
}

/// The Nintendo table: a per-count base multiplied by the level.
pub open spec fn nintendo_points(level: u8, lines: u8) -> u32 {
    match lines {
        1 => (40 * level) as u32,
        2 => (100 * level) as u32,
        3 => (300 * level) as u32,
        4 => (1200 * level) as u32,
        _ => 0,
    }
}

/// The DS table: a per-count base multiplied by the level.
pub open spec fn ds_points(level: u8, lines: u8) -> u32 {
    match lines {
        1 => (800 * level) as u32,
        2 => (1200 * level) as u32,
        3 => (1800 * level) as u32,
        4 => (2000 * level) as u32,
        _ => 0,
    }
}

/// Points awarded by the selected table for clearing `lines` rows at once
/// on the given level. A pure function of its inputs: no scoring state may
/// influence the award.
pub open spec fn points_table(k: Kind, level: u8, lines: u8) -> u32 {
    match k {
        Kind::OriginalBPS => bps_points(level, lines),
        Kind::OriginalSega => sega_points(level, lines),
        Kind::OriginalNintendo => nintendo_points(level, lines),
        Kind::DS => ds_points(level, lines),
    }
}

/// The capability every scoring table offers: award points for `lines`
/// simultaneously cleared rows at a level. Implementations may keep a
/// cumulative total for introspection, but the award is a pure function of
/// the inputs.
pub trait System: Sized {
    /// Which table this implementation computes.
    spec fn kind_spec() -> Kind;

    /// The cumulative total this implementation has handed out so far
    /// (saturating).
    spec fn total_spec(&self) -> u32;

    /// Award points for `lines` rows cleared at once on `level`.
    fn lines_cleared(&mut self, level: u8, lines: u8) -> (points: u32)
        ensures
            points == points_table(Self::kind_spec(), level, lines),
            final(self).total_spec() == old(self).total_spec().saturating_add(points),
    ;
}

/// The Bits-per-second era table.
#[derive(Debug, Clone, Copy, PartialEq, Eq, Structural)]
pub struct OriginalBPS {
    pub points: u32,
    pub lines_cleared: u32,
}

impl OriginalBPS {
    pub fn new() -> (s: OriginalBPS)
        ensures
            s.total_spec() == 0,
    {
        OriginalBPS { points: 0, lines_cleared: 0 }
    }
}

impl System for OriginalBPS {
    open spec fn kind_spec() -> Kind {
        Kind::OriginalBPS
    }

    open spec fn total_spec(&self) -> u32 {
        self.points
    }

    fn lines_cleared(&mut self, level: u8, lines: u8) -> (points: u32) {
        let points: u32 = match lines {
            0 => 0,
            1 => 40,
            2 => 100,
            3 => 300,
            4 => 1200,
            _ => 0,
        };
        self.points = self.points.saturating_add(points);
        points
    }
}

/// The Sega arcade table.
#[derive(Debug, Clone, Copy, PartialEq, Eq, Structural)]
pub struct OriginalSega {
    pub points: u32,
    pub lines_cleared: u32,
}

impl OriginalSega {
    pub fn new() -> (s: OriginalSega)
        ensures
            s.total_spec() == 0,
    {
        OriginalSega { points: 0, lines_cleared: 0 }
    }
}

impl System for OriginalSega {
    open spec fn kind_spec() -> Kind {
        Kind::OriginalSega
    }

    open spec fn total_spec(&self) -> u32 {
        self.points
    }

    fn lines_cleared(&mut self, level: u8, count: u8) -> (points: u32) {
        let points: u32 = if level >= 1 && level <= 2 {
            match count {
                1 => 100,
                2 => 400,
                3 => 900,
                4 => 2000,
                _ => 0,
            }
        } else if level >= 3 && level <= 4 {
            match count {
                1 => 200,
                2 => 800,
                3 => 1800,
                4 => 4000,
                _ => 0,
            }
        } else if level >= 5 && level <= 6 {
            match count {
                1 => 300,
                2 => 1200,
                3 => 2700,
                4 => 6000,
                _ => 0,
            }
        } else if level >= 7 && level <= 8 {
            match count {
                1 => 400,
                2 => 1600,
                3 => 3600,
                4 => 8000,
                _ => 0,
            }
        } else {
            match count {
                1 => 500,
                2 => 2000,
                3 => 4500,
                4 => 10000,
                _ => 0,
            }
        };
        self.points = self.points.saturating_add(points);
        points
    }
}

/// The Nintendo home-console table.
#[derive(Debug, Clone, Copy, PartialEq, Eq, Structural)]
pub struct OriginalNintendo {
    pub points: u32,
    pub lines_cleared: u32,
}

impl OriginalNintendo {
    pub fn new() -> (s: OriginalNintendo)
        ensures
            s.total_spec() == 0,
    {
        OriginalNintendo { points: 0, lines_cleared: 0 }
    }
}

impl System for OriginalNintendo {
    open spec fn kind_spec() -> Kind {
        Kind::OriginalNintendo
    }

    open spec fn total_spec(&self) -> u32 {
        self.points
    }

    fn lines_cleared(&mut self, level: u8, lines: u8) -> (points: u32) {
        let level32 = level as u32;
        let points: u32 = match lines {
            1 => 40 * level32,
            2 => 100 * level32,
            3 => 300 * level32,
            4 => 1200 * level32,
            _ => 0,
        };
        self.points = self.points.saturating_add(points);
        points
    }
}

/// The handheld DS table.
#[derive(Debug, Clone, Copy, PartialEq, Eq, Structural)]
pub struct DS {
    pub points: u32,
    pub lines_cleared: u32,
}

impl DS {
    pub fn new() -> (s: DS)
        ensures
            s.total_spec() == 0,
    {
        DS { points: 0, lines_cleared: 0 }
    }
}

impl System for DS {
    open spec fn kind_spec() -> Kind {
        Kind::DS
    }

    open spec fn total_spec(&self) -> u32 {
        self.points
    }

    fn lines_cleared(&mut self, level: u8, lines: u8) -> (points: u32) {
        let level32 = level as u32;
        let points: u32 = match lines {
            1 => 800 * level32,
            2 => 1200 * level32,
            3 => 1800 * level32,
            4 => 2000 * level32,
            _ => 0,
        };
        self.points = self.points.saturating_add(points);
        points
    }
}

/// The closed set of scoring tables, usable where the active table is picked
/// at run time. Its serialized form can carry the `Kind` discriminant
/// explicitly.
#[derive(Debug, Clone, Copy, PartialEq, Eq, Structural)]
pub enum ScoringSystem {
    OriginalBPS(OriginalBPS),
    OriginalSega(OriginalSega),
    OriginalNintendo(OriginalNintendo),
    DS(DS),
}

impl ScoringSystem {
    /// Which table this value computes.
    pub open spec fn kind(self) -> Kind {
        match self {
            ScoringSystem::OriginalBPS(_) => Kind::OriginalBPS,
            ScoringSystem::OriginalSega(_) => Kind::OriginalSega,
            ScoringSystem::OriginalNintendo(_) => Kind::OriginalNintendo,
            ScoringSystem::DS(_) => Kind::DS,
        }
    }

    /// The cumulative total handed out so far.
    pub open spec fn total(self) -> u32 {
        match self {
            ScoringSystem::OriginalBPS(s) => s.total_spec(),
            ScoringSystem::OriginalSega(s) => s.total_spec(),
            ScoringSystem::OriginalNintendo(s) => s.total_spec(),
            ScoringSystem::DS(s) => s.total_spec(),
        }
    }

    /// Build the fresh scoring system for a selector.
    pub fn for_kind(kind: Kind) -> (s: ScoringSystem)
        ensures
            s.kind() == kind,
            s.total() == 0,
    {
        match kind {
            Kind::OriginalBPS => ScoringSystem::OriginalBPS(OriginalBPS::new()),
            Kind::OriginalSega => ScoringSystem::OriginalSega(OriginalSega::new()),
            Kind::OriginalNintendo => ScoringSystem::OriginalNintendo(OriginalNintendo::new()),
            Kind::DS => ScoringSystem::DS(DS::new()),
        }
    }

    /// Award points for `lines` rows cleared at once on `level`, by the
    /// active table.
    pub fn lines_cleared(&mut self, level: u8, lines: u8) -> (points: u32)
        ensures
            points == points_table(old(self).kind(), level, lines),
            final(self).kind() == old(self).kind(),
            final(self).total() == old(self).total().saturating_add(points),
    {
        match self {
            ScoringSystem::OriginalBPS(s) => s.lines_cleared(level, lines),
            ScoringSystem::OriginalSega(s) => s.lines_cleared(level, lines),
            ScoringSystem::OriginalNintendo(s) => s.lines_cleared(level, lines),
            ScoringSystem::DS(s) => s.lines_cleared(level, lines),
        }
    }
}

} // verus!
