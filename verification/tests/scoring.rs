use tetris::scoring::{
    DS, Kind, OriginalBPS, OriginalNintendo, OriginalSega, ScoringSystem, System,
};

#[test]
fn sega_tetris_at_level_one_scores_2000() {
    let mut sega = OriginalSega::new();
    assert_eq!(sega.lines_cleared(1, 4), 2000);
}

#[test]
fn sega_bands_by_level() {
    let mut sega = OriginalSega::new();
    assert_eq!(sega.lines_cleared(1, 1), 100);
    assert_eq!(sega.lines_cleared(3, 2), 800);
    assert_eq!(sega.lines_cleared(6, 3), 2700);
    assert_eq!(sega.lines_cleared(8, 4), 8000);
    assert_eq!(sega.lines_cleared(9, 4), 10000);
    assert_eq!(sega.lines_cleared(9, 0), 0);
}

#[test]
fn bps_table_is_level_independent() {
    let mut bps = OriginalBPS::new();
    assert_eq!(bps.lines_cleared(1, 1), 40);
    assert_eq!(bps.lines_cleared(7, 2), 100);
    assert_eq!(bps.lines_cleared(2, 3), 300);
    assert_eq!(bps.lines_cleared(5, 4), 1200);
    assert_eq!(bps.lines_cleared(5, 0), 0);
}

#[test]
fn counts_above_four_score_nothing_in_every_table() {
    // a single falling piece spans at most four rows, so counts above four
    // are unmapped; every table returns 0 for them defensively
    let mut bps = OriginalBPS::new();
    let mut sega = OriginalSega::new();
    let mut nintendo = OriginalNintendo::new();
    let mut ds = DS::new();
    for count in [5u8, 6, 100, 255] {
        assert_eq!(bps.lines_cleared(1, count), 0);
        assert_eq!(sega.lines_cleared(1, count), 0);
        assert_eq!(nintendo.lines_cleared(1, count), 0);
        assert_eq!(ds.lines_cleared(1, count), 0);
    }
}

#[test]
fn nintendo_table_scales_with_level() {
    let mut nintendo = OriginalNintendo::new();
    assert_eq!(nintendo.lines_cleared(2, 1), 80);
    assert_eq!(nintendo.lines_cleared(3, 4), 3600);
    assert_eq!(nintendo.lines_cleared(3, 0), 0);
}

#[test]
fn ds_table_scales_with_level() {
    let mut ds = DS::new();
    assert_eq!(ds.lines_cleared(2, 1), 1600);
    assert_eq!(ds.lines_cleared(1, 4), 2000);
    assert_eq!(ds.lines_cleared(1, 5), 0);
}

#[test]
fn scoring_system_dispatches_by_kind() {
    let mut s = ScoringSystem::for_kind(Kind::OriginalSega);
    assert_eq!(s.lines_cleared(1, 4), 2000);
    let mut s = ScoringSystem::for_kind(Kind::OriginalBPS);
    assert_eq!(s.lines_cleared(1, 4), 1200);
    let mut s = ScoringSystem::for_kind(Kind::OriginalNintendo);
    assert_eq!(s.lines_cleared(1, 4), 1200);
    let mut s = ScoringSystem::for_kind(Kind::DS);
    assert_eq!(s.lines_cleared(1, 4), 2000);
}
