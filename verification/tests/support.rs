use tetris::actions::Action;
use tetris::assets::Registry;
use tetris::preferences::{DropIndicatorStyle, Preferences};
use tetris::recording_file::RecordingFile;
use tetris::recordings::{EventKind, Recording};
use tetris::replays::Replay;
use tetris::rules::{ActionCooldown, Rules};
use tetris::scoring;
use tetris::tetrominos::{from_kind, Kind};

#[test]
fn registry_stores_and_replaces_bytes() {
    let mut registry = Registry::new();
    assert!(registry.get("fonts/a.ttf").is_err());

    registry.insert("fonts/a.ttf", vec![1, 2, 3]);
    registry.insert("fonts/b.ttf", vec![9]);
    assert_eq!(registry.get("fonts/a.ttf").unwrap(), &vec![1, 2, 3]);
    assert_eq!(registry.get("fonts/b.ttf").unwrap(), &vec![9]);

    registry.insert("fonts/a.ttf", vec![7]);
    assert_eq!(registry.get("fonts/a.ttf").unwrap(), &vec![7]);
    assert_eq!(registry.get("fonts/b.ttf").unwrap(), &vec![9]);

    let missing = registry.get("fonts/c.ttf");
    assert!(missing.is_err());
    assert_eq!(missing.unwrap_err().describe(), "asset not found in registry");
}

#[test]
fn recording_keeps_events_in_push_order() {
    let mut recording = Recording::new();
    recording.push_piece(0, Kind::Stick);
    recording.push_action(3, Action::Rotate);
    recording.push_piece(5, Kind::Zig);
    recording.gameover(9);

    assert_eq!(recording.events.len(), 4);
    assert_eq!(recording.events[0].kind, EventKind::PieceSpawned(Kind::Stick));
    assert_eq!(recording.events[0].at, 0);
    assert_eq!(recording.events[1].kind, EventKind::Action(Action::Rotate));
    assert_eq!(recording.events[1].at, 3);
    assert_eq!(recording.events[2].kind, EventKind::PieceSpawned(Kind::Zig));
    assert_eq!(recording.events[3].kind, EventKind::GameOver);
    assert_eq!(recording.events[3].at, 9);
}

#[test]
fn replay_driver_hands_out_actions_when_due() {
    let mut recording = Recording::new();
    recording.push_piece(0, Kind::Stick);
    recording.push_action(4, Action::MoveLeft);
    recording.push_action(8, Action::Drop);
    let replay = Replay { recording };

    // not due yet
    assert_eq!(replay.next_due_action(0, 3), (1, None));
    // due exactly at its recorded tick
    assert_eq!(replay.next_due_action(0, 4), (2, Some(Action::MoveLeft)));
    // cursor moved past the first action; the second is not due yet
    assert_eq!(replay.next_due_action(2, 5), (2, None));
    assert_eq!(replay.next_due_action(2, 8), (3, Some(Action::Drop)));
    // nothing left to scan
    assert_eq!(replay.next_due_action(3, 100), (3, None));
}

#[test]
fn recording_file_bundles_the_artifacts() {
    let mut rules = Rules::new();
    rules.lock_delay(50);
    rules.scoring_system(scoring::Kind::OriginalSega);
    rules.action_cooldown(ActionCooldown::Each(20));
    let mut recording = Recording::new();
    recording.push_piece(0, Kind::Hook);

    let file = RecordingFile::new(1, rules, recording, 2000, 4);

    assert_eq!(file.version, 1);
    assert_eq!(file.final_score, 2000);
    assert_eq!(file.final_lines_cleared, 4);
    assert_eq!(file.rules.lock_delay, 50);
    assert_eq!(file.recording.events.len(), 1);
}

#[test]
fn default_preferences_show_an_outline() {
    let prefs = Preferences::new();
    assert_eq!(prefs.drop_indicator, DropIndicatorStyle::Outline);
}

#[test]
fn catalog_shapes_have_four_rotations_of_four_solid_cells() {
    for k in [
        Kind::Stick,
        Kind::Seven,
        Kind::Hook,
        Kind::Square,
        Kind::Snake,
        Kind::Pyramid,
        Kind::Zig,
    ] {
        let t = from_kind(k);
        assert_eq!(t.kind, k);
        for rot in 0..4 {
            let solid: u32 = t.forms[rot]
                .iter()
                .map(|row| row.iter().map(|c| *c as u32).sum::<u32>())
                .sum();
            assert_eq!(solid, 4, "every tetromino form holds four cells");
        }
    }
    // a spot check of the catalog data
    let stick = from_kind(Kind::Stick);
    assert_eq!(stick.forms[0][1], [1, 1, 1, 1]);
    assert_eq!(stick.forms[1][0], [0, 0, 1, 0]);
    let square = from_kind(Kind::Square);
    assert_eq!(square.forms[0], square.forms[3]);
}

#[test]
fn default_rules_match_the_documented_values() {
    let rules = Rules::new();
    assert_eq!(rules.lock_delay, 0);
    assert!(!rules.lock_delay_on_hard_drop);
    assert!(rules.wall_kicks);
    assert_eq!(rules.scoring_system, scoring::Kind::OriginalBPS);
    assert_eq!(rules.action_cooldown, ActionCooldown::Shared(20));
}
