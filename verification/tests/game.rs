use tetris::actions::Action;
use tetris::errors::GameError;
use tetris::game::{Game, PieceProvider, Provider, TetrominoBag};
use tetris::playfield::Location;
use tetris::recordings::Recording;
use tetris::replays::{Replay, ReplayPieces};
use tetris::rules::{ActionCooldown, Rules};
use tetris::scoring;
use tetris::tetrominos::Kind;

/// A recording holding only spawn events, to seed a deterministic provider.
fn pieces_recording(kinds: &[Kind]) -> Recording {
    let mut recording = Recording::new();
    for k in kinds {
        recording.push_piece(0, *k);
    }
    recording
}

fn replay_provider(kinds: &[Kind]) -> Provider {
    let replay = Replay { recording: pieces_recording(kinds) };
    Provider::Replay(ReplayPieces::new(&replay))
}

fn many_pieces(n: usize) -> Vec<Kind> {
    let cycle = [
        Kind::Stick,
        Kind::Square,
        Kind::Pyramid,
        Kind::Seven,
        Kind::Snake,
        Kind::Hook,
        Kind::Zig,
    ];
    (0..n).map(|i| cycle[i % 7]).collect()
}

#[test]
fn bag_hands_out_each_kind_once_per_seven_draws() {
    let mut bag = TetrominoBag::new();
    let mut drawn: Vec<Kind> = Vec::new();
    for _ in 0..7 {
        drawn.push(bag.next().unwrap());
    }
    for k in [
        Kind::Stick,
        Kind::Square,
        Kind::Pyramid,
        Kind::Seven,
        Kind::Snake,
        Kind::Hook,
        Kind::Zig,
    ] {
        assert_eq!(drawn.iter().filter(|d| **d == k).count(), 1);
    }
}

#[test]
fn replay_pieces_run_in_order_then_exhaust() {
    let kinds = [Kind::Zig, Kind::Stick, Kind::Hook];
    let replay = Replay { recording: pieces_recording(&kinds) };
    let mut provider = ReplayPieces::new(&replay);
    assert_eq!(provider.next(), Ok(Kind::Zig));
    assert_eq!(provider.next(), Ok(Kind::Stick));
    assert_eq!(provider.next(), Ok(Kind::Hook));
    assert_eq!(provider.next(), Err(GameError::ReplayExhausted));
    assert_eq!(provider.next(), Err(GameError::ReplayExhausted));
}

#[test]
fn queue_action_enforces_cooldown() {
    let mut rules = Rules::new();
    rules.action_cooldown(ActionCooldown::Each(20));
    let mut game = Game::new(rules, Some(replay_provider(&many_pieces(50)))).unwrap();

    // every action kind starts stamped at tick zero, so nothing can be
    // queued until the cooldown has elapsed once
    assert_eq!(game.queue_action(Action::MoveLeft), Err(GameError::ActionOnCooldown));
    for _ in 0..20 {
        game.tick();
    }
    // tick 20: 20 - 0 >= 20, so the action is accepted
    assert_eq!(game.queue_action(Action::MoveLeft), Ok(()));
    // the slot holds one action; a second one is rejected outright
    assert_eq!(game.queue_action(Action::Rotate), Err(GameError::SlotOccupied));
    // consuming the action stamps its use at tick 21
    game.tick();
    // issuing the same action again within 20 ticks hits the cooldown
    assert_eq!(game.queue_action(Action::MoveLeft), Err(GameError::ActionOnCooldown));
    for _ in 0..20 {
        game.tick();
    }
    assert_eq!(game.queue_action(Action::MoveLeft), Ok(()));
}

#[test]
fn zero_lock_delay_locks_on_the_next_tick() {
    // Rules::new() has lock_delay = 0; a piece that cannot fall locks on the
    // very next tick, with no grace ticks
    let mut rules = Rules::new();
    rules.action_cooldown(ActionCooldown::Each(0));
    let mut game = Game::new(rules, Some(replay_provider(&many_pieces(50)))).unwrap();

    let well_cells_filled = |game: &Game| -> usize {
        let well_y = game.play_field.well_y();
        let well_x = game.play_field.well_x();
        let mut n = 0;
        for r in 0..22 {
            for c in 0..10 {
                if game.play_field.matrix[well_y + r][well_x + c] != Location::Empty {
                    n += 1;
                }
            }
        }
        n
    };

    assert_eq!(game.queue_action(Action::Drop), Ok(()));
    // tick 1 hard-drops the piece to the floor; it cannot fall, so it starts
    // locking with a zero countdown
    game.tick();
    assert_eq!(well_cells_filled(&game), 0);
    // tick 2 finds the countdown at zero and imprints the piece
    game.tick();
    assert_eq!(well_cells_filled(&game), 4);
}

#[test]
fn gameover_freezes_score_lines_and_playfield() {
    // a replay with no pieces beyond the two primed ones ends at the first
    // lock; after that, ticking must change nothing
    let mut rules = Rules::new();
    rules.action_cooldown(ActionCooldown::Each(0));
    let mut game = Game::new(rules, Some(replay_provider(&many_pieces(2)))).unwrap();

    let mut guard = 0;
    while !game.is_gameover() {
        let _ = game.queue_action(Action::Drop);
        game.tick();
        guard += 1;
        assert!(guard < 10_000, "game never ended");
    }

    let score = game.score_points;
    let lines = game.score_lines_cleared;
    let matrix = game.play_field.matrix.clone();
    let ticks = game.tick();
    for _ in 0..100 {
        assert_eq!(game.tick(), ticks);
    }
    assert_eq!(game.score_points, score);
    assert_eq!(game.score_lines_cleared, lines);
    assert_eq!(game.play_field.matrix, matrix);
    assert!(game.is_gameover());
}

#[test]
fn queue_action_rejected_after_gameover() {
    let mut rules = Rules::new();
    rules.action_cooldown(ActionCooldown::Each(0));
    let mut game = Game::new(rules, Some(replay_provider(&many_pieces(2)))).unwrap();
    let mut guard = 0;
    while !game.is_gameover() {
        let _ = game.queue_action(Action::Drop);
        game.tick();
        guard += 1;
        assert!(guard < 10_000);
    }
    assert_eq!(game.queue_action(Action::MoveLeft), Err(GameError::NotPlaying));
}

#[test]
fn moves_respect_walls() {
    let mut rules = Rules::new();
    rules.action_cooldown(ActionCooldown::Each(0));
    // a square spawns with bits in box columns 1 and 2
    let mut game = Game::new(
        rules,
        Some(replay_provider(&[
            Kind::Square,
            Kind::Square,
            Kind::Square,
            Kind::Square,
            Kind::Square,
        ])),
    )
    .unwrap();
    assert_eq!(game.piece.tetromino, Kind::Square);
    // let gravity carry the piece below the spawn headroom, into the rows
    // where the edge columns bound the well
    while game.piece.y < 6 {
        game.tick();
    }
    let x0 = game.piece.x;
    // slide left until the wall stops the piece
    for _ in 0..20 {
        game.move_left();
    }
    let x_left = game.piece.x;
    assert!(x_left < x0);
    // square bits sit in box columns 1..3; the well starts at column 3
    assert_eq!(x_left, 2);
    // and right up to the other wall
    for _ in 0..20 {
        game.move_right();
    }
    assert_eq!(game.piece.x, 10);
}

#[test]
fn rotation_keeps_position_when_blocked_without_kicks() {
    let mut rules = Rules::new();
    rules.action_cooldown(ActionCooldown::Each(0));
    let mut game = Game::new(
        rules,
        Some(replay_provider(&many_pieces(10))),
    )
    .unwrap();
    // first primed piece is a stick; park it against the left wall upright
    assert_eq!(game.piece.tetromino, Kind::Stick);
    game.rotate();
    assert_eq!(game.piece.rotation, 1);
    for _ in 0..20 {
        game.move_left();
    }
    // vertical stick occupies box column 2; against the wall x + 2 == 3
    assert_eq!(game.piece.x, 1);
}

#[test]
fn drop_distance_counts_rows_to_first_collision() {
    let mut rules = Rules::new();
    rules.action_cooldown(ActionCooldown::Each(0));
    let game = Game::new(rules, Some(replay_provider(&many_pieces(10)))).unwrap();
    // stick spawns horizontally at y = 2 with bits in box row 1: matrix row 3.
    // rows 4..26 are the well, rows 26.. are edge; the lowest free bit row is
    // 25, so the box can sit at y = 24 and first collides at y = 25: 23 rows
    // below the spawn
    assert_eq!(game.piece.tetromino, Kind::Stick);
    assert_eq!(game.drop_distance(), 23);
}

#[test]
fn clearing_a_row_awards_points_and_lines() {
    let mut rules = Rules::new();
    rules.scoring_system(scoring::Kind::OriginalSega);
    rules.action_cooldown(ActionCooldown::Each(0));
    let mut game = Game::new(rules, Some(replay_provider(&many_pieces(30)))).unwrap();
    // hand-fill the bottom well row except one cell, then fake-complete it
    let well_y = game.play_field.well_y();
    let well_x = game.play_field.well_x();
    for c in 0..10 {
        game.play_field.matrix[well_y + 21][well_x + c] = Location::Filled(Kind::Zig);
    }
    // the next tick clears the row and awards Sega level-1 single points
    game.tick();
    assert_eq!(game.score_lines_cleared, 1);
    assert_eq!(game.score_points, 100);
}

#[test]
fn replay_reproduces_live_game() {
    // play a live game on the bag randomizer with scripted inputs, then
    // rebuild the game from its recording and drive it with the recorded
    // actions at their recorded ticks: the final well, score and line count
    // must come out identical
    let mut rules = Rules::new();
    rules.scoring_system(scoring::Kind::OriginalSega);
    rules.lock_delay(3);
    let mut live = Game::new(rules, None).unwrap();

    let mut t = 0usize;
    let mut guard = 0u32;
    while !live.is_gameover() {
        match t % 37 {
            5 => {
                let _ = live.queue_action(Action::MoveLeft);
            }
            11 => {
                let _ = live.queue_action(Action::MoveRight);
            }
            17 => {
                let _ = live.queue_action(Action::Rotate);
            }
            23 => {
                let _ = live.queue_action(Action::Drop);
            }
            29 => {
                let _ = live.queue_action(Action::MoveDown);
            }
            _ => {}
        }
        t = live.tick();
        guard += 1;
        assert!(guard < 5_000_000, "live game never ended");
    }

    let final_matrix = live.play_field.matrix.clone();
    let final_score = live.score_points;
    let final_lines = live.score_lines_cleared;

    let replay = Replay { recording: Recording { events: live.recording.events.clone() } };
    let provider = Provider::Replay(ReplayPieces::new(&replay));
    let mut playback = Game::new(rules, Some(provider)).unwrap();

    let mut idx = 0usize;
    let mut rt = 0usize;
    let mut guard = 0u32;
    while !playback.is_gameover() {
        let (next_idx, due) = replay.next_due_action(idx, rt + 1);
        idx = next_idx;
        if let Some(a) = due {
            let _ = playback.queue_action(a);
        }
        rt = playback.tick();
        guard += 1;
        assert!(guard < 5_000_000, "playback never ended");
    }

    assert_eq!(playback.score_points, final_score);
    assert_eq!(playback.score_lines_cleared, final_lines);
    assert_eq!(playback.play_field.matrix, final_matrix);
}

#[test]
fn spawn_into_a_full_well_reports_the_blocked_spawn() {
    let mut rules = Rules::new();
    rules.action_cooldown(ActionCooldown::Each(0));
    let mut game = Game::new(rules, Some(replay_provider(&many_pieces(30)))).unwrap();
    // wall off the spawn area
    for r in 0..6 {
        for c in 0..16 {
            if game.play_field.matrix[r][c] == Location::Empty {
                game.play_field.matrix[r][c] = Location::Filled(Kind::Seven);
            }
        }
    }
    assert_eq!(game.grab_next_piece(), Err(GameError::SpawnBlocked));
}

#[test]
fn new_game_starts_at_level_one_and_records_two_spawns() {
    let rules = Rules::new();
    let game = Game::new(rules, Some(replay_provider(&[Kind::Hook, Kind::Snake, Kind::Zig])))
        .unwrap();
    assert_eq!(game.level, 1);
    assert_eq!(game.speed, 70);
    assert!(!game.is_gameover());
    assert_eq!(game.piece.tetromino, Kind::Hook);
    assert_eq!(game.next_piece, Kind::Snake);
    assert_eq!(game.recording.events.len(), 2);
    assert_eq!(game.score_points, 0);
    assert_eq!(game.score_lines_cleared, 0);
}

#[test]
fn speed_table_is_monotone_and_floors_at_the_fastest() {
    let mut last = tetris::calculate_speed_from_level(1);
    assert_eq!(last, 70);
    for level in 2..=15 {
        let speed = tetris::calculate_speed_from_level(level);
        assert!(speed < last);
        last = speed;
    }
    assert_eq!(tetris::calculate_speed_from_level(16), 10);
    assert_eq!(tetris::calculate_speed_from_level(255), 10);
}

#[test]
fn wall_kick_shifts_a_blocked_rotation() {
    let mut rules = Rules::new();
    rules.action_cooldown(ActionCooldown::Each(0));
    // wall kicks are on by default
    assert!(rules.wall_kicks);
    let mut game = Game::new(rules, Some(replay_provider(&many_pieces(10)))).unwrap();
    assert_eq!(game.piece.tetromino, Kind::Stick);
    // drop below the headroom, stand the stick upright and park it at the wall
    while game.piece.y < 8 {
        game.tick();
    }
    game.rotate();
    assert_eq!(game.piece.rotation, 1);
    for _ in 0..20 {
        game.move_right();
    }
    // the upright stick's column (box column 2) rests against the right wall
    assert_eq!(game.piece.x, 10);
    // rotating to horizontal in place would poke the wall (box columns 0..4
    // at x 10 reach the edge), so the kick shifts the piece one cell left
    game.rotate();
    assert_eq!(game.piece.rotation, 2);
    assert_eq!(game.piece.x, 9);
}

#[test]
fn sliding_resets_lock_delay_but_rotating_does_not() {
    let mut rules = Rules::new();
    rules.lock_delay(5);
    rules.action_cooldown(ActionCooldown::Each(0));
    let mut game = Game::new(rules, Some(replay_provider(&many_pieces(30)))).unwrap();
    // soft-drop the piece row by row until it rests on the floor; the tick
    // that lands it also starts the lock countdown at the full delay
    while game.drop_distance() > 1 {
        game.drop_one();
        game.tick();
    }
    assert!(game.piece.busy_locking);
    assert_eq!(game.piece.remaining_lock_frames, 5);
    // a tick of resting counts the delay down
    game.tick();
    assert_eq!(game.piece.remaining_lock_frames, 4);
    // a rotation does not reset the countdown
    game.rotate();
    assert_eq!(game.piece.remaining_lock_frames, 4);
    // a successful slide gives the piece a fresh lock window
    game.move_left();
    assert_eq!(game.piece.remaining_lock_frames, 5);
}
