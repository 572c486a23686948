use vstd::multiset::Multiset;
use vstd::prelude::*;

use crate::actions;
use crate::errors::GameError;
use crate::playfield;
use crate::playfield::PlayField;
use crate::recordings;
use crate::replays;
use crate::rng;
use crate::rules;
use crate::scoring;
use crate::tetrominos;

verus! {

/// The active falling piece: its kind, the matrix position of its 4x4
/// bounding box's top-left corner, its rotation, the sub-tick fall
/// accumulator, and the lock-delay countdown state.
#[derive(Debug, Clone, Copy, PartialEq, Eq, Structural)]
pub struct Piece {
    pub tetromino: tetrominos::Kind,
    pub x: u16,
    pub y: u16,
    pub creep: usize,
    pub rotation: u8,
    pub busy_locking: bool,
    pub remaining_lock_frames: u32,
}

impl Piece {
    /// The mathematical bitmask of the piece at its current rotation.
    pub open spec fn bits(self) -> Seq<Seq<u8>> {
        tetrominos::form_spec(self.tetromino, self.rotation as int)
    }

    fn new(k: tetrominos::Kind) -> (piece: Piece)
        ensures
            piece == (Piece {
                tetromino: k,
                x: 4,
                y: 0,
                creep: 0,
                rotation: 0,
                busy_locking: false,
                remaining_lock_frames: 0,
            }),
    {
        Piece { tetromino: k, x: 4, y: 0, creep: 0, rotation: 0, busy_locking: false, remaining_lock_frames: 0 }
    }

    /// The pre-baked 4x4 shape of the piece at its current rotation.
    pub fn form(&self) -> (form: playfield::Shape)
        requires
            self.rotation < 4,
        ensures
            playfield::shape_bits(form) =~~= self.bits(),
    {
        let t = tetrominos::from_kind(self.tetromino);
        let form = t.forms[self.rotation as usize];
        proof {
            assert(playfield::shape_bits(form) =~~= self.bits());
        }
        form
    }
}

/// The lifecycle of one game: construction, play, and the one-way transition
/// into game over.
#[derive(Debug, Clone, Copy, PartialEq, Eq, Structural)]
pub enum State {
    Init,
    Playing,
    GameOver,
}

/// The tick at which each action kind was last applied, for the per-action
/// cooldown check. A fresh game stamps every action with tick zero.
#[derive(Debug, Clone, Copy, PartialEq, Eq, Structural)]
pub struct ActionStamps {
    pub drop: usize,
    pub move_down: usize,
    pub move_left: usize,
    pub move_right: usize,
    pub rotate: usize,
}

impl ActionStamps {
    /// The stamp recorded for one action kind.
    pub open spec fn stamp(self, a: actions::Action) -> usize {
        match a {
            actions::Action::Drop => self.drop,
            actions::Action::MoveDown => self.move_down,
            actions::Action::MoveLeft => self.move_left,
            actions::Action::MoveRight => self.move_right,
            actions::Action::Rotate => self.rotate,
        }
    }

    /// The stamps with one action kind set to `t`.
    pub open spec fn with_stamp(self, a: actions::Action, t: usize) -> ActionStamps {
        match a {
            actions::Action::Drop => ActionStamps { drop: t, ..self },
            actions::Action::MoveDown => ActionStamps { move_down: t, ..self },
            actions::Action::MoveLeft => ActionStamps { move_left: t, ..self },
            actions::Action::MoveRight => ActionStamps { move_right: t, ..self },
            actions::Action::Rotate => ActionStamps { rotate: t, ..self },
        }
    }

    /// All stamps are at most `t`.
    pub open spec fn all_le(self, t: usize) -> bool {
        self.drop <= t && self.move_down <= t && self.move_left <= t && self.move_right <= t
            && self.rotate <= t
    }

    fn new() -> (stamps: ActionStamps)
        ensures
            stamps == (ActionStamps {
                drop: 0,
                move_down: 0,
                move_left: 0,
                move_right: 0,
                rotate: 0,
            }),
    {
        ActionStamps { drop: 0, move_down: 0, move_left: 0, move_right: 0, rotate: 0 }
    }

    fn get(&self, a: actions::Action) -> (t: usize)
        ensures
            t == self.stamp(a),
    {
        match a {
            actions::Action::Drop => self.drop,
            actions::Action::MoveDown => self.move_down,
            actions::Action::MoveLeft => self.move_left,
            actions::Action::MoveRight => self.move_right,
            actions::Action::Rotate => self.rotate,
        }
    }

    fn set(&mut self, a: actions::Action, t: usize)
        ensures
            *final(self) == old(self).with_stamp(a, t),
    {
        match a {
            actions::Action::Drop => self.drop = t,
            actions::Action::MoveDown => self.move_down = t,
            actions::Action::MoveLeft => self.move_left = t,
            actions::Action::MoveRight => self.move_right = t,
            actions::Action::Rotate => self.rotate = t,
        }
    }
}

/// The spec-level state of a piece provider: what a bag still holds, or what
/// a replay has left to hand out.
#[verifier::ext_equal]
pub enum ProviderModel {
    Bag(Multiset<tetrominos::Kind>),
    Replay(Seq<tetrominos::Kind>, int),
}

/// One of each of the seven kinds, in the order a fresh bag holds them.
pub open spec fn full_seq() -> Seq<tetrominos::Kind> {
    seq![
        tetrominos::Kind::Stick,
        tetrominos::Kind::Square,
        tetrominos::Kind::Pyramid,
        tetrominos::Kind::Seven,
        tetrominos::Kind::Snake,
        tetrominos::Kind::Hook,
        tetrominos::Kind::Zig,
    ]
}

/// The contents of a full bag: each of the seven kinds exactly once.
pub open spec fn full_bag() -> Multiset<tetrominos::Kind> {
    full_seq().to_multiset()
}

/// What one draw does to a provider: a bag (refilled first if empty) gives
/// up some kind it holds; a replay hands out the next recorded kind in
/// order, or reports exhaustion. Which kind a bag gives up is random: every
/// held kind is a possible outcome.
pub open spec fn provider_draw_rel(
    pre: ProviderModel,
    post: ProviderModel,
    r: Result<tetrominos::Kind, GameError>,
) -> bool {
    match (pre, post) {
        (ProviderModel::Bag(b0), ProviderModel::Bag(b1)) => {
            let m = if b0.len() == 0 {
                full_bag()
            } else {
                b0
            };
            match r {
                Ok(k) => m.count(k) > 0 && b1 == m.remove(k),
                Err(_) => false,
            }
        },
        (ProviderModel::Replay(s0, i0), ProviderModel::Replay(s1, i1)) => {
            &&& s1 == s0
            &&& if 0 <= i0 < s0.len() {
                r == Ok::<tetrominos::Kind, GameError>(s0[i0]) && i1 == i0 + 1
            } else {
                r == Err::<tetrominos::Kind, GameError>(GameError::ReplayExhausted) && i1 == i0
            }
        },
        _ => false,
    }
}

/// The capability of producing the next piece kind. The bag randomizer and
/// the replay sequence both offer it.
pub trait PieceProvider: Sized {
    /// The provider's internal consistency condition.
    spec fn inv(&self) -> bool;

    /// The provider's spec-level state.
    spec fn model(&self) -> ProviderModel;

    /// Draw the next piece kind, or report that none is left.
    fn next(&mut self) -> (r: Result<tetrominos::Kind, GameError>)
        requires
            old(self).inv(),
        ensures
            final(self).inv(),
            provider_draw_rel(old(self).model(), final(self).model(), r),
    ;
}

/// The shuffled-bag randomizer: it holds the kinds of the current bag that
/// were not drawn yet, refills with one of each kind when exhausted, and
/// draws uniformly among what remains. No kind can appear twice within seven
/// consecutive draws from a fresh bag.
#[derive(Debug, Clone)]
#[verifier::ext_equal]
pub struct TetrominoBag {
    pub pieces: Vec<tetrominos::Kind>,
}

impl TetrominoBag {
    pub fn new() -> (bag: TetrominoBag)
        ensures
            bag.pieces@ == full_seq(),
            bag.inv(),
    {
        TetrominoBag { pieces: Self::one_of_each_kind() }
    }

    fn one_of_each_kind() -> (v: Vec<tetrominos::Kind>)
        ensures
            v@ == full_seq(),
    {
        let mut v: Vec<tetrominos::Kind> = Vec::new();
        v.push(tetrominos::Kind::Stick);
        v.push(tetrominos::Kind::Square);
        v.push(tetrominos::Kind::Pyramid);
        v.push(tetrominos::Kind::Seven);
        v.push(tetrominos::Kind::Snake);
        v.push(tetrominos::Kind::Hook);
        v.push(tetrominos::Kind::Zig);
        proof {
            assert(v@ =~= full_seq());
        }
        v
    }
}

impl PieceProvider for TetrominoBag {
    /// The bag never holds more of a kind than a full bag does.
    open spec fn inv(&self) -> bool {
        self.pieces@.to_multiset().subset_of(full_bag())
    }

    open spec fn model(&self) -> ProviderModel {
        ProviderModel::Bag(self.pieces@.to_multiset())
    }

    fn next(&mut self) -> (r: Result<tetrominos::Kind, GameError>) {
        broadcast use vstd::seq_lib::group_to_multiset_ensures;
        broadcast use vstd::multiset::group_multiset_axioms;

        if self.pieces.len() == 0 {
            self.pieces = Self::one_of_each_kind();
        }
        let n1 = rng::random_below(self.pieces.len());
        let k = self.pieces.remove(n1);
        proof {
            assert(old(self).pieces@.to_multiset().count(k) <= full_bag().count(k));
        }
        Ok(k)
    }
}

/// The two piece sources a game can run on: the live bag randomizer, or the
/// recorded sequence of a replay.
#[derive(Debug, Clone)]
#[verifier::ext_equal]
pub enum Provider {
    Bag(TetrominoBag),
    Replay(replays::ReplayPieces),
}

impl Provider {
    /// Whether this provider replays a recorded sequence.
    pub open spec fn is_replay(self) -> bool {
        self is Replay
    }
}

impl PieceProvider for Provider {
    open spec fn inv(&self) -> bool {
        match self {
            Provider::Bag(b) => b.inv(),
            Provider::Replay(p) => p.inv(),
        }
    }

    open spec fn model(&self) -> ProviderModel {
        match self {
            Provider::Bag(b) => b.model(),
            Provider::Replay(p) => p.model(),
        }
    }

    fn next(&mut self) -> (r: Result<tetrominos::Kind, GameError>) {
        match self {
            Provider::Bag(b) => b.next(),
            Provider::Replay(p) => p.next(),
        }
    }
}

} // verus!

verus! {

/// The spec-level state of a whole game: every field the simulation reads or
/// writes, with collections replaced by their mathematical views. All
/// contracts about the engine speak of this model.
#[verifier::ext_equal]
pub struct GameModel {
    pub rules: rules::Rules,
    pub state: State,
    pub ticks: usize,
    pub level: u8,
    pub speed: u8,
    pub rows: usize,
    pub cols: usize,
    pub mat: Seq<Seq<playfield::Location>>,
    pub next_piece: tetrominos::Kind,
    pub provider: ProviderModel,
    pub piece: Piece,
    pub scoring_kind: scoring::Kind,
    pub scoring_total: u32,
    pub score_points: u32,
    pub score_lines_cleared: u32,
    pub level_lines_cleared: u32,
    pub next_action: Option<actions::Action>,
    pub stamps: ActionStamps,
    pub events: Seq<recordings::Event>,
}

/// The piece can move down one row without colliding.
pub open spec fn can_fall_m(g: GameModel) -> bool {
    !playfield::grid_collides(
        g.mat,
        g.rows as int,
        g.cols as int,
        g.piece.y + 1,
        g.piece.x as int,
        g.piece.bits(),
    )
}

/// How many rows a mask at column `x` can fall from row `y` before it would
/// collide.
pub open spec fn fall_distance(
    m: Seq<Seq<playfield::Location>>,
    rows: int,
    cols: int,
    x: int,
    bits: Seq<Seq<u8>>,
    y: int,
) -> int
    decreases rows + playfield::ROWS_PADDING - y,
{
    if playfield::grid_collides(m, rows, cols, y + 1, x, bits) {
        0
    } else {
        1 + fall_distance(m, rows, cols, x, bits, y + 1)
    }
}

/// How many rows the piece can fall before it would collide.
pub open spec fn fall_distance_m(g: GameModel, y: int) -> int {
    fall_distance(g.mat, g.rows as int, g.cols as int, g.piece.x as int, g.piece.bits(), y)
}

/// How many rows below `y` the first colliding overlay position for a mask
/// at column `x` lies; zero if it already collides at `y`.
pub open spec fn collide_distance(
    m: Seq<Seq<playfield::Location>>,
    rows: int,
    cols: int,
    x: int,
    bits: Seq<Seq<u8>>,
    y: int,
) -> int
    decreases rows + playfield::ROWS_PADDING - y,
{
    if playfield::grid_collides(m, rows, cols, y, x, bits) {
        0
    } else {
        1 + collide_distance(m, rows, cols, x, bits, y + 1)
    }
}

/// How many rows below `y` the piece's first colliding overlay position
/// lies; zero if the piece already collides at `y`.
pub open spec fn collide_distance_m(g: GameModel, y: int) -> int {
    collide_distance(g.mat, g.rows as int, g.cols as int, g.piece.x as int, g.piece.bits(), y)
}

/// A successful horizontal move gives a resting piece a fresh lock window.
pub open spec fn reset_lock_frames_m(g: GameModel, p: Piece) -> Piece {
    if p.busy_locking {
        Piece { remaining_lock_frames: g.rules.lock_delay, ..p }
    } else {
        p
    }
}

/// One-cell move to the left: rejected at the wall or on any collision;
/// a successful slide restarts the lock-delay countdown.
pub open spec fn move_left_m(g: GameModel) -> GameModel {
    if g.piece.x == 0 {
        g
    } else if !playfield::grid_collides(
        g.mat,
        g.rows as int,
        g.cols as int,
        g.piece.y as int,
        g.piece.x - 1,
        g.piece.bits(),
    ) {
        GameModel {
            piece: reset_lock_frames_m(g, Piece { x: (g.piece.x - 1) as u16, ..g.piece }),
            ..g
        }
    } else {
        g
    }
}

/// One-cell move to the right: rejected on any collision; a successful
/// slide restarts the lock-delay countdown.
pub open spec fn move_right_m(g: GameModel) -> GameModel {
    if !playfield::grid_collides(
        g.mat,
        g.rows as int,
        g.cols as int,
        g.piece.y as int,
        g.piece.x + 1,
        g.piece.bits(),
    ) {
        GameModel {
            piece: reset_lock_frames_m(g, Piece { x: (g.piece.x + 1) as u16, ..g.piece }),
            ..g
        }
    } else {
        g
    }
}

/// Advance the rotation index by one, wrapping after four states. If the
/// rotated shape collides in place and wall kicks are enabled, try one cell
/// to the left, then one to the right; otherwise reject the rotation
/// entirely. A rotation never restarts the lock-delay countdown.
pub open spec fn rotate_m(g: GameModel) -> GameModel {
    let next_rotation: u8 = if g.piece.rotation + 1 >= 4 {
        0
    } else {
        (g.piece.rotation + 1) as u8
    };
    let bits = tetrominos::form_spec(g.piece.tetromino, next_rotation as int);
    if !playfield::grid_collides(
        g.mat,
        g.rows as int,
        g.cols as int,
        g.piece.y as int,
        g.piece.x as int,
        bits,
    ) {
        GameModel { piece: Piece { rotation: next_rotation, ..g.piece }, ..g }
    } else if !g.rules.wall_kicks {
        g
    } else if g.piece.x > 0 && !playfield::grid_collides(
        g.mat,
        g.rows as int,
        g.cols as int,
        g.piece.y as int,
        g.piece.x - 1,
        bits,
    ) {
        GameModel {
            piece: Piece { rotation: next_rotation, x: (g.piece.x - 1) as u16, ..g.piece },
            ..g
        }
    } else if !playfield::grid_collides(
        g.mat,
        g.rows as int,
        g.cols as int,
        g.piece.y as int,
        g.piece.x + 1,
        bits,
    ) {
        GameModel {
            piece: Piece { rotation: next_rotation, x: (g.piece.x + 1) as u16, ..g.piece },
            ..g
        }
    } else {
        g
    }
}

/// A soft drop: force the fall accumulator to the gravity threshold so the
/// piece falls on the very next gravity evaluation.
pub open spec fn drop_one_m(g: GameModel) -> GameModel {
    GameModel { piece: Piece { creep: g.speed as usize, ..g.piece }, ..g }
}

/// A hard drop: the piece falls as far as it can; if it moved at all the
/// fall accumulator is forced to the gravity threshold.
pub open spec fn drop_fast_m(g: GameModel) -> GameModel {
    let d = fall_distance_m(g, g.piece.y as int);
    if d > 0 {
        GameModel {
            piece: Piece {
                y: (g.piece.y + d) as u16,
                creep: g.speed as usize,
                ..g.piece
            },
            ..g
        }
    } else {
        g
    }
}

/// What `queue_action` does, stated over the game model: the action is
/// rejected outside play, rejected while its kind is cooling down (fewer
/// than `action_cooldown` ticks since its last use), rejected while the
/// one-action slot is full, and buffered otherwise.
pub open spec fn queue_rel(
    pre: GameModel,
    a: actions::Action,
    post: GameModel,
    r: Result<(), GameError>,
) -> bool {
    if pre.state != State::Playing {
        post == pre && r == Err::<(), GameError>(GameError::NotPlaying)
    } else if pre.ticks - pre.stamps.stamp(a) < pre.rules.cooldown_ticks() {
        post == pre && r == Err::<(), GameError>(GameError::ActionOnCooldown)
    } else if pre.next_action is Some {
        post == pre && r == Err::<(), GameError>(GameError::SlotOccupied)
    } else {
        post == (GameModel { next_action: Some(a), ..pre }) && r == Ok::<(), GameError>(())
    }
}

/// The whole game: the aggregate root owning the rules, the playfield, the
/// active and next piece, the piece provider, the scoring system, the
/// counters, the single pending-action slot with its per-action cooldown
/// stamps, and the recording.
#[verifier::ext_equal]
pub struct Game {
    pub rules: rules::Rules,
    pub state: State,
    pub ticks: usize,
    pub level: u8,
    // speed is measured in number of ticks so that:
    // 1) A lower value means fewer ticks and thus faster.
    // 2) 1 is the lowest value which means on every tick.
    // 3) A higher value means more ticks and thus slower.
    pub speed: u8,
    pub play_field: PlayField,
    pub next_piece: tetrominos::Kind,
    pub piece_provider: Provider,
    pub piece: Piece,
    pub scoring_system: scoring::ScoringSystem,
    pub score_points: u32,
    pub score_lines_cleared: u32,
    pub level_lines_cleared: u32,
    pub next_action: Option<actions::Action>,
    pub actions_last_used_at: ActionStamps,
    pub recording: recordings::Recording,
}

impl Game {
    /// The spec-level state of this game.
    pub open spec fn model(self) -> GameModel {
        GameModel {
            rules: self.rules,
            state: self.state,
            ticks: self.ticks,
            level: self.level,
            speed: self.speed,
            rows: self.play_field.rows,
            cols: self.play_field.cols,
            mat: self.play_field.mat(),
            next_piece: self.next_piece,
            provider: self.piece_provider.model(),
            piece: self.piece,
            scoring_kind: self.scoring_system.kind(),
            scoring_total: self.scoring_system.total(),
            score_points: self.score_points,
            score_lines_cleared: self.score_lines_cleared,
            level_lines_cleared: self.level_lines_cleared,
            next_action: self.next_action,
            stamps: self.actions_last_used_at,
            events: self.recording.events@,
        }
    }

    /// The engine's running invariant: the playfield is the fixed 22x10
    /// well, the piece's bounding box stays inside the padded matrix, the
    /// timers stay within their working ranges, the cooldown stamps and the
    /// recording never run ahead of the tick counter, and the scoring system
    /// matches the configured table.
    pub open spec fn wf(self) -> bool {
        &&& self.play_field.wf()
        &&& self.play_field.rows == 22
        &&& self.play_field.cols == 10
        &&& self.piece.rotation < 4
        &&& self.piece.x + 4 <= 16
        &&& self.piece.y + 4 <= 28
        &&& self.piece.creep <= 70
        &&& 10 <= self.speed <= 70
        &&& self.piece_provider.inv()
        &&& self.recording.wf()
        &&& self.recording.last_at() <= self.ticks
        &&& self.actions_last_used_at.all_le(self.ticks)
        &&& self.scoring_system.kind() == self.rules.scoring_system
    }

    /// Whether the game has reached its terminal state.
    pub fn is_gameover(&self) -> (gameover: bool)
        ensures
            gameover == (self.state == State::GameOver),
    {
        self.state == State::GameOver
    }

    /// Buffer one action for the next tick. Rejected while the game is not
    /// playing, while the same action kind is still cooling down (fewer than
    /// `action_cooldown` ticks since its last use), or while another action
    /// already waits in the slot: the first queued action wins until it is
    /// consumed.
    pub fn queue_action(&mut self, a: actions::Action) -> (r: Result<(), GameError>)
        requires
            old(self).wf(),
        ensures
            final(self).wf(),
            queue_rel(old(self).model(), a, final(self).model(), r),
            old(self).state != State::Playing ==> r == Err::<(), GameError>(GameError::NotPlaying)
                && *final(self) == *old(self),
            old(self).state == State::Playing && old(self).ticks
                - old(self).actions_last_used_at.stamp(a) < old(self).rules.cooldown_ticks()
                ==> r == Err::<(), GameError>(GameError::ActionOnCooldown) && *final(self) == *old(
                self,
            ),
            old(self).state == State::Playing && old(self).ticks
                - old(self).actions_last_used_at.stamp(a) >= old(self).rules.cooldown_ticks()
                && old(self).next_action is Some ==> r == Err::<(), GameError>(
                GameError::SlotOccupied,
            ) && *final(self) == *old(self),
            old(self).state == State::Playing && old(self).ticks
                - old(self).actions_last_used_at.stamp(a) >= old(self).rules.cooldown_ticks()
                && old(self).next_action is None ==> r == Ok::<(), GameError>(()) && *final(self)
                == (Game { next_action: Some(a), ..*old(self) }),
    {
        if !matches!(self.state, State::Playing) {
            return Err(GameError::NotPlaying);
        }

        let action_last_used_at = self.actions_last_used_at.get(a);
        let cooldown = match self.rules.action_cooldown {
            rules::ActionCooldown::Shared(n) => n,
            rules::ActionCooldown::Each(n) => n,
        };
        if self.ticks - action_last_used_at < cooldown as usize {
            return Err(GameError::ActionOnCooldown);
        }

        if self.next_action.is_none() {
            self.next_action = Some(a);
            return Ok(());
        }

        Err(GameError::SlotOccupied)
    }

    fn can_fall(&self) -> (can: bool)
        requires
            self.wf(),
        ensures
            can == can_fall_m(self.model()),
    {
        let form = self.piece.form();
        !self.play_field.has_collission(
            self.piece.y as usize + 1,
            self.piece.x as usize,
            &form,
        )
    }

    /// Move the active piece one cell to the left, if nothing is in the way.
    pub fn move_left(&mut self)
        requires
            old(self).wf(),
        ensures
            final(self).wf(),
            final(self).model() == move_left_m(old(self).model()),
    {
        if self.piece.x == 0 {
            return ;
        }

        let form = self.piece.form();
        if !self.play_field.has_collission(
            self.piece.y as usize,
            self.piece.x as usize - 1,
            &form,
        ) {
            self.piece.x -= 1;
            self.reset_remaining_lock_frames();
        }
        proof {
            assert(final(self).model() =~~= move_left_m(old(self).model()));
        }
    }

    /// Move the active piece one cell to the right, if nothing is in the
    /// way.
    pub fn move_right(&mut self)
        requires
            old(self).wf(),
        ensures
            final(self).wf(),
            final(self).model() == move_right_m(old(self).model()),
    {
        let form = self.piece.form();
        if !self.play_field.has_collission(
            self.piece.y as usize,
            self.piece.x as usize + 1,
            &form,
        ) {
            self.piece.x += 1;
            self.reset_remaining_lock_frames();
        }
        proof {
            assert(final(self).model() =~~= move_right_m(old(self).model()));
        }
    }

    fn reset_remaining_lock_frames(&mut self)
        ensures
            *final(self) == (Game {
                piece: reset_lock_frames_m(old(self).model(), old(self).piece),
                ..*old(self)
            }),
    {
        if self.piece.busy_locking {
            self.piece.remaining_lock_frames = self.rules.lock_delay;
        }
    }

    /// Rotate the active piece, kicking one cell off a wall if the rules
    /// allow it; otherwise the piece keeps its rotation and position.
    pub fn rotate(&mut self)
        requires
            old(self).wf(),
        ensures
            final(self).wf(),
            final(self).model() == rotate_m(old(self).model()),
    {
        let mut next_rotation = self.piece.rotation + 1;
        if next_rotation >= 4 {
            next_rotation = 0;
        }

        let t = tetrominos::from_kind(self.piece.tetromino);
        let next_shape = t.forms[next_rotation as usize];
        proof {
            assert(playfield::shape_bits(next_shape) =~~= tetrominos::form_spec(
                self.piece.tetromino,
                next_rotation as int,
            ));
        }

        if !self.play_field.has_collission(
            self.piece.y as usize,
            self.piece.x as usize,
            &next_shape,
        ) {
            self.piece.rotation = next_rotation;
            proof {
                assert(final(self).model() =~~= rotate_m(old(self).model()));
            }
            return ;
        }

        if !self.rules.wall_kicks {
            proof {
                assert(final(self).model() =~~= rotate_m(old(self).model()));
            }
            return ;
        }

        // try moving piece left
        if self.piece.x > 0 && !self.play_field.has_collission(
            self.piece.y as usize,
            self.piece.x as usize - 1,
            &next_shape,
        ) {
            self.piece.rotation = next_rotation;
            self.piece.x -= 1;
            proof {
                assert(final(self).model() =~~= rotate_m(old(self).model()));
            }
            return ;
        }

        // try moving piece right
        if !self.play_field.has_collission(
            self.piece.y as usize,
            self.piece.x as usize + 1,
            &next_shape,
        ) {
            self.piece.rotation = next_rotation;
            self.piece.x += 1;
        }
        proof {
            assert(final(self).model() =~~= rotate_m(old(self).model()));
        }
    }

    /// Soft drop: make gravity apply on the very next evaluation instead of
    /// waiting out the full interval.
    pub fn drop_one(&mut self)
        requires
            old(self).wf(),
        ensures
            final(self).wf(),
            final(self).model() == drop_one_m(old(self).model()),
    {
        self.piece.creep = self.speed as usize;
        proof {
            assert(final(self).model() =~~= drop_one_m(old(self).model()));
        }
    }

    /// Hard drop: advance the piece down while it can fall; reports whether
    /// it moved at all, which decides whether a hard drop bypasses the lock
    /// delay.
    #[verifier::loop_isolation(false)]
    pub fn drop_fast(&mut self) -> (dropped: bool)
        requires
            old(self).wf(),
        ensures
            final(self).wf(),
            final(self).model() == drop_fast_m(old(self).model()),
            dropped == (fall_distance_m(old(self).model(), old(self).piece.y as int) > 0),
    {
        let ghost g0 = old(self).model();
        let mut dropped = false;
        let form = self.piece.form();
        while !self.play_field.has_collission(
            self.piece.y as usize + 1,
            self.piece.x as usize,
            &form,
        )
            invariant
                self.wf(),
                playfield::shape_bits(form) == self.piece.bits(),
                *self == (Game {
                    piece: Piece {
                        y: self.piece.y,
                        creep: self.piece.creep,
                        ..old(self).piece
                    },
                    ..*old(self)
                }),
                old(self).piece.y <= self.piece.y,
                dropped == (self.piece.y > old(self).piece.y),
                dropped ==> self.piece.creep == self.speed as usize,
                !dropped ==> self.piece.creep == old(self).piece.creep,
                fall_distance_m(g0, old(self).piece.y as int) == fall_distance_m(
                    g0,
                    self.piece.y as int,
                ) + self.piece.y - old(self).piece.y,
            decreases 28 - self.piece.y,
        {
            proof {
                assert(!playfield::grid_collides(
                    g0.mat,
                    g0.rows as int,
                    g0.cols as int,
                    self.piece.y + 1,
                    g0.piece.x as int,
                    g0.piece.bits(),
                ));
                assert(fall_distance(
                    g0.mat,
                    g0.rows as int,
                    g0.cols as int,
                    g0.piece.x as int,
                    g0.piece.bits(),
                    self.piece.y as int,
                ) == 1 + fall_distance(
                    g0.mat,
                    g0.rows as int,
                    g0.cols as int,
                    g0.piece.x as int,
                    g0.piece.bits(),
                    self.piece.y + 1,
                ));
            }
            self.piece.y += 1;
            dropped = true;
            self.piece.creep = self.speed as usize;
        }
        proof {
            assert(fall_distance_m(g0, self.piece.y as int) == 0);
            assert(final(self).model() =~~= drop_fast_m(g0));
        }
        dropped
    }

    /// How many rows the piece's overlay can move down until it first
    /// collides: the drop preview distance.
    #[verifier::loop_isolation(false)]
    pub fn drop_distance(&self) -> (distance: usize)
        requires
            self.wf(),
        ensures
            distance == collide_distance_m(self.model(), self.piece.y as int),
    {
        let ghost g0 = self.model();
        let mut distance: usize = 0;
        let form = self.piece.form();
        while !self.play_field.has_collission(
            self.piece.y as usize + distance,
            self.piece.x as usize,
            &form,
        )
            invariant
                self.wf(),
                playfield::shape_bits(form) == self.piece.bits(),
                self.piece.y + distance <= 28,
                collide_distance_m(g0, self.piece.y as int) == collide_distance_m(
                    g0,
                    self.piece.y + distance,
                ) + distance,
            decreases 28 - (self.piece.y + distance),
        {
            proof {
                assert(!playfield::grid_collides(
                    g0.mat,
                    g0.rows as int,
                    g0.cols as int,
                    self.piece.y + distance,
                    g0.piece.x as int,
                    g0.piece.bits(),
                ));
                assert(collide_distance(
                    g0.mat,
                    g0.rows as int,
                    g0.cols as int,
                    g0.piece.x as int,
                    g0.piece.bits(),
                    self.piece.y + distance,
                ) == 1 + collide_distance(
                    g0.mat,
                    g0.rows as int,
                    g0.cols as int,
                    g0.piece.x as int,
                    g0.piece.bits(),
                    self.piece.y + distance + 1,
                ));
            }
            distance += 1;
        }
        distance
    }
}

} // verus!

verus! {

/// The tick counter advanced by one, sticking at its maximum.
pub open spec fn bump_m(g: GameModel) -> GameModel {
    GameModel { ticks: g.ticks.saturating_add(1), ..g }
}

/// Dispatch one action to the piece.
pub open spec fn dispatch_m(g: GameModel, a: actions::Action) -> GameModel {
    match a {
        actions::Action::MoveDown => drop_one_m(g),
        actions::Action::MoveLeft => move_left_m(g),
        actions::Action::MoveRight => move_right_m(g),
        actions::Action::Rotate => rotate_m(g),
        actions::Action::Drop => drop_fast_m(g),
    }
}

/// Consume the pending action, if any: record it, dispatch it, clear the
/// slot, and stamp the action's last-used tick.
pub open spec fn act_m(g: GameModel) -> GameModel {
    match g.next_action {
        Option::None => g,
        Option::Some(a) => {
            let recorded = GameModel {
                events: g.events.push(
                    recordings::Event { kind: recordings::EventKind::Action(a), at: g.ticks },
                ),
                ..g
            };
            let dispatched = dispatch_m(recorded, a);
            GameModel {
                next_action: Option::None,
                stamps: g.stamps.with_stamp(a, g.ticks),
                ..dispatched
            }
        },
    }
}

/// Whether consuming the pending action performs a hard drop that moves the
/// piece at all.
pub open spec fn act_dropped_m(g: GameModel) -> bool {
    g.next_action == Option::Some(actions::Action::Drop) && fall_distance_m(g, g.piece.y as int)
        > 0
}

/// One gravity evaluation: the fall accumulator advances; past the speed
/// threshold it resets and the piece falls one row if it can.
pub open spec fn gravity_m(g: GameModel) -> GameModel {
    if g.piece.creep + 1 > g.speed {
        if can_fall_m(g) {
            GameModel {
                piece: Piece { creep: 0, y: (g.piece.y + 1) as u16, ..g.piece },
                ..g
            }
        } else {
            GameModel { piece: Piece { creep: 0, ..g.piece }, ..g }
        }
    } else {
        GameModel { piece: Piece { creep: (g.piece.creep + 1) as usize, ..g.piece }, ..g }
    }
}

/// A resting piece starts locking. A hard drop that just moved skips the
/// delay unless the rules grant it; any other piece gets the full window.
pub open spec fn lock_start_m(g: GameModel, dropped: bool) -> GameModel {
    GameModel {
        piece: Piece {
            busy_locking: true,
            remaining_lock_frames: if !dropped || g.rules.lock_delay_on_hard_drop {
                g.rules.lock_delay
            } else {
                g.piece.remaining_lock_frames
            },
            ..g.piece
        },
        ..g
    }
}

/// One tick of the lock-delay countdown.
pub open spec fn dec_lock_m(g: GameModel) -> GameModel {
    GameModel {
        piece: Piece {
            remaining_lock_frames: (g.piece.remaining_lock_frames - 1) as u32,
            ..g.piece
        },
        ..g
    }
}

/// The piece stops locking (right before it is imprinted).
pub open spec fn unlock_m(g: GameModel) -> GameModel {
    GameModel { piece: Piece { busy_locking: false, ..g.piece }, ..g }
}

/// The piece is burnt into the matrix at its current position.
pub open spec fn imprint_m(g: GameModel) -> GameModel {
    GameModel {
        mat: playfield::grid_imprint(
            g.mat,
            g.piece.y as int,
            g.piece.x as int,
            g.piece.bits(),
            g.piece.tetromino,
        ),
        ..g
    }
}

/// The waiting next piece enters play at the spawn position above the middle
/// of the well, and the freshly drawn kind `k` becomes the next piece.
pub open spec fn spawn_piece_m(g: GameModel, k: tetrominos::Kind) -> GameModel {
    GameModel {
        piece: Piece {
            tetromino: g.next_piece,
            rotation: 0,
            x: (playfield::WELL_X + g.cols / 2 - 2) as u16,
            y: 2,
            creep: 0,
            ..g.piece
        },
        next_piece: k,
        ..g
    }
}

/// The freshly spawned piece overlaps the stack: the top-out condition.
pub open spec fn spawn_blocked_m(g: GameModel) -> bool {
    playfield::grid_collides(
        g.mat,
        g.rows as int,
        g.cols as int,
        g.piece.y as int,
        g.piece.x as int,
        g.piece.bits(),
    )
}

/// The game ends: the state flips to its terminal value and the recording
/// closes with a game-over event.
pub open spec fn game_over_m(g: GameModel) -> GameModel {
    GameModel {
        state: State::GameOver,
        events: g.events.push(
            recordings::Event { kind: recordings::EventKind::GameOver, at: g.ticks },
        ),
        ..g
    }
}

/// The spawn of kind `k` is recorded.
pub open spec fn push_spawned_m(g: GameModel, k: tetrominos::Kind) -> GameModel {
    GameModel {
        events: g.events.push(
            recordings::Event { kind: recordings::EventKind::PieceSpawned(k), at: g.ticks },
        ),
        ..g
    }
}

/// The end-of-tick sweep: full rows are cleared and counted, the counters
/// and the score advance (by the active table, at the current level), the
/// well collapses, and once the per-level counter reaches four rows per
/// level the game levels up and speeds up.
pub open spec fn settle_m(g: GameModel) -> GameModel {
    let lines = playfield::grid_count_full(g.mat, g.cols as int, g.rows as int);
    let points = scoring::points_table(g.scoring_kind, g.level, lines as u8);
    let mat2 = playfield::grid_collapsed(
        playfield::grid_cleared(g.mat, g.rows as int, g.cols as int),
        g.rows as int,
        g.cols as int,
    );
    let ll = g.level_lines_cleared.saturating_add(lines as u32);
    let swept = GameModel {
        mat: mat2,
        score_lines_cleared: g.score_lines_cleared.saturating_add(lines as u32),
        score_points: g.score_points.saturating_add(points),
        scoring_total: g.scoring_total.saturating_add(points),
        level_lines_cleared: ll,
        ..g
    };
    if ll >= 4 * (g.level as u32) {
        let new_level: u8 = if g.level < 255 {
            (g.level + 1) as u8
        } else {
            255
        };
        GameModel {
            level: new_level,
            level_lines_cleared: 0,
            speed: crate::speed_for_level(new_level),
            ..swept
        }
    } else {
        swept
    }
}

/// What one call of `tick` does, stated over the game model, with the one
/// provider draw exposed as `draw`. From the terminal state the tick is a
/// no-op and nothing is drawn. Otherwise the tick counter advances, the
/// pending action (if any) is recorded, dispatched and stamped, gravity
/// advances the piece, and then: a piece that can still fall just ends the
/// tick with the clear/collapse/score sweep; a piece that cannot fall
/// enters, continues, or finishes its lock-delay countdown; a finished
/// countdown imprints the piece and draws the next one, and a failed draw or
/// a blocked spawn ends the game right there, skipping the sweep.
pub open spec fn tick_rel_with_draw(
    pre: GameModel,
    post: GameModel,
    ret: usize,
    draw: Option<(ProviderModel, Result<tetrominos::Kind, GameError>)>,
) -> bool {
    if pre.state == State::GameOver {
        &&& post == pre
        &&& ret == pre.ticks
        &&& draw is None
    } else {
        let gb = bump_m(pre);
        let dropped = act_dropped_m(gb);
        let gg = gravity_m(act_m(gb));
        &&& ret == gb.ticks
        &&& if can_fall_m(gg) {
            post == settle_m(gg) && draw is None
        } else if !gg.piece.busy_locking {
            post == settle_m(lock_start_m(gg, dropped)) && draw is None
        } else if gg.piece.remaining_lock_frames > 0 {
            post == settle_m(dec_lock_m(gg)) && draw is None
        } else {
            let gi = imprint_m(unlock_m(gg));
            match draw {
                Option::None => false,
                Option::Some((pm, dr)) => {
                    &&& provider_draw_rel(gi.provider, pm, dr)
                    &&& match dr {
                        Result::Err(_) => post == game_over_m(GameModel { provider: pm, ..gi }),
                        Result::Ok(k) => {
                            let gs = spawn_piece_m(GameModel { provider: pm, ..gi }, k);
                            if spawn_blocked_m(gs) {
                                post == game_over_m(gs)
                            } else {
                                post == settle_m(push_spawned_m(gs, k))
                            }
                        },
                    }
                },
            }
        }
    }
}

/// What one call of `tick` does, stated over the game model: some draw (none
/// at all on most ticks) makes `tick_rel_with_draw` hold. The draw is the
/// only step that is not a function of the prior state; with a replay
/// provider it too is determined.
pub open spec fn tick_rel(pre: GameModel, post: GameModel, ret: usize) -> bool {
    exists|draw: Option<(ProviderModel, Result<tetrominos::Kind, GameError>)>|
        #[trigger] tick_rel_with_draw(pre, post, ret, draw)
}

impl Game {
    fn imprint_piece(&mut self)
        requires
            old(self).wf(),
        ensures
            final(self).wf(),
            final(self).model() == imprint_m(old(self).model()),
    {
        let form = self.piece.form();
        let row_offset = self.piece.y as usize;
        let col_offset = self.piece.x as usize;
        self.play_field.imprint(row_offset, col_offset, &form, self.piece.tetromino);
        proof {
            assert(final(self).model() =~~= imprint_m(old(self).model()));
        }
    }

    /// Make the waiting next piece the active piece at the spawn position
    /// and draw a fresh next piece from the provider. A provider with
    /// nothing left, or a spawn position already overlapped by the stack,
    /// is reported as an error; the caller treats either as game over.
    pub fn grab_next_piece(&mut self) -> (r: Result<(), GameError>)
        requires
            old(self).wf(),
        ensures
            final(self).wf(),
            exists|pm: ProviderModel, dr: Result<tetrominos::Kind, GameError>|
                {
                    &&& #[trigger] provider_draw_rel(old(self).model().provider, pm, dr)
                    &&& match dr {
                        Result::Err(e) => final(self).model() == (GameModel {
                            provider: pm,
                            ..old(self).model()
                        }) && r == Err::<(), GameError>(e),
                        Result::Ok(k) => {
                            let gs = spawn_piece_m(
                                GameModel { provider: pm, ..old(self).model() },
                                k,
                            );
                            &&& final(self).model() == gs
                            &&& r == if spawn_blocked_m(gs) {
                                Err::<(), GameError>(GameError::SpawnBlocked)
                            } else {
                                Ok::<(), GameError>(())
                            }
                        },
                    }
                },
    {
        let drawn = self.piece_provider.next();
        let next_piece = match drawn {
            Ok(k) => k,
            Err(e) => {
                proof {
                    assert(provider_draw_rel(
                        old(self).model().provider,
                        self.piece_provider.model(),
                        drawn,
                    ));
                    assert(self.model() =~~= (GameModel {
                        provider: self.piece_provider.model(),
                        ..old(self).model()
                    }));
                }
                return Err(e);
            },
        };

        self.piece.tetromino = self.next_piece;
        self.next_piece = next_piece;
        self.piece.rotation = 0;
        self.piece.x = (self.play_field.well_x() + (self.play_field.cols / 2) - 2) as u16;
        self.piece.y = 2;
        self.piece.creep = 0;

        proof {
            assert(self.model() =~~= spawn_piece_m(
                GameModel { provider: self.piece_provider.model(), ..old(self).model() },
                next_piece,
            ));
        }

        let form = self.piece.form();
        if self.play_field.has_collission(self.piece.y as usize, self.piece.x as usize, &form) {
            return Err(GameError::SpawnBlocked);
        }

        Ok(())
    }
}

} // verus!

verus! {

/// The matrix of a fresh playfield with a well of the given size.
pub open spec fn initial_mat(rows: int, cols: int) -> Seq<Seq<playfield::Location>> {
    Seq::new(
        (rows + playfield::ROWS_PADDING) as nat,
        |r: int|
            Seq::new(
                (cols + playfield::COLS_PADDING) as nat,
                |c: int| PlayField::initial_cell(rows, cols, r, c),
            ),
    )
}

/// The model of a game as `Game::new` builds it, before the first two
/// pieces are primed: an empty 22x10 well, level 1 at the slowest speed,
/// placeholder stick pieces, zeroed counters and an empty recording.
pub open spec fn fresh_model(rules: rules::Rules, provider: ProviderModel) -> GameModel {
    GameModel {
        rules,
        state: State::Init,
        ticks: 0,
        level: 1,
        speed: 70,
        rows: 22,
        cols: 10,
        mat: initial_mat(22, 10),
        next_piece: tetrominos::Kind::Stick,
        provider,
        piece: Piece {
            tetromino: tetrominos::Kind::Stick,
            x: 4,
            y: 0,
            creep: 0,
            rotation: 0,
            busy_locking: false,
            remaining_lock_frames: 0,
        },
        scoring_kind: rules.scoring_system,
        scoring_total: 0,
        score_points: 0,
        score_lines_cleared: 0,
        level_lines_cleared: 0,
        next_action: Option::None,
        stamps: ActionStamps { drop: 0, move_down: 0, move_left: 0, move_right: 0, rotate: 0 },
        events: Seq::empty(),
    }
}

/// One priming step of `Game::new`: a draw (whose failure is ignored)
/// followed by recording whatever is then the next piece as spawned at tick
/// zero.
pub open spec fn prime_m(
    g: GameModel,
    pm: ProviderModel,
    dr: Result<tetrominos::Kind, GameError>,
) -> GameModel {
    let drawn = match dr {
        Result::Err(_) => GameModel { provider: pm, ..g },
        Result::Ok(k) => spawn_piece_m(GameModel { provider: pm, ..g }, k),
    };
    GameModel {
        events: drawn.events.push(
            recordings::Event {
                kind: recordings::EventKind::PieceSpawned(drawn.next_piece),
                at: 0,
            },
        ),
        ..drawn
    }
}

/// The game model is what two recorded priming draws from `prov0` leave
/// behind, set playing.
pub open spec fn primed_from(rules: rules::Rules, prov0: ProviderModel, g: GameModel) -> bool {
    exists|
        pm1: ProviderModel,
        d1: Result<tetrominos::Kind, GameError>,
        pm2: ProviderModel,
        d2: Result<tetrominos::Kind, GameError>,
    |
        {
            &&& #[trigger] provider_draw_rel(prov0, pm1, d1)
            &&& #[trigger] provider_draw_rel(pm1, pm2, d2)
            &&& g == (GameModel {
                state: State::Playing,
                ..prime_m(prime_m(fresh_model(rules, prov0), pm1, d1), pm2, d2)
            })
        }
}

impl Game {
    /// Build a game: a fresh 22x10 playfield, the selected scoring table,
    /// the given piece provider (or a fresh bag), and the first two pieces
    /// primed from it, both recorded as spawned at tick zero.
    pub fn new(rules: rules::Rules, piece_provider: Option<Provider>) -> (r: Result<
        Game,
        GameError,
    >)
        requires
            piece_provider matches Some(p) ==> p.inv(),
        ensures
            r is Ok,
            ({
                let prov0 = match piece_provider {
                    Option::Some(p) => p.model(),
                    Option::None => ProviderModel::Bag(full_seq().to_multiset()),
                };
                r matches Ok(g) ==> {
                    &&& g.wf()
                    &&& g.state == State::Playing
                    &&& primed_from(rules, prov0, g.model())
                }
            }),
    {
        let ghost prov0 = match &piece_provider {
            Option::Some(p) => p.model(),
            Option::None => ProviderModel::Bag(full_seq().to_multiset()),
        };

        let play_field = match playfield::PlayField::new(22, 10) {
            Ok(pf) => pf,
            Err(e) => {
                return Err(e);
            },
        };

        let provider = match piece_provider {
            Some(p) => p,
            None => Provider::Bag(TetrominoBag::new()),
        };

        let ss = scoring::ScoringSystem::for_kind(rules.scoring_system);

        let mut g = Game {
            rules,
            state: State::Init,
            ticks: 0,
            level: 1,
            speed: crate::calculate_speed_from_level(1),
            play_field,
            piece_provider: provider,
            piece: Piece::new(tetrominos::Kind::Stick),
            next_piece: tetrominos::Kind::Stick,
            scoring_system: ss,
            score_points: 0,
            score_lines_cleared: 0,
            level_lines_cleared: 0,
            next_action: None,
            actions_last_used_at: ActionStamps::new(),
            recording: recordings::Recording::new(),
        };

        proof {
            assert(g.piece_provider.model() =~~= prov0);
            assert(g.model().mat =~~= initial_mat(22, 10));
            assert(g.model() =~~= fresh_model(rules, prov0));
            assert(g.wf());
        }

        let ghost g0 = g.model();
        let ghost mut pm1v: ProviderModel = prov0;
        let ghost mut d1v: Result<tetrominos::Kind, GameError> = Err(GameError::ReplayExhausted);
        let ghost mut pm2v: ProviderModel = prov0;
        let ghost mut d2v: Result<tetrominos::Kind, GameError> = Err(GameError::ReplayExhausted);

        // Grab the first two pieces from the provider to replace the
        // placeholder values set above.
        let _ = g.grab_next_piece();
        let ghost gafter1 = g.model();
        g.recording.push_piece(0, g.next_piece);
        proof {
            let (pm1w, d1w) = choose|pm: ProviderModel, dr: Result<tetrominos::Kind, GameError>|
                {
                    &&& #[trigger] provider_draw_rel(g0.provider, pm, dr)
                    &&& match dr {
                        Result::Err(e) => gafter1 == (GameModel { provider: pm, ..g0 }),
                        Result::Ok(k) => gafter1 == spawn_piece_m(
                            GameModel { provider: pm, ..g0 },
                            k,
                        ),
                    }
                };
            pm1v = pm1w;
            d1v = d1w;
            assert(g.model() =~~= prime_m(g0, pm1v, d1v));
        }
        let ghost g1 = g.model();
        let _ = g.grab_next_piece();
        let ghost gafter2 = g.model();
        g.recording.push_piece(0, g.next_piece);
        proof {
            let (pm2w, d2w) = choose|pm: ProviderModel, dr: Result<tetrominos::Kind, GameError>|
                {
                    &&& #[trigger] provider_draw_rel(g1.provider, pm, dr)
                    &&& match dr {
                        Result::Err(e) => gafter2 == (GameModel { provider: pm, ..g1 }),
                        Result::Ok(k) => gafter2 == spawn_piece_m(
                            GameModel { provider: pm, ..g1 },
                            k,
                        ),
                    }
                };
            pm2v = pm2w;
            d2v = d2w;
            assert(g.model() =~~= prime_m(g1, pm2v, d2v));
        }
        let ghost g2 = g.model();

        g.state = State::Playing;

        proof {
            assert(g0 == fresh_model(rules, prov0));
            assert(provider_draw_rel(prov0, pm1v, d1v));
            assert(provider_draw_rel(pm1v, pm2v, d2v));
            assert(g.model() =~~= (GameModel {
                state: State::Playing,
                ..prime_m(prime_m(fresh_model(rules, prov0), pm1v, d1v), pm2v, d2v)
            }));
            assert(primed_from(rules, prov0, g.model()));
        }

        Ok(g)
    }
}

} // verus!

verus! {

impl Game {
    /// Consume the buffered action, if any: record it, dispatch it to the
    /// piece, clear the slot and stamp the action's last use.
    fn consume_action(&mut self) -> (dropped: bool)
        requires
            old(self).wf(),
            old(self).recording.last_at() <= old(self).ticks,
        ensures
            final(self).wf(),
            final(self).model() == act_m(old(self).model()),
            dropped == act_dropped_m(old(self).model()),
    {
        let ghost gb = old(self).model();
        let mut dropped = false;
        if self.next_action.is_some() {
            let action = self.next_action.unwrap();
            self.recording.push_action(self.ticks, action);

            match action {
                actions::Action::MoveDown => self.drop_one(),
                actions::Action::MoveLeft => self.move_left(),
                actions::Action::MoveRight => self.move_right(),
                actions::Action::Rotate => self.rotate(),
                actions::Action::Drop => {
                    dropped = self.drop_fast();
                },
            }

            self.next_action = None;
            self.actions_last_used_at.set(action, self.ticks);
            proof {
                assert(self.model() =~~= act_m(gb));
            }
        }
        dropped
    }

    /// One gravity evaluation: advance the fall accumulator; past the speed
    /// threshold, reset it and let the piece fall one row if it can.
    fn apply_gravity(&mut self)
        requires
            old(self).wf(),
        ensures
            final(self).wf(),
            final(self).model() == gravity_m(old(self).model()),
    {
        self.piece.creep += 1;
        if self.piece.creep > self.speed as usize {
            // move the piece
            self.piece.creep = 0;

            if self.can_fall() {
                self.piece.y += 1;
            }
        }
        proof {
            assert(self.model() =~~= gravity_m(old(self).model()));
        }
    }

    /// The end-of-tick sweep: clear full rows, count and score them at the
    /// current level, collapse the well, and level up once the per-level
    /// count reaches four rows per level.
    fn settle(&mut self)
        requires
            old(self).wf(),
        ensures
            final(self).wf(),
            final(self).model() == settle_m(old(self).model()),
    {
        let ghost g0 = old(self).model();
        let lines_cleared = self.play_field.clear_full_rows();
        proof {
            playfield::lemma_count_full_bound(g0.mat, 10, 22);
        }
        self.level_lines_cleared = self.level_lines_cleared.saturating_add(lines_cleared as u32);
        self.score_lines_cleared = self.score_lines_cleared.saturating_add(lines_cleared as u32);

        let points = self.scoring_system.lines_cleared(self.level, lines_cleared as u8);
        self.score_points = self.score_points.saturating_add(points);
        self.play_field.collapse();

        if self.level_lines_cleared >= 4 * (self.level as u32) {
            if self.level < 255 {
                self.level += 1;
            }
            self.level_lines_cleared = 0;
            self.speed = crate::calculate_speed_from_level(self.level);
        }
        proof {
            assert(self.model() =~~= settle_m(g0));
        }
    }

    /// Handle a piece that cannot fall: start or continue the lock-delay
    /// countdown, or, once it runs out, imprint the piece and spawn the next
    /// one. Reports whether the game just ended (a failed draw or a blocked
    /// spawn), in which case the caller returns without the sweep.
    fn lock_phase(&mut self, dropped: bool) -> (ended: bool)
        requires
            old(self).wf(),
            !can_fall_m(old(self).model()),
            old(self).recording.last_at() <= old(self).ticks,
            old(self).state != State::GameOver,
        ensures
            final(self).wf(),
            ({
                let gg = old(self).model();
                if !gg.piece.busy_locking {
                    final(self).model() == lock_start_m(gg, dropped) && !ended
                } else if gg.piece.remaining_lock_frames > 0 {
                    final(self).model() == dec_lock_m(gg) && !ended
                } else {
                    let gi = imprint_m(unlock_m(gg));
                    exists|pm: ProviderModel, dr: Result<tetrominos::Kind, GameError>|
                        {
                            &&& #[trigger] provider_draw_rel(gi.provider, pm, dr)
                            &&& match dr {
                                Result::Err(_) => final(self).model() == game_over_m(
                                    GameModel { provider: pm, ..gi },
                                ) && ended,
                                Result::Ok(k) => {
                                    let gs = spawn_piece_m(GameModel { provider: pm, ..gi }, k);
                                    if spawn_blocked_m(gs) {
                                        final(self).model() == game_over_m(gs) && ended
                                    } else {
                                        final(self).model() == push_spawned_m(gs, k) && !ended
                                    }
                                },
                            }
                        }
                }
            }),
    {
        let ghost gg = old(self).model();
        if self.piece.busy_locking {
            if self.piece.remaining_lock_frames == 0 {
                self.piece.busy_locking = false;
                self.imprint_piece();
                let ghost gi = imprint_m(unlock_m(gg));
                proof {
                    assert(self.model() =~~= gi);
                }
                let grabbed = self.grab_next_piece();
                let ghost gafter = self.model();
                let ghost mut pmv: ProviderModel = gg.provider;
                let ghost mut drv: Result<tetrominos::Kind, GameError> = Err(
                    GameError::ReplayExhausted,
                );
                proof {
                    let (pmw, drw) = choose|
                        pm: ProviderModel,
                        dr: Result<tetrominos::Kind, GameError>,
                    |
                        {
                            &&& #[trigger] provider_draw_rel(gi.provider, pm, dr)
                            &&& match dr {
                                Result::Err(e) => gafter == (GameModel { provider: pm, ..gi })
                                    && grabbed == Err::<(), GameError>(e),
                                Result::Ok(k) => {
                                    let gs = spawn_piece_m(GameModel { provider: pm, ..gi }, k);
                                    &&& gafter == gs
                                    &&& grabbed == if spawn_blocked_m(gs) {
                                        Err::<(), GameError>(GameError::SpawnBlocked)
                                    } else {
                                        Ok::<(), GameError>(())
                                    }
                                },
                            }
                        };
                    pmv = pmw;
                    drv = drw;
                }
                if let Err(_e) = grabbed {
                    self.state = State::GameOver;
                    self.recording.gameover(self.ticks);
                    proof {
                        assert(self.model() =~~= game_over_m(gafter));
                        assert(provider_draw_rel(gi.provider, pmv, drv));
                    }
                    return true;
                }
                self.recording.push_piece(self.ticks, self.next_piece);
                proof {
                    let k = drv->Ok_0;
                    let gs = spawn_piece_m(GameModel { provider: pmv, ..gi }, k);
                    assert(self.model() =~~= push_spawned_m(gs, k));
                    assert(provider_draw_rel(gi.provider, pmv, drv));
                }
                false
            } else {
                self.piece.remaining_lock_frames -= 1;
                proof {
                    assert(self.model() =~~= dec_lock_m(gg));
                }
                false
            }
        } else {
            self.piece.busy_locking = true;
            if !dropped || self.rules.lock_delay_on_hard_drop {
                self.piece.remaining_lock_frames = self.rules.lock_delay;
            }
            proof {
                assert(self.model() =~~= lock_start_m(gg, dropped));
            }
            false
        }
    }

    /// Advance the simulation by one discrete step and return the cumulative
    /// tick count. From the terminal state this is a no-op. Otherwise the
    /// buffered action (if any) is recorded, dispatched and stamped; gravity
    /// moves the piece; a piece that cannot fall enters, continues or
    /// finishes its lock-delay countdown; a finished countdown imprints the
    /// piece and spawns the next one (a failed draw or a blocked spawn ends
    /// the game right there); and finally full rows are cleared and
    /// collapsed, the score advances and the level may rise.
    #[verifier::rlimit(100)]
    pub fn tick(&mut self) -> (t: usize)
        requires
            old(self).wf(),
        ensures
            final(self).wf(),
            tick_rel(old(self).model(), final(self).model(), t),
            old(self).state == State::GameOver ==> *final(self) == *old(self),
            t == final(self).ticks,
    {
        if matches!(self.state, State::GameOver) {
            proof {
                assert(tick_rel_with_draw(
                    old(self).model(),
                    self.model(),
                    self.ticks,
                    Option::None,
                ));
            }
            return self.ticks;
        }

        let ghost pre = old(self).model();

        self.ticks = self.ticks.saturating_add(1);
        let ghost gb = bump_m(pre);
        proof {
            assert(self.model() =~~= gb);
        }

        let dropped = self.consume_action();
        let ghost ga = act_m(gb);

        self.apply_gravity();
        let ghost gg = gravity_m(ga);

        let ghost mut draw: Option<(ProviderModel, Result<tetrominos::Kind, GameError>)> =
            Option::None;

        if !self.can_fall() {
            let ghost glock = self.model();
            let ended = self.lock_phase(dropped);
            proof {
                if glock.piece.busy_locking && glock.piece.remaining_lock_frames == 0 {
                    let gi = imprint_m(unlock_m(glock));
                    let gafter = self.model();
                    let (pm, dr) = choose|
                        pm: ProviderModel,
                        dr: Result<tetrominos::Kind, GameError>,
                    |
                        {
                            &&& #[trigger] provider_draw_rel(gi.provider, pm, dr)
                            &&& match dr {
                                Result::Err(_) => gafter == game_over_m(
                                    GameModel { provider: pm, ..gi },
                                ) && ended,
                                Result::Ok(k) => {
                                    let gs = spawn_piece_m(GameModel { provider: pm, ..gi }, k);
                                    if spawn_blocked_m(gs) {
                                        gafter == game_over_m(gs) && ended
                                    } else {
                                        gafter == push_spawned_m(gs, k) && !ended
                                    }
                                },
                            }
                        };
                    draw = Option::Some((pm, dr));
                }
            }
            if ended {
                proof {
                    assert(tick_rel_with_draw(pre, self.model(), self.ticks, draw));
                }
                return self.ticks;
            }
        }

        self.settle();

        proof {
            assert(tick_rel_with_draw(pre, self.model(), self.ticks, draw));
        }

        self.ticks
    }
}

} // verus!

verus! {

/// A full bag holds each of the seven kinds exactly once.
pub proof fn lemma_full_bag_counts()
    ensures
        forall|k: tetrominos::Kind| #[trigger] full_bag().count(k) == 1,
        full_bag().len() == 7,
{
    broadcast use vstd::seq_lib::group_to_multiset_ensures;
    broadcast use vstd::multiset::group_multiset_axioms;

    let s = full_seq();
    assert(s =~= Seq::<tetrominos::Kind>::empty().push(tetrominos::Kind::Stick).push(
        tetrominos::Kind::Square,
    ).push(tetrominos::Kind::Pyramid).push(tetrominos::Kind::Seven).push(
        tetrominos::Kind::Snake,
    ).push(tetrominos::Kind::Hook).push(tetrominos::Kind::Zig));
    assert(Seq::<tetrominos::Kind>::empty().to_multiset() =~= Multiset::<tetrominos::Kind>::empty());
    assert(full_bag() =~= Multiset::<tetrominos::Kind>::empty().insert(
        tetrominos::Kind::Stick,
    ).insert(tetrominos::Kind::Square).insert(tetrominos::Kind::Pyramid).insert(
        tetrominos::Kind::Seven,
    ).insert(tetrominos::Kind::Snake).insert(tetrominos::Kind::Hook).insert(
        tetrominos::Kind::Zig,
    ));
    assert forall|k: tetrominos::Kind| #[trigger] full_bag().count(k) == 1 by {
        match k {
            tetrominos::Kind::Stick => {},
            tetrominos::Kind::Seven => {},
            tetrominos::Kind::Hook => {},
            tetrominos::Kind::Square => {},
            tetrominos::Kind::Snake => {},
            tetrominos::Kind::Pyramid => {},
            tetrominos::Kind::Zig => {},
        }
    }
}

/// The bag states and the drawn kinds along seven consecutive draws: each
/// draw hands out a kind the bag holds and removes it.
pub open spec fn bag_draw_chain(
    bags: Seq<Multiset<tetrominos::Kind>>,
    draws: Seq<tetrominos::Kind>,
) -> bool {
    &&& bags.len() == 8
    &&& draws.len() == 7
    &&& forall|i: int|
        0 <= i < 7 ==> (#[trigger] bags[i]).count(draws[i]) > 0 && bags[i + 1] == bags[i].remove(
            draws[i],
        )
}

proof fn lemma_bag_chain_sum(
    bags: Seq<Multiset<tetrominos::Kind>>,
    draws: Seq<tetrominos::Kind>,
    i: int,
)
    requires
        bag_draw_chain(bags, draws),
        0 <= i <= 7,
    ensures
        bags[i].add(draws.take(i).to_multiset()) == bags[0],
    decreases i,
{
    broadcast use vstd::seq_lib::group_to_multiset_ensures;
    broadcast use vstd::multiset::group_multiset_axioms;

    if i == 0 {
        assert(draws.take(0) =~= Seq::<tetrominos::Kind>::empty());
        assert(Seq::<tetrominos::Kind>::empty().to_multiset() =~= Multiset::<
            tetrominos::Kind,
        >::empty());
        assert(bags[0].add(Multiset::<tetrominos::Kind>::empty()) =~= bags[0]);
    } else {
        lemma_bag_chain_sum(bags, draws, i - 1);
        assert(draws.take(i) =~= draws.take(i - 1).push(draws[i - 1]));
        assert(draws.take(i).to_multiset() =~= draws.take(i - 1).to_multiset().insert(
            draws[i - 1],
        ));
        assert(bags[i].add(draws.take(i).to_multiset()) =~= bags[i - 1].add(
            draws.take(i - 1).to_multiset(),
        ));
    }
}

/// Bag fairness: over any seven consecutive draws from a fresh bag, each of
/// the seven kinds is handed out exactly once (so all seven appear before
/// any kind repeats).
pub proof fn lemma_bag_fairness(
    bags: Seq<Multiset<tetrominos::Kind>>,
    draws: Seq<tetrominos::Kind>,
)
    requires
        bag_draw_chain(bags, draws),
        bags[0] == full_bag(),
    ensures
        forall|k: tetrominos::Kind| #[trigger] draws.to_multiset().count(k) == 1,
{
    broadcast use vstd::seq_lib::group_to_multiset_ensures;
    broadcast use vstd::multiset::group_multiset_axioms;

    lemma_full_bag_counts();
    lemma_bag_chain_sum(bags, draws, 7);
    assert(draws.take(7) =~= draws);
    assert(bags[7].add(draws.to_multiset()) == full_bag());
    assert(draws.to_multiset().len() == 7);
    assert(bags[7].len() + draws.to_multiset().len() == 7);
    assert(bags[7].len() == 0);
    vstd::multiset::lemma_multiset_empty_len(bags[7]);
    assert(bags[7] =~= Multiset::<tetrominos::Kind>::empty());
    assert forall|k: tetrominos::Kind| #[trigger] draws.to_multiset().count(k) == 1 by {
        assert(bags[7].add(draws.to_multiset()).count(k) == full_bag().count(k));
        assert(full_bag().count(k) == 1);
    }
}

/// Replay determinism, one step: from one state, a tick of a replay-driven
/// game can reach exactly one next state. The only non-functional step of
/// `tick_rel` is the provider draw, and a replay provider's draw is fixed by
/// its cursor, so two outcomes of the same tick coincide. Together with
/// `queue_action`'s functional contract, a whole replay run is determined by
/// the recording it is driven from.
pub proof fn lemma_replay_tick_deterministic(
    pre: GameModel,
    post1: GameModel,
    r1: usize,
    post2: GameModel,
    r2: usize,
)
    requires
        pre.provider is Replay,
        tick_rel(pre, post1, r1),
        tick_rel(pre, post2, r2),
    ensures
        post1 == post2,
        r1 == r2,
{
    if pre.state == State::GameOver {
    } else {
        let gb = bump_m(pre);
        let dropped = act_dropped_m(gb);
        let gg = gravity_m(act_m(gb));
        if can_fall_m(gg) {
        } else if !gg.piece.busy_locking {
        } else if gg.piece.remaining_lock_frames > 0 {
        } else {
            let gi = imprint_m(unlock_m(gg));
            let (pm1, dr1) = choose|pm: ProviderModel, dr: Result<tetrominos::Kind, GameError>|
                {
                    &&& #[trigger] provider_draw_rel(gi.provider, pm, dr)
                    &&& match dr {
                        Result::Err(_) => post1 == game_over_m(GameModel { provider: pm, ..gi }),
                        Result::Ok(k) => {
                            let gs = spawn_piece_m(GameModel { provider: pm, ..gi }, k);
                            if spawn_blocked_m(gs) {
                                post1 == game_over_m(gs)
                            } else {
                                post1 == settle_m(push_spawned_m(gs, k))
                            }
                        },
                    }
                };
            let (pm2, dr2) = choose|pm: ProviderModel, dr: Result<tetrominos::Kind, GameError>|
                {
                    &&& #[trigger] provider_draw_rel(gi.provider, pm, dr)
                    &&& match dr {
                        Result::Err(_) => post2 == game_over_m(GameModel { provider: pm, ..gi }),
                        Result::Ok(k) => {
                            let gs = spawn_piece_m(GameModel { provider: pm, ..gi }, k);
                            if spawn_blocked_m(gs) {
                                post2 == game_over_m(gs)
                            } else {
                                post2 == settle_m(push_spawned_m(gs, k))
                            }
                        },
                    }
                };
            assert(gi.provider == pre.provider);
            assert(pm1 =~= pm2);
            assert(dr1 == dr2);
        }
    }
}

} // verus!

verus! {

/// One frame of a driven game: at most one queue attempt, then one tick.
/// This is exactly how both live play and replay playback advance.
pub open spec fn frame_rel(
    pre: GameModel,
    input: Option<actions::Action>,
    post: GameModel,
) -> bool {
    exists|mid: GameModel, ret: usize|
        {
            &&& match input {
                Option::Some(a) => exists|r: Result<(), GameError>|
                    #[trigger] queue_rel(pre, a, mid, r),
                Option::None => mid == pre,
            }
            &&& #[trigger] tick_rel(mid, post, ret)
        }
}

/// A whole driven run: `trace` lists the game model before the first frame
/// and after each frame of a script of queue attempts.
pub open spec fn trace_ok(
    g0: GameModel,
    script: Seq<Option<actions::Action>>,
    trace: Seq<GameModel>,
) -> bool {
    &&& trace.len() == script.len() + 1
    &&& trace[0] == g0
    &&& forall|i: int|
        0 <= i < script.len() ==> frame_rel(trace[i], #[trigger] script[i], trace[i + 1])
}

/// A tick never changes which sort of provider a game runs on.
proof fn lemma_tick_keeps_replay(pre: GameModel, post: GameModel, ret: usize)
    requires
        pre.provider is Replay,
        tick_rel(pre, post, ret),
    ensures
        post.provider is Replay,
{
    if pre.state == State::GameOver {
    } else {
        let gb = bump_m(pre);
        let dropped = act_dropped_m(gb);
        let gg = gravity_m(act_m(gb));
        if can_fall_m(gg) {
        } else if !gg.piece.busy_locking {
        } else if gg.piece.remaining_lock_frames > 0 {
        } else {
            let gi = imprint_m(unlock_m(gg));
            let (pm, dr) = choose|pm: ProviderModel, dr: Result<tetrominos::Kind, GameError>|
                {
                    &&& #[trigger] provider_draw_rel(gi.provider, pm, dr)
                    &&& match dr {
                        Result::Err(_) => post == game_over_m(GameModel { provider: pm, ..gi }),
                        Result::Ok(k) => {
                            let gs = spawn_piece_m(GameModel { provider: pm, ..gi }, k);
                            if spawn_blocked_m(gs) {
                                post == game_over_m(gs)
                            } else {
                                post == settle_m(push_spawned_m(gs, k))
                            }
                        },
                    }
                };
            assert(pm is Replay);
        }
    }
}

/// One frame of a replay-driven game is deterministic: queueing is a
/// function of the prior state, and the tick's only non-functional step, the
/// provider draw, is fixed by the replay cursor.
proof fn lemma_replay_frame_deterministic(
    pre: GameModel,
    input: Option<actions::Action>,
    post1: GameModel,
    post2: GameModel,
)
    requires
        pre.provider is Replay,
        frame_rel(pre, input, post1),
        frame_rel(pre, input, post2),
    ensures
        post1 == post2,
        post1.provider is Replay,
{
    let (mid1, ret1) = choose|mid: GameModel, ret: usize|
        {
            &&& match input {
                Option::Some(a) => exists|r: Result<(), GameError>|
                    #[trigger] queue_rel(pre, a, mid, r),
                Option::None => mid == pre,
            }
            &&& #[trigger] tick_rel(mid, post1, ret)
        };
    let (mid2, ret2) = choose|mid: GameModel, ret: usize|
        {
            &&& match input {
                Option::Some(a) => exists|r: Result<(), GameError>|
                    #[trigger] queue_rel(pre, a, mid, r),
                Option::None => mid == pre,
            }
            &&& #[trigger] tick_rel(mid, post2, ret)
        };
    assert(mid1 == mid2);
    assert(mid1.provider == pre.provider);
    lemma_replay_tick_deterministic(mid1, post1, ret1, post2, ret2);
    lemma_tick_keeps_replay(mid1, post1, ret1);
}

proof fn lemma_replay_trace_prefix(
    g0: GameModel,
    script: Seq<Option<actions::Action>>,
    trace1: Seq<GameModel>,
    trace2: Seq<GameModel>,
    i: int,
)
    requires
        g0.provider is Replay,
        trace_ok(g0, script, trace1),
        trace_ok(g0, script, trace2),
        0 <= i <= script.len(),
    ensures
        trace1[i] == trace2[i],
        trace1[i].provider is Replay,
    decreases i,
{
    if i == 0 {
    } else {
        lemma_replay_trace_prefix(g0, script, trace1, trace2, i - 1);
        assert(frame_rel(trace1[i - 1], script[i - 1], trace1[i]));
        assert(frame_rel(trace2[i - 1], script[i - 1], trace2[i]));
        lemma_replay_frame_deterministic(
            trace1[i - 1],
            script[i - 1],
            trace1[i],
            trace2[i],
        );
    }
}

/// Replay determinism, end to end: two replay-driven games that start from
/// the same state and are driven by the same script of queue attempts pass
/// through the same states at every frame, so in particular they end with
/// the same playfield, the same score and the same line count. Together with
/// `Game::new`'s priming contract (deterministic for a replay provider) this
/// makes a recorded game reproducible in full.
pub proof fn lemma_replay_run_deterministic(
    g0: GameModel,
    script: Seq<Option<actions::Action>>,
    trace1: Seq<GameModel>,
    trace2: Seq<GameModel>,
)
    requires
        g0.provider is Replay,
        trace_ok(g0, script, trace1),
        trace_ok(g0, script, trace2),
    ensures
        trace1 =~= trace2,
        trace1.last().mat == trace2.last().mat,
        trace1.last().score_points == trace2.last().score_points,
        trace1.last().score_lines_cleared == trace2.last().score_lines_cleared,
{
    assert forall|i: int| 0 <= i < trace1.len() implies trace1[i] == trace2[i] by {
        lemma_replay_trace_prefix(g0, script, trace1, trace2, i);
    }
}

} // verus!

verus! {

/// Two game models that agree on everything but the piece source.
pub open spec fn obs_eq(a: GameModel, b: GameModel) -> bool {
    b == (GameModel { provider: b.provider, ..a })
}

/// Two game models that agree on everything the end of a game fixes: the
/// configuration, the state, the clock, the well, every counter and tally,
/// the action slot and stamps, and the whole recording — everything but the
/// piece source and the pieces in flight.
pub open spec fn outcome_eq(a: GameModel, b: GameModel) -> bool {
    &&& a.rules == b.rules
    &&& a.state == b.state
    &&& a.ticks == b.ticks
    &&& a.level == b.level
    &&& a.speed == b.speed
    &&& a.rows == b.rows
    &&& a.cols == b.cols
    &&& a.mat == b.mat
    &&& a.scoring_kind == b.scoring_kind
    &&& a.scoring_total == b.scoring_total
    &&& a.score_points == b.score_points
    &&& a.score_lines_cleared == b.score_lines_cleared
    &&& a.level_lines_cleared == b.level_lines_cleared
    &&& a.next_action == b.next_action
    &&& a.stamps == b.stamps
    &&& a.events == b.events
}

/// The tick machinery reads nothing from the piece source but the drawn
/// kind: two games that agree on everything else take the same branches, and
/// equal draw results carry them to states that again agree on everything
/// else. When both games end on this tick — however their draws fail (a live
/// game by a blocked spawn whose drawn kind was never recorded, a replay by
/// running out of recorded pieces) — the well, the score, the line count and
/// the whole recording still come out equal. This is the bridge behind
/// replay reproduction: driving the recorded actions at their recorded ticks
/// keeps the inputs equal, the recorded spawns keep the draw results equal
/// at every lock, and the final tick ends both games with the same outcome.
#[verifier::rlimit(100)]
pub proof fn lemma_tick_reads_only_the_draw(
    pre1: GameModel,
    post1: GameModel,
    r1: usize,
    d1: Option<(ProviderModel, Result<tetrominos::Kind, GameError>)>,
    pre2: GameModel,
    post2: GameModel,
    r2: usize,
    d2: Option<(ProviderModel, Result<tetrominos::Kind, GameError>)>,
)
    requires
        obs_eq(pre1, pre2),
        tick_rel_with_draw(pre1, post1, r1, d1),
        tick_rel_with_draw(pre2, post2, r2, d2),
    ensures
        r1 == r2,
        d1 is Some <==> d2 is Some,
        d1 is None ==> obs_eq(post1, post2),
        match (d1, d2) {
            (Option::Some((pm1, dr1)), Option::Some((pm2, dr2))) => dr1 == dr2 ==> obs_eq(
                post1,
                post2,
            ),
            _ => true,
        },
        post1.state == State::GameOver && post2.state == State::GameOver ==> outcome_eq(
            post1,
            post2,
        ),
{
    if pre1.state == State::GameOver {
        assert(obs_eq(post1, post2));
    } else {
        let gb1 = bump_m(pre1);
        let gb2 = bump_m(pre2);
        assert(gb2 =~~= (GameModel { provider: pre2.provider, ..gb1 }));
        let ga1 = act_m(gb1);
        let ga2 = act_m(gb2);
        assert(ga2 =~~= (GameModel { provider: pre2.provider, ..ga1 }));
        let dropped1 = act_dropped_m(gb1);
        let dropped2 = act_dropped_m(gb2);
        assert(dropped1 == dropped2);
        let gg1 = gravity_m(ga1);
        let gg2 = gravity_m(ga2);
        assert(gg2 =~~= (GameModel { provider: pre2.provider, ..gg1 }));
        assert(can_fall_m(gg1) == can_fall_m(gg2));
        if can_fall_m(gg1) {
            assert(settle_m(gg2) =~~= (GameModel { provider: pre2.provider, ..settle_m(gg1) }));
        } else if !gg1.piece.busy_locking {
            let gl1 = lock_start_m(gg1, dropped1);
            let gl2 = lock_start_m(gg2, dropped2);
            assert(gl2 =~~= (GameModel { provider: pre2.provider, ..gl1 }));
            assert(settle_m(gl2) =~~= (GameModel { provider: pre2.provider, ..settle_m(gl1) }));
        } else if gg1.piece.remaining_lock_frames > 0 {
            let gl1 = dec_lock_m(gg1);
            let gl2 = dec_lock_m(gg2);
            assert(gl2 =~~= (GameModel { provider: pre2.provider, ..gl1 }));
            assert(settle_m(gl2) =~~= (GameModel { provider: pre2.provider, ..settle_m(gl1) }));
        } else {
            let gi1 = imprint_m(unlock_m(gg1));
            let gi2 = imprint_m(unlock_m(gg2));
            assert(gi2 =~~= (GameModel { provider: pre2.provider, ..gi1 }));
            let (pm1, dr1) = d1->Some_0;
            let (pm2, dr2) = d2->Some_0;
            let gd1 = GameModel { provider: pm1, ..gi1 };
            let gd2 = GameModel { provider: pm2, ..gi2 };
            assert(gd2 =~~= (GameModel { provider: pm2, ..gd1 }));
            match (dr1, dr2) {
                (Result::Err(_), Result::Err(_)) => {
                    assert(post1 == game_over_m(gd1));
                    assert(post2 == game_over_m(gd2));
                    assert(outcome_eq(post1, post2));
                },
                (Result::Ok(k1), Result::Ok(k2)) => {
                    let gs1 = spawn_piece_m(gd1, k1);
                    let gs2 = spawn_piece_m(gd2, k2);
                    if k1 == k2 {
                        assert(gs2 =~~= (GameModel { provider: pm2, ..gs1 }));
                        assert(spawn_blocked_m(gs1) == spawn_blocked_m(gs2));
                        if spawn_blocked_m(gs1) {
                            assert(obs_eq(post1, post2));
                        } else {
                            let gp1 = push_spawned_m(gs1, k1);
                            let gp2 = push_spawned_m(gs2, k2);
                            assert(gp2 =~~= (GameModel { provider: pm2, ..gp1 }));
                            assert(settle_m(gp2) =~~= (GameModel {
                                provider: pm2,
                                ..settle_m(gp1)
                            }));
                        }
                    } else {
                        // the spawned piece's kind is the common next piece,
                        // so whether the spawn is blocked does not depend on
                        // the drawn kind
                        assert(gs2 =~~= (GameModel {
                            provider: pm2,
                            next_piece: k2,
                            ..gs1
                        }));
                        assert(spawn_blocked_m(gs1) == spawn_blocked_m(gs2));
                        if post1.state == State::GameOver && post2.state == State::GameOver {
                            assert(spawn_blocked_m(gs1));
                            assert(outcome_eq(post1, post2));
                        }
                    }
                },
                (Result::Ok(k1), Result::Err(_)) => {
                    let gs1 = spawn_piece_m(gd1, k1);
                    if post1.state == State::GameOver && post2.state == State::GameOver {
                        assert(spawn_blocked_m(gs1));
                        assert(post1 == game_over_m(gs1));
                        assert(post2 == game_over_m(gd2));
                        assert(outcome_eq(post1, post2));
                    }
                },
                (Result::Err(_), Result::Ok(k2)) => {
                    let gs2 = spawn_piece_m(gd2, k2);
                    if post1.state == State::GameOver && post2.state == State::GameOver {
                        assert(spawn_blocked_m(gs2));
                        assert(post1 == game_over_m(gd1));
                        assert(post2 == game_over_m(gs2));
                        assert(outcome_eq(post1, post2));
                    }
                },
            }
        }
    }
}

} // verus!

verus! {

/// Queueing reads nothing from the piece source: under the same input, two
/// games that agree on everything else answer alike and stay in agreement.
pub proof fn lemma_queue_reads_no_piece_source(
    pre1: GameModel,
    a: actions::Action,
    post1: GameModel,
    r1: Result<(), GameError>,
    pre2: GameModel,
    post2: GameModel,
    r2: Result<(), GameError>,
)
    requires
        obs_eq(pre1, pre2),
        queue_rel(pre1, a, post1, r1),
        queue_rel(pre2, a, post2, r2),
    ensures
        r1 == r2,
        obs_eq(post1, post2),
{
    assert(post2 =~~= (GameModel { provider: post2.provider, ..post1 }));
}

/// One frame of a driven game with its draw exposed: at most one queue
/// attempt, then one tick that used the given draw.
pub open spec fn frame_rel_with_draw(
    pre: GameModel,
    input: Option<actions::Action>,
    post: GameModel,
    draw: Option<(ProviderModel, Result<tetrominos::Kind, GameError>)>,
) -> bool {
    exists|mid: GameModel, ret: usize|
        {
            &&& match input {
                Option::Some(a) => exists|r: Result<(), GameError>|
                    #[trigger] queue_rel(pre, a, mid, r),
                Option::None => mid == pre,
            }
            &&& #[trigger] tick_rel_with_draw(mid, post, ret, draw)
        }
}

/// A whole driven run with its draws exposed: `trace` lists the game model
/// before the first frame and after each frame, `draws` what each frame's
/// tick drew.
pub open spec fn trace_with_draws_ok(
    g0: GameModel,
    script: Seq<Option<actions::Action>>,
    draws: Seq<Option<(ProviderModel, Result<tetrominos::Kind, GameError>)>>,
    trace: Seq<GameModel>,
) -> bool {
    &&& trace.len() == script.len() + 1
    &&& draws.len() == script.len()
    &&& trace[0] == g0
    &&& forall|i: int|
        0 <= i < script.len() ==> frame_rel_with_draw(
            trace[i],
            #[trigger] script[i],
            trace[i + 1],
            draws[i],
        )
}

/// How far two runs on different piece sources can mirror each other: while
/// both keep playing they agree on everything but the source; once both have
/// ended they still agree on the whole outcome.
pub open spec fn mirrors(a: GameModel, b: GameModel) -> bool {
    ||| obs_eq(a, b)
    ||| (outcome_eq(a, b) && a.state == State::GameOver && b.state == State::GameOver)
}

/// Two frames mirror each other when their draws returned the same result,
/// or when both games are over by the end of the frame (the one divergence a
/// replay of a finished game meets: the live draw that found its spawn
/// blocked was never recorded, so the replay runs out instead).
pub open spec fn draws_compatible(
    d1: Option<(ProviderModel, Result<tetrominos::Kind, GameError>)>,
    d2: Option<(ProviderModel, Result<tetrominos::Kind, GameError>)>,
    p1: GameModel,
    p2: GameModel,
) -> bool {
    match (d1, d2) {
        (Option::Some((pm1, dr1)), Option::Some((pm2, dr2))) => dr1 == dr2 || (p1.state
            == State::GameOver && p2.state == State::GameOver),
        _ => true,
    }
}

proof fn lemma_mirror_frame(
    pre1: GameModel,
    input: Option<actions::Action>,
    post1: GameModel,
    d1: Option<(ProviderModel, Result<tetrominos::Kind, GameError>)>,
    pre2: GameModel,
    post2: GameModel,
    d2: Option<(ProviderModel, Result<tetrominos::Kind, GameError>)>,
)
    requires
        mirrors(pre1, pre2),
        frame_rel_with_draw(pre1, input, post1, d1),
        frame_rel_with_draw(pre2, input, post2, d2),
        draws_compatible(d1, d2, post1, post2),
    ensures
        mirrors(post1, post2),
{
    let (mid1, ret1) = choose|mid: GameModel, ret: usize|
        {
            &&& match input {
                Option::Some(a) => exists|r: Result<(), GameError>|
                    #[trigger] queue_rel(pre1, a, mid, r),
                Option::None => mid == pre1,
            }
            &&& #[trigger] tick_rel_with_draw(mid, post1, ret, d1)
        };
    let (mid2, ret2) = choose|mid: GameModel, ret: usize|
        {
            &&& match input {
                Option::Some(a) => exists|r: Result<(), GameError>|
                    #[trigger] queue_rel(pre2, a, mid, r),
                Option::None => mid == pre2,
            }
            &&& #[trigger] tick_rel_with_draw(mid, post2, ret, d2)
        };
    if obs_eq(pre1, pre2) {
        match input {
            Option::Some(a) => {
                let r1 = choose|r: Result<(), GameError>| queue_rel(pre1, a, mid1, r);
                let r2 = choose|r: Result<(), GameError>| queue_rel(pre2, a, mid2, r);
                lemma_queue_reads_no_piece_source(pre1, a, mid1, r1, pre2, mid2, r2);
            },
            Option::None => {},
        }
        assert(obs_eq(mid1, mid2));
        lemma_tick_reads_only_the_draw(mid1, post1, ret1, d1, mid2, post2, ret2, d2);
    } else {
        // both games are already over: queueing is rejected unchanged and the
        // tick is a no-op, so the shared outcome is preserved
        assert(mid1 == pre1);
        assert(mid2 == pre2);
        assert(post1 == pre1);
        assert(post2 == pre2);
    }
}

proof fn lemma_mirror_trace_prefix(
    g1: GameModel,
    g2: GameModel,
    script: Seq<Option<actions::Action>>,
    draws1: Seq<Option<(ProviderModel, Result<tetrominos::Kind, GameError>)>>,
    trace1: Seq<GameModel>,
    draws2: Seq<Option<(ProviderModel, Result<tetrominos::Kind, GameError>)>>,
    trace2: Seq<GameModel>,
    i: int,
)
    requires
        obs_eq(g1, g2),
        trace_with_draws_ok(g1, script, draws1, trace1),
        trace_with_draws_ok(g2, script, draws2, trace2),
        forall|j: int|
            0 <= j < script.len() ==> draws_compatible(
                #[trigger] draws1[j],
                draws2[j],
                trace1[j + 1],
                trace2[j + 1],
            ),
        0 <= i <= script.len(),
    ensures
        mirrors(trace1[i], trace2[i]),
    decreases i,
{
    if i == 0 {
    } else {
        lemma_mirror_trace_prefix(g1, g2, script, draws1, trace1, draws2, trace2, i - 1);
        assert(frame_rel_with_draw(trace1[i - 1], script[i - 1], trace1[i], draws1[i - 1]));
        assert(frame_rel_with_draw(trace2[i - 1], script[i - 1], trace2[i], draws2[i - 1]));
        assert(draws_compatible(draws1[i - 1], draws2[i - 1], trace1[i], trace2[i]));
        lemma_mirror_frame(
            trace1[i - 1],
            script[i - 1],
            trace1[i],
            draws1[i - 1],
            trace2[i - 1],
            trace2[i],
            draws2[i - 1],
        );
    }
}

} // verus!

verus! {

/// Replay reproduction, end to end at the model level: a run on one piece
/// source (say the live bag) and a run on another (say the replay sequence
/// seeded from the live recording) that start observationally equal, take
/// the same queue inputs frame for frame, and whose draws return the same
/// kinds until both games have ended, finish with the same playfield, the
/// same score, the same line count and the same recording. The replay driver
/// supplies exactly those inputs (the recorded actions at their recorded
/// ticks) and the recorded spawns supply exactly those draws, so the live
/// game's final state is reproduced on the very machinery live play uses.
pub proof fn lemma_replay_reproduces_outcome(
    g1: GameModel,
    g2: GameModel,
    script: Seq<Option<actions::Action>>,
    draws1: Seq<Option<(ProviderModel, Result<tetrominos::Kind, GameError>)>>,
    trace1: Seq<GameModel>,
    draws2: Seq<Option<(ProviderModel, Result<tetrominos::Kind, GameError>)>>,
    trace2: Seq<GameModel>,
)
    requires
        obs_eq(g1, g2),
        trace_with_draws_ok(g1, script, draws1, trace1),
        trace_with_draws_ok(g2, script, draws2, trace2),
        forall|j: int|
            0 <= j < script.len() ==> draws_compatible(
                #[trigger] draws1[j],
                draws2[j],
                trace1[j + 1],
                trace2[j + 1],
            ),
    ensures
        mirrors(trace1.last(), trace2.last()),
        trace1.last().mat == trace2.last().mat,
        trace1.last().score_points == trace2.last().score_points,
        trace1.last().score_lines_cleared == trace2.last().score_lines_cleared,
        trace1.last().events == trace2.last().events,
        trace1.last().state == trace2.last().state,
{
    lemma_mirror_trace_prefix(
        g1,
        g2,
        script,
        draws1,
        trace1,
        draws2,
        trace2,
        script.len() as int,
    );
}

} // verus!
