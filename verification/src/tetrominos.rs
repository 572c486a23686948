use vstd::prelude::*;

verus! {

/// The seven tetromino kinds.
#[derive(Clone, Copy, Debug, PartialEq, Eq, Hash, Structural)]
pub enum Kind {
    Stick,
    Seven,
    Hook,
    Square,
    Snake,
    Pyramid,
    Zig,
}

/// One pre-rotated 4x4 bit shape; every cell is 0 or 1.
pub type Form = [[u8; 4]; 4];

/// A catalog entry: one kind together with its four pre-baked rotation shapes.
#[derive(Clone, Copy, Debug)]
pub struct Tetromino {
    pub kind: Kind,
    pub forms: [Form; 4],
}

/// The catalog as a mathematical table: the shape of kind `k` at rotation
/// `rot` (0 to 3), as a 4x4 grid of 0/1 cells.
pub open spec fn form_spec(k: Kind, rot: int) -> Seq<Seq<u8>> {
    match k {
        Kind::Stick => stick_spec(rot),
        Kind::Seven => seven_spec(rot),
        Kind::Hook => hook_spec(rot),
        Kind::Square => square_spec(rot),
        Kind::Snake => snake_spec(rot),
        Kind::Pyramid => pyramid_spec(rot),
        Kind::Zig => zig_spec(rot),
    }
}

pub open spec fn stick_spec(rot: int) -> Seq<Seq<u8>> {
    if rot == 0 {
        seq![
            seq![0u8, 0, 0, 0],
            seq![1u8, 1, 1, 1],
            seq![0u8, 0, 0, 0],
            seq![0u8, 0, 0, 0],
        ]
    }
    else if rot == 1 {
        seq![
            seq![0u8, 0, 1, 0],
            seq![0u8, 0, 1, 0],
            seq![0u8, 0, 1, 0],
            seq![0u8, 0, 1, 0],
        ]
    }
    else if rot == 2 {
        seq![
            seq![0u8, 0, 0, 0],
            seq![0u8, 0, 0, 0],
            seq![1u8, 1, 1, 1],
            seq![0u8, 0, 0, 0],
        ]
    }
    else {
        seq![
            seq![0u8, 1, 0, 0],
            seq![0u8, 1, 0, 0],
            seq![0u8, 1, 0, 0],
            seq![0u8, 1, 0, 0],
        ]
    }
}

pub open spec fn seven_spec(rot: int) -> Seq<Seq<u8>> {
    if rot == 0 {
        seq![
            seq![0u8, 0, 1, 0],
            seq![1u8, 1, 1, 0],
            seq![0u8, 0, 0, 0],
            seq![0u8, 0, 0, 0],
        ]
    }
    else if rot == 1 {
        seq![
            seq![0u8, 1, 0, 0],
            seq![0u8, 1, 0, 0],
            seq![0u8, 1, 1, 0],
            seq![0u8, 0, 0, 0],
        ]
    }
    else if rot == 2 {
        seq![
            seq![0u8, 0, 0, 0],
            seq![1u8, 1, 1, 0],
            seq![1u8, 0, 0, 0],
            seq![0u8, 0, 0, 0],
        ]
    }
    else {
        seq![
            seq![1u8, 1, 0, 0],
            seq![0u8, 1, 0, 0],
            seq![0u8, 1, 0, 0],
            seq![0u8, 0, 0, 0],
        ]
    }
}

pub open spec fn hook_spec(rot: int) -> Seq<Seq<u8>> {
    if rot == 0 {
        seq![
            seq![1u8, 0, 0, 0],
            seq![1u8, 1, 1, 0],
            seq![0u8, 0, 0, 0],
            seq![0u8, 0, 0, 0],
        ]
    }
    else if rot == 1 {
        seq![
            seq![0u8, 1, 1, 0],
            seq![0u8, 1, 0, 0],
            seq![0u8, 1, 0, 0],
            seq![0u8, 0, 0, 0],
        ]
    }
    else if rot == 2 {
        seq![
            seq![0u8, 0, 0, 0],
            seq![1u8, 1, 1, 0],
            seq![0u8, 0, 1, 0],
            seq![0u8, 0, 0, 0],
        ]
    }
    else {
        seq![
            seq![0u8, 1, 0, 0],
            seq![0u8, 1, 0, 0],
            seq![1u8, 1, 0, 0],
            seq![0u8, 0, 0, 0],
        ]
    }
}

pub open spec fn square_spec(rot: int) -> Seq<Seq<u8>> {
    if rot == 0 {
        seq![
            seq![0u8, 1, 1, 0],
            seq![0u8, 1, 1, 0],
            seq![0u8, 0, 0, 0],
            seq![0u8, 0, 0, 0],
        ]
    }
    else if rot == 1 {
        seq![
            seq![0u8, 1, 1, 0],
            seq![0u8, 1, 1, 0],
            seq![0u8, 0, 0, 0],
            seq![0u8, 0, 0, 0],
        ]
    }
    else if rot == 2 {
        seq![
            seq![0u8, 1, 1, 0],
            seq![0u8, 1, 1, 0],
            seq![0u8, 0, 0, 0],
            seq![0u8, 0, 0, 0],
        ]
    }
    else {
        seq![
            seq![0u8, 1, 1, 0],
            seq![0u8, 1, 1, 0],
            seq![0u8, 0, 0, 0],
            seq![0u8, 0, 0, 0],
        ]
    }
}

pub open spec fn snake_spec(rot: int) -> Seq<Seq<u8>> {
    if rot == 0 {
        seq![
            seq![0u8, 1, 1, 0],
            seq![1u8, 1, 0, 0],
            seq![0u8, 0, 0, 0],
            seq![0u8, 0, 0, 0],
        ]
    }
    else if rot == 1 {
        seq![
            seq![0u8, 1, 0, 0],
            seq![0u8, 1, 1, 0],
            seq![0u8, 0, 1, 0],
            seq![0u8, 0, 0, 0],
        ]
    }
    else if rot == 2 {
        seq![
            seq![0u8, 0, 0, 0],
            seq![0u8, 1, 1, 0],
            seq![1u8, 1, 0, 0],
            seq![0u8, 0, 0, 0],
        ]
    }
    else {
        seq![
            seq![1u8, 0, 0, 0],
            seq![1u8, 1, 0, 0],
            seq![0u8, 1, 0, 0],
            seq![0u8, 0, 0, 0],
        ]
    }
}

pub open spec fn pyramid_spec(rot: int) -> Seq<Seq<u8>> {
    if rot == 0 {
        seq![
            seq![0u8, 1, 0, 0],
            seq![1u8, 1, 1, 0],
            seq![0u8, 0, 0, 0],
            seq![0u8, 0, 0, 0],
        ]
    }
    else if rot == 1 {
        seq![
            seq![0u8, 1, 0, 0],
            seq![0u8, 1, 1, 0],
            seq![0u8, 1, 0, 0],
            seq![0u8, 0, 0, 0],
        ]
    }
    else if rot == 2 {
        seq![
            seq![0u8, 0, 0, 0],
            seq![1u8, 1, 1, 0],
            seq![0u8, 1, 0, 0],
            seq![0u8, 0, 0, 0],
        ]
    }
    else {
        seq![
            seq![0u8, 1, 0, 0],
            seq![1u8, 1, 0, 0],
            seq![0u8, 1, 0, 0],
            seq![0u8, 0, 0, 0],
        ]
    }
}

pub open spec fn zig_spec(rot: int) -> Seq<Seq<u8>> {
    if rot == 0 {
        seq![
            seq![1u8, 1, 0, 0],
            seq![0u8, 1, 1, 0],
            seq![0u8, 0, 0, 0],
            seq![0u8, 0, 0, 0],
        ]
    }
    else if rot == 1 {
        seq![
            seq![0u8, 0, 1, 0],
            seq![0u8, 1, 1, 0],
            seq![0u8, 1, 0, 0],
            seq![0u8, 0, 0, 0],
        ]
    }
    else if rot == 2 {
        seq![
            seq![0u8, 0, 0, 0],
            seq![1u8, 1, 0, 0],
            seq![0u8, 1, 1, 0],
            seq![0u8, 0, 0, 0],
        ]
    }
    else {
        seq![
            seq![0u8, 1, 0, 0],
            seq![1u8, 1, 0, 0],
            seq![1u8, 0, 0, 0],
            seq![0u8, 0, 0, 0],
        ]
    }
}

fn stick() -> (t: Tetromino)
    ensures
        t.kind == Kind::Stick,
        forall|i: int, r: int, c: int|
            0 <= i < 4 && 0 <= r < 4 && 0 <= c < 4 ==> t.forms[i][r][c] == form_spec(
                Kind::Stick,
                i,
            )[r][c],
{
    let t = Tetromino {
        kind: Kind::Stick,
        forms: [
            [[0, 0, 0, 0], [1, 1, 1, 1], [0, 0, 0, 0], [0, 0, 0, 0]],
            [[0, 0, 1, 0], [0, 0, 1, 0], [0, 0, 1, 0], [0, 0, 1, 0]],
            [[0, 0, 0, 0], [0, 0, 0, 0], [1, 1, 1, 1], [0, 0, 0, 0]],
            [[0, 1, 0, 0], [0, 1, 0, 0], [0, 1, 0, 0], [0, 1, 0, 0]],
        ],
    };
    proof {
        assert forall|i: int, r: int, c: int|
            0 <= i < 4 && 0 <= r < 4 && 0 <= c < 4 implies t.forms[i][r][c] == form_spec(
            Kind::Stick,
            i,
        )[r][c] by {
            assert(t.forms[i][r][c] == form_spec(Kind::Stick, i)[r][c]);
        }
    }
    t
}

fn seven() -> (t: Tetromino)
    ensures
        t.kind == Kind::Seven,
        forall|i: int, r: int, c: int|
            0 <= i < 4 && 0 <= r < 4 && 0 <= c < 4 ==> t.forms[i][r][c] == form_spec(
                Kind::Seven,
                i,
            )[r][c],
{
    let t = Tetromino {
        kind: Kind::Seven,
        forms: [
            [[0, 0, 1, 0], [1, 1, 1, 0], [0, 0, 0, 0], [0, 0, 0, 0]],
            [[0, 1, 0, 0], [0, 1, 0, 0], [0, 1, 1, 0], [0, 0, 0, 0]],
            [[0, 0, 0, 0], [1, 1, 1, 0], [1, 0, 0, 0], [0, 0, 0, 0]],
            [[1, 1, 0, 0], [0, 1, 0, 0], [0, 1, 0, 0], [0, 0, 0, 0]],
        ],
    };
    proof {
        assert forall|i: int, r: int, c: int|
            0 <= i < 4 && 0 <= r < 4 && 0 <= c < 4 implies t.forms[i][r][c] == form_spec(
            Kind::Seven,
            i,
        )[r][c] by {
            assert(t.forms[i][r][c] == form_spec(Kind::Seven, i)[r][c]);
        }
    }
    t
}

fn hook() -> (t: Tetromino)
    ensures
        t.kind == Kind::Hook,
        forall|i: int, r: int, c: int|
            0 <= i < 4 && 0 <= r < 4 && 0 <= c < 4 ==> t.forms[i][r][c] == form_spec(
                Kind::Hook,
                i,
            )[r][c],
{
    let t = Tetromino {
        kind: Kind::Hook,
        forms: [
            [[1, 0, 0, 0], [1, 1, 1, 0], [0, 0, 0, 0], [0, 0, 0, 0]],
            [[0, 1, 1, 0], [0, 1, 0, 0], [0, 1, 0, 0], [0, 0, 0, 0]],
            [[0, 0, 0, 0], [1, 1, 1, 0], [0, 0, 1, 0], [0, 0, 0, 0]],
            [[0, 1, 0, 0], [0, 1, 0, 0], [1, 1, 0, 0], [0, 0, 0, 0]],
        ],
    };
    proof {
        assert forall|i: int, r: int, c: int|
            0 <= i < 4 && 0 <= r < 4 && 0 <= c < 4 implies t.forms[i][r][c] == form_spec(
            Kind::Hook,
            i,
        )[r][c] by {
            assert(t.forms[i][r][c] == form_spec(Kind::Hook, i)[r][c]);
        }
    }
    t
}

fn square() -> (t: Tetromino)
    ensures
        t.kind == Kind::Square,
        forall|i: int, r: int, c: int|
            0 <= i < 4 && 0 <= r < 4 && 0 <= c < 4 ==> t.forms[i][r][c] == form_spec(
                Kind::Square,
                i,
            )[r][c],
{
    let t = Tetromino {
        kind: Kind::Square,
        forms: [
            [[0, 1, 1, 0], [0, 1, 1, 0], [0, 0, 0, 0], [0, 0, 0, 0]],
            [[0, 1, 1, 0], [0, 1, 1, 0], [0, 0, 0, 0], [0, 0, 0, 0]],
            [[0, 1, 1, 0], [0, 1, 1, 0], [0, 0, 0, 0], [0, 0, 0, 0]],
            [[0, 1, 1, 0], [0, 1, 1, 0], [0, 0, 0, 0], [0, 0, 0, 0]],
        ],
    };
    proof {
        assert forall|i: int, r: int, c: int|
            0 <= i < 4 && 0 <= r < 4 && 0 <= c < 4 implies t.forms[i][r][c] == form_spec(
            Kind::Square,
            i,
        )[r][c] by {
            assert(t.forms[i][r][c] == form_spec(Kind::Square, i)[r][c]);
        }
    }
    t
}

fn snake() -> (t: Tetromino)
    ensures
        t.kind == Kind::Snake,
        forall|i: int, r: int, c: int|
            0 <= i < 4 && 0 <= r < 4 && 0 <= c < 4 ==> t.forms[i][r][c] == form_spec(
                Kind::Snake,
                i,
            )[r][c],
{
    let t = Tetromino {
        kind: Kind::Snake,
        forms: [
            [[0, 1, 1, 0], [1, 1, 0, 0], [0, 0, 0, 0], [0, 0, 0, 0]],
            [[0, 1, 0, 0], [0, 1, 1, 0], [0, 0, 1, 0], [0, 0, 0, 0]],
            [[0, 0, 0, 0], [0, 1, 1, 0], [1, 1, 0, 0], [0, 0, 0, 0]],
            [[1, 0, 0, 0], [1, 1, 0, 0], [0, 1, 0, 0], [0, 0, 0, 0]],
        ],
    };
    proof {
        assert forall|i: int, r: int, c: int|
            0 <= i < 4 && 0 <= r < 4 && 0 <= c < 4 implies t.forms[i][r][c] == form_spec(
            Kind::Snake,
            i,
        )[r][c] by {
            assert(t.forms[i][r][c] == form_spec(Kind::Snake, i)[r][c]);
        }
    }
    t
}

fn pyramid() -> (t: Tetromino)
    ensures
        t.kind == Kind::Pyramid,
        forall|i: int, r: int, c: int|
            0 <= i < 4 && 0 <= r < 4 && 0 <= c < 4 ==> t.forms[i][r][c] == form_spec(
                Kind::Pyramid,
                i,
            )[r][c],
{
    let t = Tetromino {
        kind: Kind::Pyramid,
        forms: [
            [[0, 1, 0, 0], [1, 1, 1, 0], [0, 0, 0, 0], [0, 0, 0, 0]],
            [[0, 1, 0, 0], [0, 1, 1, 0], [0, 1, 0, 0], [0, 0, 0, 0]],
            [[0, 0, 0, 0], [1, 1, 1, 0], [0, 1, 0, 0], [0, 0, 0, 0]],
            [[0, 1, 0, 0], [1, 1, 0, 0], [0, 1, 0, 0], [0, 0, 0, 0]],
        ],
    };
    proof {
        assert forall|i: int, r: int, c: int|
            0 <= i < 4 && 0 <= r < 4 && 0 <= c < 4 implies t.forms[i][r][c] == form_spec(
            Kind::Pyramid,
            i,
        )[r][c] by {
            assert(t.forms[i][r][c] == form_spec(Kind::Pyramid, i)[r][c]);
        }
    }
    t
}

fn zig() -> (t: Tetromino)
    ensures
        t.kind == Kind::Zig,
        forall|i: int, r: int, c: int|
            0 <= i < 4 && 0 <= r < 4 && 0 <= c < 4 ==> t.forms[i][r][c] == form_spec(
                Kind::Zig,
                i,
            )[r][c],
{
    let t = Tetromino {
        kind: Kind::Zig,
        forms: [
            [[1, 1, 0, 0], [0, 1, 1, 0], [0, 0, 0, 0], [0, 0, 0, 0]],
            [[0, 0, 1, 0], [0, 1, 1, 0], [0, 1, 0, 0], [0, 0, 0, 0]],
            [[0, 0, 0, 0], [1, 1, 0, 0], [0, 1, 1, 0], [0, 0, 0, 0]],
            [[0, 1, 0, 0], [1, 1, 0, 0], [1, 0, 0, 0], [0, 0, 0, 0]],
        ],
    };
    proof {
        assert forall|i: int, r: int, c: int|
            0 <= i < 4 && 0 <= r < 4 && 0 <= c < 4 implies t.forms[i][r][c] == form_spec(
            Kind::Zig,
            i,
        )[r][c] by {
            assert(t.forms[i][r][c] == form_spec(Kind::Zig, i)[r][c]);
        }
    }
    t
}

/// Fetch the catalog entry for a kind.
pub fn from_kind(k: Kind) -> (t: Tetromino)
    ensures
        t.kind == k,
        forall|i: int, r: int, c: int|
            0 <= i < 4 && 0 <= r < 4 && 0 <= c < 4 ==> t.forms[i][r][c] == form_spec(k, i)[r][c],
{
    match k {
        Kind::Stick => stick(),
        Kind::Seven => seven(),
        Kind::Hook => hook(),
        Kind::Square => square(),
        Kind::Snake => snake(),
        Kind::Pyramid => pyramid(),
        Kind::Zig => zig(),
    }
}

/// Every catalog shape is a 4x4 grid whose cells are 0 or 1.
pub proof fn lemma_form_spec_wf(k: Kind, rot: int)
    ensures
        form_spec(k, rot).len() == 4,
        forall|r: int| 0 <= r < 4 ==> #[trigger] form_spec(k, rot)[r].len() == 4,
        forall|r: int, c: int|
            0 <= r < 4 && 0 <= c < 4 ==> #[trigger] form_spec(k, rot)[r][c] == 0 || form_spec(
                k,
                rot,
            )[r][c] == 1,
{
}

} // verus!
