//! A box that moves when its user does something.

use vstd::prelude::*;

verus! {

/// The side of the window, in boxes.
pub const GRID: i8 = 8;

#[derive(Debug, Clone, Copy, PartialEq, Eq, Structural)]
pub enum InputMode {
    Keyboard,
    Mouse,
    Gamepad,
}

/// Both modes were asked for.
#[derive(Debug, Clone, Copy, PartialEq, Eq, Structural)]
pub struct ConflictingModes;

/// What moves the box: at most one of the mouse and a gamepad, or else the
/// keyboard.
pub fn input_mode(mouse: bool, gamepad: bool) -> (mode: Result<InputMode, ConflictingModes>)
    ensures
        mode == if mouse && gamepad {
            Err::<InputMode, ConflictingModes>(ConflictingModes)
        } else if mouse {
            Ok(InputMode::Mouse)
        } else if gamepad {
            Ok(InputMode::Gamepad)
        } else {
            Ok(InputMode::Keyboard)
        },
{
    match (mouse, gamepad) {
        (true, true) => Err(ConflictingModes),
        (true, false) => Ok(InputMode::Mouse),
        (false, true) => Ok(InputMode::Gamepad),
        (false, false) => Ok(InputMode::Keyboard),
    }
}

impl InputMode {
    /// Whether the box is in the middle of the window at first; else it is
    /// out of sight until the first key.
    pub fn starts_in_sight(self) -> (in_sight: bool)
        ensures
            in_sight == (self != InputMode::Keyboard),
    {
        match self {
            InputMode::Keyboard => false,
            InputMode::Mouse => true,
            InputMode::Gamepad => true,
        }
    }
}

/// The number of the cell that the box is in; before the first key it is in
/// none.
#[derive(Debug, Clone, Copy, PartialEq, Eq, Structural)]
pub struct MovingBox(pub i8);

impl MovingBox {
    pub open spec fn wf(self) -> bool {
        -1 <= self.0 < 64
    }

    pub fn new() -> (b: MovingBox)
        ensures
            b.0 == -1,
            b.wf(),
    {
        MovingBox(-1)
    }

    /// The next cell, row by row; after the last comes the first.
    pub fn step(&mut self) -> (place: (i8, i8))
        requires
            old(self).wf(),
        ensures
            final(self).wf(),
            final(self).0 == (old(self).0 + 1) % 64,
            place == cell_place(final(self).0),
    {
        self.0 = (self.0 + 1) % 64;
        let y: i8 = self.0 / GRID;
        let x: i8 = self.0 % GRID;
        (x - 4, 4 - y)
    }
}

/// Where a cell is, in boxes from the middle of the window, to the right and
/// up.
pub open spec fn cell_place(cell: i8) -> (i8, i8) {
    ((cell as int % 8 - 4) as i8, (4 - cell as int / 8) as i8)
}

/// Different cells are in different places.
pub proof fn cells_do_not_overlap(a: i8, b: i8)
    requires
        0 <= a < 64,
        0 <= b < 64,
        cell_place(a) == cell_place(b),
    ensures
        a == b,
{
    assert(a as int % 8 == b as int % 8);
    assert(a as int / 8 == b as int / 8);
}

/// The next cell is one to the right, or the first of the row below.
pub proof fn cells_go_row_by_row(cell: i8)
    requires
        0 <= cell < 63,
    ensures
        ({
            let (x, y) = cell_place(cell);
            let (next_x, next_y) = cell_place((cell + 1) as i8);
            &&& -4 <= x < 4 && -4 < y <= 4
            &&& x < 3 ==> next_x == x + 1 && next_y == y
            &&& x == 3 ==> next_x == -4 && next_y == y - 1
        }),
        cell_place(0) == (-4i8, 4i8),
{
}

/// One thing moves the box: what was asked for, or else the keyboard.
pub proof fn one_thing_moves_the_box(
    mouse: bool,
    gamepad: bool,
    mode: Result<InputMode, ConflictingModes>,
)
    requires
        call_ensures(input_mode, (mouse, gamepad), mode),
    ensures
        mode is Err <==> mouse && gamepad,
        mode == Ok::<InputMode, ConflictingModes>(InputMode::Mouse) <==> mouse && !gamepad,
        mode == Ok::<InputMode, ConflictingModes>(InputMode::Gamepad) <==> gamepad && !mouse,
        mode == Ok::<InputMode, ConflictingModes>(InputMode::Keyboard) <==> !gamepad && !mouse,
{
}

} // verus!
