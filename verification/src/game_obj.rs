//! The pieces of the game: shots and ship cells (`Hit`), ships, and the grid
//! that holds both, with the cursor and the colours it is drawn in.
use vstd::prelude::*;
use cursive::theme::Color;
use crate::colors::{rgb, rgb_color};

verus! {

/// The phase the game is in.
#[allow(non_camel_case_types)]
#[derive(PartialEq, Eq, Structural, Clone, Copy, Debug)]
pub enum Game_State_Id {
    Edit,
    MyTurn,
    TheirTurn,
    GameOver,
}

/// A cell of the board: a shot that was fired at it, or a cell that a ship
/// covers (then `is_hit` says whether it was struck).
#[derive(Debug)]
pub struct Hit {
    pub x: i32,
    pub y: i32,
    pub is_hit: bool,
}

/// Whether an integer fits in an `i32`.
pub open spec fn fits_i32(v: int) -> bool {
    i32::MIN <= v <= i32::MAX
}

/// Whether the cell `h` stands at the coordinates `(x, y)`.
pub open spec fn at(h: Hit, x: i32, y: i32) -> bool {
    h.x == x && h.y == y
}

/// Whether one of the cells `cells` stands at `(x, y)`.
pub open spec fn covers(cells: Seq<Hit>, x: i32, y: i32) -> bool {
    exists|i: int| 0 <= i < cells.len() && at(#[trigger] cells[i], x, y)
}

/// The outcome recorded by the first shot at `(x, y)` among `hits`, or `None`
/// where no shot was fired there.
pub open spec fn shot_at(hits: Seq<Hit>, x: i32, y: i32) -> Option<bool>
    decreases hits.len(),
{
    if hits.len() == 0 {
        None
    } else if at(hits[0], x, y) {
        Some(hits[0].is_hit)
    } else {
        shot_at(hits.drop_first(), x, y)
    }
}

impl Hit {
    pub fn new(x: i32, y: i32, is_hit: bool) -> (h: Hit)
        ensures
            h == (Hit { x, y, is_hit }),
    {
        Hit { x, y, is_hit }
    }

    /// Moves the cell `m` columns to the right (left where `m` is negative).
    pub fn x_mod(&mut self, m: i32)
        requires
            fits_i32(old(self).x + m),
        ensures
            final(self).x == old(self).x + m,
            final(self).y == old(self).y,
            final(self).is_hit == old(self).is_hit,
    {
        self.x += m;
    }

    /// Moves the cell `m` rows down (up where `m` is negative).
    pub fn y_mod(&mut self, m: i32)
        requires
            fits_i32(old(self).y + m),
        ensures
            final(self).x == old(self).x,
            final(self).y == old(self).y + m,
            final(self).is_hit == old(self).is_hit,
    {
        self.y += m;
    }

    pub fn set_is_hit(&mut self, value: bool)
        ensures
            *final(self) == (Hit { is_hit: value, ..*old(self) }),
    {
        self.is_hit = value;
    }
}

/// A ship: the cells it covers, in order, and the length it was built with.
pub struct Ship {
    pub len: usize,
    pub positions: Vec<Hit>,
    pub is_sunk: bool,
}

/// The mathematical value of a ship.
pub struct ShipModel {
    pub len: usize,
    pub positions: Seq<Hit>,
    pub is_sunk: bool,
}

impl View for Ship {
    type V = ShipModel;

    open spec fn view(&self) -> ShipModel {
        ShipModel { len: self.len, positions: self.positions@, is_sunk: self.is_sunk }
    }
}

/// What `Ship::transpose` did.
#[derive(PartialEq, Eq, Structural, Clone, Copy, Debug)]
pub enum TransposeOutcome {
    /// The ship was turned a quarter.
    Turned,
    /// The turned ship would leave the grid; nothing changed.
    NoRoom,
    /// The ship's ends lie in neither one column nor one row; nothing changed.
    NotStraight,
}

/// The cells of a vertical ship laid out to the right from its first cell:
/// the first `len` cells move `i` columns right and onto the first cell's row.
pub open spec fn turned_horizontal(pos: Seq<Hit>, len: usize) -> Seq<Hit> {
    Seq::new(
        pos.len(),
        |i: int|
            if i < len {
                Hit { x: (pos[i].x + i) as i32, y: pos[0].y, is_hit: pos[i].is_hit }
            } else {
                pos[i]
            },
    )
}

/// The cells of a horizontal ship laid out downwards from its first cell:
/// the first `len` cells move onto the first cell's column and `i` rows down.
pub open spec fn turned_vertical(pos: Seq<Hit>, len: usize) -> Seq<Hit> {
    Seq::new(
        pos.len(),
        |i: int|
            if i < len {
                Hit { x: pos[0].x, y: (pos[i].y + i) as i32, is_hit: pos[i].is_hit }
            } else {
                pos[i]
            },
    )
}

/// Whether the first `len` cells of `pos` can each move `i` steps along the
/// axis (columns where `horizontal`, rows otherwise) without leaving `i32`.
pub open spec fn room_to_turn(pos: Seq<Hit>, len: usize, horizontal: bool) -> bool {
    &&& len <= pos.len()
    &&& forall|i: int|
        0 <= i < len ==> fits_i32((if horizontal { pos[i].x } else { pos[i].y }) + i)
}

/// The inputs on which `transpose` is defined: the ship has a cell, the
/// arithmetic it does on coordinates stays within `i32`, and a ship that is
/// turned has at least as many cells as its length (which fits in an `i32`).
/// The length enters the comparison with the grid's edge as `len as i32`.
pub open spec fn transpose_defined(s: ShipModel, max_x: i32, max_y: i32) -> bool {
    let pos = s.positions;
    &&& pos.len() > 0
    &&& fits_i32(pos.last().x - pos[0].x)
    &&& if pos.last().x == pos[0].x {
        &&& fits_i32(pos.last().x + (s.len as i32))
        &&& pos.last().x + (s.len as i32) <= max_x ==> s.len <= i32::MAX && room_to_turn(
            pos,
            s.len,
            true,
        )
    } else {
        &&& fits_i32(pos.last().y - pos[0].y)
        &&& pos.last().y == pos[0].y ==> {
            &&& fits_i32(pos.last().y + (s.len as i32))
            &&& pos.last().y + (s.len as i32) <= max_y ==> s.len <= i32::MAX && room_to_turn(
                pos,
                s.len,
                false,
            )
        }
    }
}

/// The cells of the ship `s` after `transpose`, and its outcome. A ship whose
/// first and last cells share a column turns to the right, one whose first and
/// last cells share a row turns downwards, if its far end stays within `max_x`
/// (or `max_y`).
pub open spec fn transpose_result(s: ShipModel, max_x: i32, max_y: i32) -> (Seq<Hit>, TransposeOutcome) {
    let pos = s.positions;
    if pos.last().x == pos[0].x {
        if pos.last().x + (s.len as i32) > max_x {
            (pos, TransposeOutcome::NoRoom)
        } else {
            (turned_horizontal(pos, s.len), TransposeOutcome::Turned)
        }
    } else if pos.last().y == pos[0].y {
        if pos.last().y + (s.len as i32) > max_y {
            (pos, TransposeOutcome::NoRoom)
        } else {
            (turned_vertical(pos, s.len), TransposeOutcome::Turned)
        }
    } else {
        (pos, TransposeOutcome::NotStraight)
    }
}

impl Ship {
    pub fn new(len: usize, positions: Vec<Hit>, is_sunk: bool) -> (s: Ship)
        ensures
            s.len == len,
            s.positions@ == positions@,
            s.is_sunk == is_sunk,
    {
        Ship { len, positions, is_sunk }
    }

    /// The cell at `index`, to change in place; `None` past the last cell.
    pub fn get_position_mut(&mut self, index: usize) -> (r: Option<&mut Hit>)
        ensures
            index < old(self).positions.len() ==> {
                &&& r is Some
                &&& *r.unwrap() == old(self).positions@[index as int]
                &&& final(self).positions@ == old(self).positions@.update(
                    index as int,
                    *final(r.unwrap()),
                )
            },
            index >= old(self).positions.len() ==> r is None && final(self).positions@
                == old(self).positions@,
            final(self).len == old(self).len,
            final(self).is_sunk == old(self).is_sunk,
    {
        if index < self.positions.len() {
            Some(&mut self.positions[index])
        } else {
            None
        }
    }

    /// Turns the ship a quarter about its first cell, within the grid whose
    /// far edges are `grid_max_x` and `grid_max_y` (the near edges are not
    /// consulted).
    pub fn transpose(
        &mut self,
        grid_min_x: i32,
        grid_min_y: i32,
        grid_max_x: i32,
        grid_max_y: i32,
    ) -> (outcome: TransposeOutcome)
        requires
            transpose_defined(old(self)@, grid_max_x, grid_max_y),
        ensures
            (final(self).positions@, outcome) == transpose_result(old(self)@, grid_max_x, grid_max_y),
            final(self).len == old(self).len,
            final(self).is_sunk == old(self).is_sunk,
    {
        let ghost pos = self.positions@;
        let n = self.positions.len();
        let fx = self.positions[0].x;
        let fy = self.positions[0].y;
        let lx = self.positions[n - 1].x;
        let ly = self.positions[n - 1].y;
        if lx - fx == 0 {
            if lx + self.len as i32 > grid_max_x {
                return TransposeOutcome::NoRoom;
            }
            let len = self.len;
            for p in 0..len
                invariant
                    len == self.len,
                    len == old(self).len,
                    len <= i32::MAX,
                    self.is_sunk == old(self).is_sunk,
                    pos == old(self).positions@,
                    room_to_turn(pos, len, true),
                    self.positions@.len() == pos.len(),
                    forall|i: int|
                        0 <= i < pos.len() ==> #[trigger] self.positions@[i] == if i < p {
                            turned_horizontal(pos, len)[i]
                        } else {
                            pos[i]
                        },
            {
                assert(fits_i32(pos[p as int].x + p));
                self.get_position_mut(p).unwrap().x_mod(p as i32);
                let first_y = self.positions[0].y;
                self.get_position_mut(p).unwrap().y = first_y;
            }
            assert(self.positions@ =~= turned_horizontal(pos, len));
            TransposeOutcome::Turned
        } else if ly - fy == 0 {
            if ly + self.len as i32 > grid_max_y {
                return TransposeOutcome::NoRoom;
            }
            let len = self.len;
            for p in 0..len
                invariant
                    len == self.len,
                    len == old(self).len,
                    len <= i32::MAX,
                    self.is_sunk == old(self).is_sunk,
                    pos == old(self).positions@,
                    room_to_turn(pos, len, false),
                    self.positions@.len() == pos.len(),
                    forall|i: int|
                        0 <= i < pos.len() ==> #[trigger] self.positions@[i] == if i < p {
                            turned_vertical(pos, len)[i]
                        } else {
                            pos[i]
                        },
            {
                assert(fits_i32(pos[p as int].y + p));
                let first_x = self.positions[0].x;
                self.get_position_mut(p).unwrap().x = first_x;
                self.get_position_mut(p).unwrap().y_mod(p as i32);
            }
            assert(self.positions@ =~= turned_vertical(pos, len));
            TransposeOutcome::Turned
        } else {
            TransposeOutcome::NotStraight
        }
    }

    /// Whether `transpose` is defined on the ship within the far edges
    /// `max_x` and `max_y`.
    pub fn can_transpose(&self, max_x: i32, max_y: i32) -> (r: bool)
        ensures
            r == transpose_defined(self@, max_x, max_y),
    {
        let n = self.positions.len();
        if n == 0 {
            return false;
        }
        let fx = self.positions[0].x as i64;
        let fy = self.positions[0].y as i64;
        let lx = self.positions[n - 1].x as i64;
        let ly = self.positions[n - 1].y as i64;
        if lx - fx < i32::MIN as i64 || lx - fx > i32::MAX as i64 {
            return false;
        }
        let horizontal = lx == fx;
        let (far, max) = if horizontal {
            (lx, max_x as i64)
        } else {
            if ly - fy < i32::MIN as i64 || ly - fy > i32::MAX as i64 {
                return false;
            }
            if ly != fy {
                return true;
            }
            (ly, max_y as i64)
        };
        let len = self.len as i32 as i64;
        if far + len < i32::MIN as i64 || far + len > i32::MAX as i64 {
            return false;
        }
        if far + len > max {
            return true;
        }
        if self.len > i32::MAX as usize {
            return false;
        }
        if self.len > n {
            return false;
        }
        #[verifier::loop_isolation(false)]
        for p in 0..self.len
            invariant
                self.len <= n,
                n == self.positions@.len(),
                self.len <= i32::MAX,
                forall|i: int|
                    0 <= i < p ==> fits_i32(
                        (if horizontal {
                            self.positions@[i].x
                        } else {
                            self.positions@[i].y
                        }) + i,
                    ),
        {
            let c = if horizontal {
                self.positions[p].x as i64
            } else {
                self.positions[p].y as i64
            };
            if c + p as i64 > i32::MAX as i64 {
                assert(!fits_i32(
                    (if horizontal {
                        self.positions@[p as int].x
                    } else {
                        self.positions@[p as int].y
                    }) + p,
                ));
                return false;
            }
        }
        true
    }

    /// Whether one of the ship's cells stands at `(x, y)`.
    pub fn bounds_check_fail(&self, x: i32, y: i32) -> (r: bool)
        ensures
            r == covers(self.positions@, x, y),
    {
        let n = self.positions.len();
        for p in 0..n
            invariant
                n == self.positions@.len(),
                forall|i: int| 0 <= i < p ==> !at(#[trigger] self.positions@[i], x, y),
        {
            if self.positions[p].x == x && self.positions[p].y == y {
                assert(at(self.positions@[p as int], x, y));
                return true;
            }
        }
        false
    }
}

/// A square of the picture of a grid: where it stands, the colours of its
/// text and of its background, and its text.
pub struct Cell {
    pub x: i32,
    pub y: i32,
    pub front: Color,
    pub back: Color,
    pub text: char,
}

/// A player's board: the cursor, the shots fired at it, the ships on it, and
/// the colours it is drawn in.
pub struct Grid {
    pub cursor: Hit,
    pub hits: Vec<Hit>,
    pub ships: Vec<Ship>,
    pub color_bg: Color,
    pub color_ship: Color,
    pub color_hit: Color,
    pub color_miss: Color,
    pub color_cursor: Color,
}

/// The mathematical value of a grid.
pub struct GridModel {
    pub cursor: Hit,
    pub hits: Seq<Hit>,
    pub ships: Seq<ShipModel>,
    pub color_bg: Color,
    pub color_ship: Color,
    pub color_hit: Color,
    pub color_miss: Color,
    pub color_cursor: Color,
}

impl View for Grid {
    type V = GridModel;

    open spec fn view(&self) -> GridModel {
        GridModel {
            cursor: self.cursor,
            hits: self.hits@,
            ships: self.ships@.map_values(|s: Ship| s@),
            color_bg: self.color_bg,
            color_ship: self.color_ship,
            color_hit: self.color_hit,
            color_miss: self.color_miss,
            color_cursor: self.color_cursor,
        }
    }
}

/// Whether one of the ships covers `(x, y)`.
pub open spec fn fleet_covers(ships: Seq<ShipModel>, x: i32, y: i32) -> bool {
    exists|s: int| 0 <= s < ships.len() && covers(#[trigger] ships[s].positions, x, y)
}

/// The grid that a game starts with: the cursor off at the corner, no shots,
/// no ships, and the standard colours.
pub open spec fn new_grid() -> GridModel {
    GridModel {
        cursor: Hit { x: 0, y: 0, is_hit: false },
        hits: Seq::empty(),
        ships: Seq::empty(),
        color_bg: rgb_color(127, 255, 212),
        color_ship: rgb_color(128, 128, 128),
        color_hit: rgb_color(255, 0, 0),
        color_miss: rgb_color(255, 255, 255),
        color_cursor: rgb_color(0, 255, 0),
    }
}

/// The background of the square `(x, y)`: the cursor's colour where the cursor
/// is shown there, else the ship colour where a ship covers it, else the
/// grid's background.
pub open spec fn back_color_of(g: GridModel, x: i32, y: i32) -> Color {
    if g.cursor.is_hit && g.cursor.x == x && g.cursor.y == y {
        g.color_cursor
    } else if fleet_covers(g.ships, x, y) {
        g.color_ship
    } else {
        g.color_bg
    }
}

/// The square `(x, y)` of the picture of `g`: an `X` where a shot was fired,
/// in the hit or miss colour of the first shot there; blank otherwise.
pub open spec fn cell_of(g: GridModel, x: i32, y: i32) -> Cell {
    Cell {
        x,
        y,
        front: match shot_at(g.hits, x, y) {
            None => g.color_bg,
            Some(struck) => if struck {
                g.color_hit
            } else {
                g.color_miss
            },
        },
        back: back_color_of(g, x, y),
        text: if shot_at(g.hits, x, y) is Some {
            'X'
        } else {
            ' '
        },
    }
}

impl Grid {
    pub fn new() -> (g: Grid)
        ensures
            g@ == new_grid(),
    {
        let g = Grid {
            cursor: Hit::new(0, 0, false),
            hits: Vec::new(),
            ships: Vec::new(),
            color_bg: rgb(127, 255, 212),
            color_ship: rgb(128, 128, 128),
            color_cursor: rgb(0, 255, 0),
            color_hit: rgb(255, 0, 0),
            color_miss: rgb(255, 255, 255),
        };
        assert(g@.ships =~= Seq::<ShipModel>::empty());
        g
    }

    /// The ships on the grid.
    pub fn ships_mut(&mut self) -> (r: &Vec<Ship>)
        ensures
            r@ == old(self).ships@,
            final(self)@ == old(self)@,
    {
        &self.ships
    }

    /// The outcome of the first shot fired at `(x, y)`, if one was.
    pub fn is_hit(&self, x: i32, y: i32) -> (r: Option<bool>)
        ensures
            r == shot_at(self.hits@, x, y),
    {
        let n = self.hits.len();
        assert(self.hits@.subrange(0, n as int) =~= self.hits@);
        for i in 0..n
            invariant
                n == self.hits@.len(),
                shot_at(self.hits@, x, y) == shot_at(self.hits@.subrange(i as int, n as int), x, y),
        {
            let ghost rest = self.hits@.subrange(i as int, n as int);
            if self.hits[i].x == x && self.hits[i].y == y {
                assert(rest[0] == self.hits@[i as int]);
                return Some(self.hits[i].is_hit);
            }
            assert(rest.drop_first() =~= self.hits@.subrange(i + 1, n as int));
        }
        assert(self.hits@.subrange(n as int, n as int) =~= Seq::<Hit>::empty());
        None
    }

    /// The background colour of the square `(x, y)`.
    pub fn back_color(&self, x: i32, y: i32) -> (c: Color)
        ensures
            c == back_color_of(self@, x, y),
    {
        if self.cursor.is_hit == true && self.cursor.x == x && self.cursor.y == y {
            return self.color_cursor;
        }
        let ns = self.ships.len();
        for s in 0..ns
            invariant
                !(self.cursor.is_hit && self.cursor.x == x && self.cursor.y == y),
                ns == self.ships@.len(),
                forall|j: int| 0 <= j < s ==> !covers(#[trigger] self.ships@[j].positions@, x, y),
        {
            let np = self.ships[s].positions.len();
            for p in 0..np
                invariant
                    !(self.cursor.is_hit && self.cursor.x == x && self.cursor.y == y),
                    s < ns,
                    ns == self.ships@.len(),
                    np == self.ships@[s as int].positions@.len(),
                    forall|k: int|
                        0 <= k < p ==> !at(#[trigger] self.ships@[s as int].positions@[k], x, y),
            {
                if self.ships[s].positions[p].x == x && self.ships[s].positions[p].y == y {
                    assert(at(self.ships@[s as int].positions@[p as int], x, y));
                    assert(self@.ships[s as int].positions == self.ships@[s as int].positions@);
                    assert(covers(self@.ships[s as int].positions, x, y));
                    assert(fleet_covers(self@.ships, x, y));
                    return self.color_ship;
                }
            }
        }
        assert forall|j: int| 0 <= j < self@.ships.len() implies !covers(
            #[trigger] self@.ships[j].positions,
            x,
            y,
        ) by {
            assert(self@.ships[j].positions == self.ships@[j].positions@);
        }
        self.color_bg
    }

    /// The picture of the grid, ten columns of ten squares: the square of
    /// column `x` and row `y` stands at index `10 * x + y`.
    pub fn cells(&self) -> (r: Vec<Cell>)
        ensures
            r@.len() == 100,
            forall|x: int, y: int|
                0 <= x < 10 && 0 <= y < 10 ==> #[trigger] r@[10 * x + y] == cell_of(
                    self@,
                    x as i32,
                    y as i32,
                ),
    {
        let mut r: Vec<Cell> = Vec::new();
        for x in 0..10i32
            invariant
                r@.len() == 10 * x,
                forall|a: int, b: int|
                    0 <= a < x && 0 <= b < 10 ==> #[trigger] r@[10 * a + b] == cell_of(
                        self@,
                        a as i32,
                        b as i32,
                    ),
        {
            for y in 0..10i32
                invariant
                    0 <= x < 10,
                    r@.len() == 10 * x + y,
                    forall|a: int, b: int|
                        ((0 <= a < x && 0 <= b < 10) || (a == x && 0 <= b < y)) ==> #[trigger] r@[10
                            * a + b] == cell_of(self@, a as i32, b as i32),
            {
                let h = self.is_hit(x, y);
                let front = match h {
                    None => self.color_bg,
                    Some(struck) => if struck == true {
                        self.color_hit
                    } else {
                        self.color_miss
                    },
                };
                let text = if h.is_some() {
                    'X'
                } else {
                    ' '
                };
                let back = self.back_color(x, y);
                r.push(Cell { x, y, front, back, text });
            }
        }
        r
    }
}

} // verus!
