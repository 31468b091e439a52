//! The first, simpler board: byte coordinates, shots and ships, drawn in
//! fixed colours.
use vstd::prelude::*;
use cursive::theme::Color;
use crate::colors::{rgb, rgb_color};

verus! {

/// A cell of the board: a shot fired at it, or a cell that a ship covers.
#[derive(Debug)]
pub struct Hit {
    pub x: u8,
    pub y: u8,
    pub is_hit: bool,
}

impl Hit {
    pub fn new(x: u8, y: u8, is_hit: bool) -> (h: Hit)
        ensures
            h == (Hit { x, y, is_hit }),
    {
        Hit { x, y, is_hit }
    }
}

/// A ship: the cells it covers and the length it was built with.
pub struct Ship {
    pub len: usize,
    pub positions: Vec<Hit>,
    pub is_sunk: bool,
}

impl Ship {
    pub fn new(len: usize, positions: Vec<Hit>, is_sunk: bool) -> (s: Ship)
        ensures
            s.len == len,
            s.positions@ == positions@,
            s.is_sunk == is_sunk,
    {
        Ship { len, positions, is_sunk }
    }
}

/// A square of the picture of the board.
pub struct Cell {
    pub x: u8,
    pub y: u8,
    pub front: Color,
    pub back: Color,
    pub text: char,
}

/// A board: the shots fired at it and the ships on it.
pub struct Grid {
    pub hits: Vec<Hit>,
    pub ships: Vec<Ship>,
}

/// Whether the cell `h` stands at `(x, y)`.
pub open spec fn at(h: Hit, x: u8, y: u8) -> bool {
    h.x == x && h.y == y
}

/// The outcome recorded by the first shot at `(x, y)` among `hits`, or `None`.
pub open spec fn shot_at(hits: Seq<Hit>, x: u8, y: u8) -> Option<bool>
    decreases hits.len(),
{
    if hits.len() == 0 {
        None
    } else if at(hits[0], x, y) {
        Some(hits[0].is_hit)
    } else {
        shot_at(hits.drop_first(), x, y)
    }
}

/// Whether one of the ships covers `(x, y)`.
pub open spec fn fleet_covers(ships: Seq<Ship>, x: u8, y: u8) -> bool {
    exists|s: int, p: int|
        0 <= s < ships.len() && 0 <= p < ships[s].positions@.len() && at(
            #[trigger] ships[s].positions@[p],
            x,
            y,
        )
}

/// The background of the square `(x, y)`: grey under a ship, aquamarine
/// elsewhere.
pub open spec fn back_color_of(ships: Seq<Ship>, x: u8, y: u8) -> Color {
    if fleet_covers(ships, x, y) {
        rgb_color(128, 128, 128)
    } else {
        rgb_color(127, 255, 212)
    }
}

/// The square `(x, y)` of the picture of the board: an `X` where a shot was
/// fired, red for a hit and white for a miss; blank in light cyan otherwise.
pub open spec fn cell_of(hits: Seq<Hit>, ships: Seq<Ship>, x: u8, y: u8) -> Cell {
    Cell {
        x,
        y,
        front: match shot_at(hits, x, y) {
            None => rgb_color(224, 255, 255),
            Some(struck) => if struck {
                rgb_color(255, 0, 0)
            } else {
                rgb_color(255, 255, 255)
            },
        },
        back: back_color_of(ships, x, y),
        text: if shot_at(hits, x, y) is Some {
            'X'
        } else {
            ' '
        },
    }
}

impl Grid {
    pub fn new() -> (g: Grid)
        ensures
            g.hits@ == Seq::<Hit>::empty(),
            g.ships@ == Seq::<Ship>::empty(),
    {
        Grid { hits: Vec::new(), ships: Vec::new() }
    }

    /// The outcome of the first shot fired at `(x, y)`, if one was.
    pub fn is_hit(&self, x: u8, y: u8) -> (r: Option<bool>)
        ensures
            r == shot_at(self.hits@, x, y),
    {
        let n = self.hits.len();
        assert(self.hits@.subrange(0, n as int) =~= self.hits@);
        for i in 0..n
            invariant
                n == self.hits@.len(),
                shot_at(self.hits@, x, y) == shot_at(self.hits@.subrange(i as int, n as int), x, y),
        {
            let ghost rest = self.hits@.subrange(i as int, n as int);
            if self.hits[i].x == x && self.hits[i].y == y {
                assert(rest[0] == self.hits@[i as int]);
                return Some(self.hits[i].is_hit);
            }
            assert(rest.drop_first() =~= self.hits@.subrange(i + 1, n as int));
        }
        assert(self.hits@.subrange(n as int, n as int) =~= Seq::<Hit>::empty());
        None
    }

    /// The background colour of the square `(x, y)`.
    pub fn back_color(&self, x: u8, y: u8) -> (c: Color)
        ensures
            c == back_color_of(self.ships@, x, y),
    {
        let ns = self.ships.len();
        for s in 0..ns
            invariant
                ns == self.ships@.len(),
                forall|j: int, k: int|
                    0 <= j < s && 0 <= k < self.ships@[j].positions@.len() ==> !at(
                        #[trigger] self.ships@[j].positions@[k],
                        x,
                        y,
                    ),
        {
            let np = self.ships[s].positions.len();
            for p in 0..np
                invariant
                    s < ns,
                    ns == self.ships@.len(),
                    np == self.ships@[s as int].positions@.len(),
                    forall|j: int, k: int|
                        0 <= j < s && 0 <= k < self.ships@[j].positions@.len() ==> !at(
                            #[trigger] self.ships@[j].positions@[k],
                            x,
                            y,
                        ),
                    forall|k: int|
                        0 <= k < p ==> !at(#[trigger] self.ships@[s as int].positions@[k], x, y),
            {
                if self.ships[s].positions[p].x == x && self.ships[s].positions[p].y == y {
                    assert(at(self.ships@[s as int].positions@[p as int], x, y));
                    return rgb(128, 128, 128);
                }
            }
        }
        rgb(127, 255, 212)
    }

    /// The picture of the board, ten columns of ten squares: the square of
    /// column `x` and row `y` stands at index `10 * x + y`.
    pub fn cells(&self) -> (r: Vec<Cell>)
        ensures
            r@.len() == 100,
            forall|x: int, y: int|
                0 <= x < 10 && 0 <= y < 10 ==> #[trigger] r@[10 * x + y] == cell_of(
                    self.hits@,
                    self.ships@,
                    x as u8,
                    y as u8,
                ),
    {
        let mut r: Vec<Cell> = Vec::new();
        for x in 0..10u8
            invariant
                r@.len() == 10 * x,
                forall|a: int, b: int|
                    0 <= a < x && 0 <= b < 10 ==> #[trigger] r@[10 * a + b] == cell_of(
                        self.hits@,
                        self.ships@,
                        a as u8,
                        b as u8,
                    ),
        {
            for y in 0..10u8
                invariant
                    0 <= x < 10,
                    r@.len() == 10 * x + y,
                    forall|a: int, b: int|
                        ((0 <= a < x && 0 <= b < 10) || (a == x && 0 <= b < y)) ==> #[trigger] r@[10
                            * a + b] == cell_of(self.hits@, self.ships@, a as u8, b as u8),
            {
                let h = self.is_hit(x, y);
                let front = match h {
                    None => rgb(224, 255, 255),
                    Some(struck) => if struck == true {
                        rgb(255, 0, 0)
                    } else {
                        rgb(255, 255, 255)
                    },
                };
                let text = if h.is_some() {
                    'X'
                } else {
                    ' '
                };
                let back = self.back_color(x, y);
                r.push(Cell { x, y, front, back, text });
            }
        }
        r
    }
}

} // verus!
