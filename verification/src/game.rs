//! The game: the two grids, the messages shown to the player, and the state
//! machine that reacts to key presses. The terminal front end reads the keys,
//! draws the grids and talks to the opponent; it hands the keys in here as
//! `Input`s and carries out the `Effect`s that come back.
use vstd::prelude::*;
use crate::colors::{rgb, rgb_color};
use crate::game_obj::{
    covers, fits_i32, new_grid, transpose_defined, transpose_result, Game_State_Id, Grid,
    GridModel, Hit, Ship, ShipModel, TransposeOutcome,
};

verus! {

/// A key press, as far as the game tells keys apart.
#[derive(PartialEq, Eq, Structural, Clone, Copy, Debug)]
pub enum Input {
    Enter,
    Up,
    Down,
    Left,
    Right,
    Tab,
    /// Any other event.
    Other,
}

/// What the front end has to do after the game handled a key.
#[derive(PartialEq, Eq, Structural, Clone, Copy, Debug)]
pub enum Effect {
    Nothing,
    /// Send `Ready` to the opponent, and give up the connection.
    SendReady,
    /// Report that the ship could not be turned.
    TransposeRefused,
}

/// How the game was connected to the opponent.
pub enum Connection {
    /// This side dialled the opponent and got through.
    Joined,
    /// This side hosted, and the opponent connected from the given address.
    Hosted(String),
    /// Connecting failed, with the given error.
    Failed(String),
}

/// The game as this side sees it.
pub struct Game {
    pub state: Game_State_Id,
    pub my_grid: Grid,
    pub target_grid: Grid,
    /// The last events, oldest first.
    pub history: Vec<String>,
    /// The message shown under the grid.
    pub msg: String,
    pub ready_check: (bool, bool),
    /// Whether the connection to the opponent is still held.
    pub connected: bool,
}

/// The mathematical value of a game.
pub struct GameModel {
    pub state: Game_State_Id,
    pub my_grid: GridModel,
    pub target_grid: GridModel,
    pub history: Seq<Seq<char>>,
    pub msg: Seq<char>,
    pub ready_check: (bool, bool),
    pub connected: bool,
}

impl View for Game {
    type V = GameModel;

    open spec fn view(&self) -> GameModel {
        GameModel {
            state: self.state,
            my_grid: self.my_grid@,
            target_grid: self.target_grid@,
            history: self.history@.map_values(|s: String| s@),
            msg: self.msg@,
            ready_check: self.ready_check,
            connected: self.connected,
        }
    }
}

/// The game that a session starts with.
pub open spec fn new_game() -> GameModel {
    GameModel {
        state: Game_State_Id::Edit,
        my_grid: new_grid(),
        target_grid: new_grid(),
        history: Seq::empty(),
        msg: "Insert Coin"@,
        ready_check: (false, false),
        connected: false,
    }
}

/// The game after connecting: the message tells how, and the target grid is
/// drawn on black.
pub open spec fn started(g: GameModel, conn: Connection) -> GameModel {
    GameModel {
        msg: match conn {
            Connection::Joined => "CONNECTED!"@,
            Connection::Hosted(addr) => addr@,
            Connection::Failed(err) => err@,
        },
        connected: !(conn is Failed),
        target_grid: GridModel { color_bg: rgb_color(0, 0, 0), ..g.target_grid },
        ..g
    }
}

/// The game after a tick: the placing phase ends once both sides are ready.
pub open spec fn step_result(g: GameModel) -> GameModel {
    if g.state == Game_State_Id::Edit && g.ready_check == (true, true) {
        GameModel { state: Game_State_Id::MyTurn, ..g }
    } else {
        g
    }
}

/// The length of the `k`-th ship placed.
pub open spec fn ship_length(k: int) -> nat {
    if k == 0 {
        2
    } else if k == 1 {
        3
    } else if k == 2 {
        3
    } else if k == 3 {
        4
    } else {
        5
    }
}

/// The name of the `k`-th ship placed.
pub open spec fn ship_name(k: int) -> Seq<char> {
    if k == 0 {
        "Destroyer"@
    } else if k == 1 {
        "Submarine"@
    } else if k == 2 {
        "Cruiser"@
    } else if k == 3 {
        "Battleship"@
    } else {
        "Carrier"@
    }
}

/// A new ship of `n` cells, standing in the first column from the top.
pub open spec fn fresh_ship(n: nat) -> ShipModel {
    ShipModel {
        len: n as usize,
        positions: Seq::new(n, |i: int| Hit { x: 0, y: i as i32, is_hit: false }),
        is_sunk: false,
    }
}

/// The cells `pos`, each moved `dx` columns and `dy` rows.
pub open spec fn shifted(pos: Seq<Hit>, dx: int, dy: int) -> Seq<Hit> {
    pos.map_values(|h: Hit| Hit { x: (h.x + dx) as i32, y: (h.y + dy) as i32, is_hit: h.is_hit })
}

/// Whether every cell of `pos` can move `dx` columns and `dy` rows within `i32`.
pub open spec fn can_shift(pos: Seq<Hit>, dx: int, dy: int) -> bool {
    forall|i: int| #![trigger pos[i]] 0 <= i < pos.len() ==> fits_i32(pos[i].x + dx) && fits_i32(pos[i].y + dy)
}

/// The game `g` with the last ship on its own grid replaced by `s`.
pub open spec fn with_last_ship(g: GameModel, s: ShipModel) -> GameModel {
    GameModel {
        my_grid: GridModel {
            ships: g.my_grid.ships.update(g.my_grid.ships.len() - 1, s),
            ..g.my_grid
        },
        ..g
    }
}

/// The game `g` with the cells of its last ship moved `dx` columns and `dy` rows.
pub open spec fn moved_last_ship(g: GameModel, dx: int, dy: int) -> GameModel {
    let last = g.my_grid.ships.last();
    with_last_ship(g, ShipModel { positions: shifted(last.positions, dx, dy), ..last })
}

/// Whether some ship covers a cell of the last ship placed (the last ship
/// itself among them).
pub open spec fn overlaps_placed(ships: Seq<ShipModel>) -> bool {
    exists|s: int, p: int|
        0 <= s < ships.len() && 0 <= p < ships.last().positions.len() && covers(
            #[trigger] ships[s].positions,
            #[trigger] ships.last().positions[p].x,
            ships.last().positions[p].y,
        )
}

/// The keys that the placing phase accepts in the game `g`: the arrows and
/// `Tab` need a ship to act on, and the cells they move must stay within
/// `i32`; `Enter` on a full fleet needs the connection to send on.
pub open spec fn edit_defined(g: GameModel, input: Input) -> bool {
    let ships = g.my_grid.ships;
    let pos = ships.last().positions;
    match input {
        Input::Enter => ships.len() >= 5 && !(ships.len() > 1 && overlaps_placed(ships))
            ==> g.connected,
        Input::Up => ships.len() > 0 && pos.len() > 0 && pos[0].y > i32::MIN && (pos[0].y >= 1
            ==> can_shift(pos, 0, -1)),
        Input::Down => ships.len() > 0 && pos.len() > 0 && pos.last().y < i32::MAX && (
        pos.last().y < 9 ==> can_shift(pos, 0, 1)),
        Input::Left => ships.len() > 0 && pos.len() > 0 && pos[0].x > i32::MIN && (pos[0].x >= 1
            ==> can_shift(pos, -1, 0)),
        Input::Right => ships.len() > 0 && pos.len() > 0 && pos.last().x < i32::MAX && (
        pos.last().x < 9 ==> can_shift(pos, 1, 0)),
        Input::Tab => ships.len() > 0 && transpose_defined(ships.last(), 10, 10),
        Input::Other => true,
    }
}

/// The keys that the game `g` accepts.
pub open spec fn event_defined(g: GameModel, input: Input) -> bool {
    g.state == Game_State_Id::Edit ==> edit_defined(g, input)
}

/// What a key does while ships are placed. `Enter` places the next ship in
/// the first column, unless some ship covers a cell of the last one placed
/// (the last ship counts too, so a second ship is the last one placed);
/// after five ships it reports ready. The arrows move the last ship one
/// square if its leading cell stays on the board; `Tab` turns it.
pub open spec fn edit_result(g: GameModel, input: Input) -> (GameModel, Effect) {
    let ships = g.my_grid.ships;
    let last = ships.last();
    let pos = last.positions;
    match input {
        Input::Enter => if ships.len() > 1 && overlaps_placed(ships) {
            (g, Effect::Nothing)
        } else if ships.len() < 5 {
            (
                GameModel {
                    my_grid: GridModel {
                        ships: ships.push(fresh_ship(ship_length(ships.len() as int))),
                        ..g.my_grid
                    },
                    msg: ship_name(ships.len() as int),
                    ..g
                },
                Effect::Nothing,
            )
        } else {
            (GameModel { msg: "READY!"@, connected: false, ..g }, Effect::SendReady)
        },
        Input::Up => (if pos[0].y >= 1 {
            moved_last_ship(g, 0, -1)
        } else {
            g
        }, Effect::Nothing),
        Input::Down => (if pos.last().y < 9 {
            moved_last_ship(g, 0, 1)
        } else {
            g
        }, Effect::Nothing),
        Input::Left => (if pos[0].x >= 1 {
            moved_last_ship(g, -1, 0)
        } else {
            g
        }, Effect::Nothing),
        Input::Right => (if pos.last().x < 9 {
            moved_last_ship(g, 1, 0)
        } else {
            g
        }, Effect::Nothing),
        Input::Tab => {
            let (turned, outcome) = transpose_result(last, 10, 10);
            (
                with_last_ship(g, ShipModel { positions: turned, ..last }),
                if outcome == TransposeOutcome::NotStraight {
                    Effect::TransposeRefused
                } else {
                    Effect::Nothing
                },
            )
        },
        Input::Other => (g, Effect::Nothing),
    }
}

/// What a key does in the game `g`. Outside the placing phase only `Tab`
/// does anything: it keeps my turn, ends their turn in a game over, and
/// starts placing again after a game over.
pub open spec fn event_result(g: GameModel, input: Input) -> (GameModel, Effect) {
    match g.state {
        Game_State_Id::Edit => edit_result(g, input),
        Game_State_Id::MyTurn => (if input == Input::Tab {
            GameModel { state: Game_State_Id::MyTurn, ..g }
        } else {
            g
        }, Effect::Nothing),
        Game_State_Id::TheirTurn => (if input == Input::Tab {
            GameModel { state: Game_State_Id::GameOver, ..g }
        } else {
            g
        }, Effect::Nothing),
        Game_State_Id::GameOver => (if input == Input::Tab {
            GameModel { state: Game_State_Id::Edit, ..g }
        } else {
            g
        }, Effect::Nothing),
    }
}

/// The last ten entries of `h`.
pub open spec fn recent(h: Seq<Seq<char>>) -> Seq<Seq<char>> {
    if h.len() > 10 {
        h.subrange(h.len() - 10, h.len() as int)
    } else {
        h
    }
}


impl Game {
    pub fn new() -> (g: Game)
        ensures
            g@ == new_game(),
    {
        let g = Game {
            state: Game_State_Id::Edit,
            my_grid: Grid::new(),
            target_grid: Grid::new(),
            history: Vec::new(),
            msg: "Insert Coin".to_string(),
            ready_check: (false, false),
            connected: false,
        };
        assert(g@.history =~= Seq::<Seq<char>>::empty());
        g
    }

    /// Records how the connection to the opponent went, and turns the target
    /// grid's background black.
    pub fn start(&mut self, conn: Connection)
        ensures
            final(self)@ == started(old(self)@, conn),
    {
        match conn {
            Connection::Joined => {
                self.msg = "CONNECTED!".to_string();
                self.connected = true;
            },
            Connection::Hosted(addr) => {
                self.msg = addr;
                self.connected = true;
            },
            Connection::Failed(err) => {
                self.msg = err;
                self.connected = false;
            },
        }
        self.target_grid.color_bg = rgb(0, 0, 0);
    }

    /// A tick of the game loop.
    pub fn step(&mut self)
        ensures
            final(self)@ == step_result(old(self)@),
    {
        match self.state {
            Game_State_Id::Edit => self.edit_state_loop(),
            Game_State_Id::MyTurn => self.myturn_state_loop(),
            Game_State_Id::TheirTurn => self.theirturn_state_loop(),
            Game_State_Id::GameOver => self.gameover_state_loop(),
        }
    }

    /// Whether the game accepts `input` now.
    pub fn accepts(&self, input: Input) -> (r: bool)
        ensures
            r == event_defined(self@, input),
    {
        if self.state != Game_State_Id::Edit {
            return true;
        }
        let n = self.my_grid.ships.len();
        match input {
            Input::Enter => {
                if n >= 5 && !(n > 1 && self.last_ship_overlaps()) {
                    self.connected
                } else {
                    true
                }
            },
            Input::Up => {
                if n == 0 || self.my_grid.ships[n - 1].positions.len() == 0 {
                    return false;
                }
                let y = self.my_grid.ships[n - 1].positions[0].y;
                y > i32::MIN && (y < 1 || self.last_ship_can_shift(0, -1))
            },
            Input::Down => {
                if n == 0 || self.my_grid.ships[n - 1].positions.len() == 0 {
                    return false;
                }
                let np = self.my_grid.ships[n - 1].positions.len();
                let y = self.my_grid.ships[n - 1].positions[np - 1].y;
                y < i32::MAX && (y >= 9 || self.last_ship_can_shift(0, 1))
            },
            Input::Left => {
                if n == 0 || self.my_grid.ships[n - 1].positions.len() == 0 {
                    return false;
                }
                let x = self.my_grid.ships[n - 1].positions[0].x;
                x > i32::MIN && (x < 1 || self.last_ship_can_shift(-1, 0))
            },
            Input::Right => {
                if n == 0 || self.my_grid.ships[n - 1].positions.len() == 0 {
                    return false;
                }
                let np = self.my_grid.ships[n - 1].positions.len();
                let x = self.my_grid.ships[n - 1].positions[np - 1].x;
                x < i32::MAX && (x >= 9 || self.last_ship_can_shift(1, 0))
            },
            Input::Tab => n > 0 && self.my_grid.ships[n - 1].can_transpose(10, 10),
            Input::Other => true,
        }
    }

    /// Reacts to a key press.
    pub fn handle_event(&mut self, input: Input) -> (effect: Effect)
        requires
            event_defined(old(self)@, input),
        ensures
            (final(self)@, effect) == event_result(old(self)@, input),
    {
        match self.state {
            Game_State_Id::Edit => self.edit_state_handle_event(input),
            Game_State_Id::MyTurn => self.myturn_state_handle_event(input),
            Game_State_Id::TheirTurn => self.theirturn_state_handle_event(input),
            Game_State_Id::GameOver => self.gameover_state_handle_event(input),
        }
    }

    /// Records an event in the history, which keeps the last ten, and reacts
    /// to it as a key press.
    pub fn on_event(&mut self, line: String, input: Input) -> (effect: Effect)
        requires
            event_defined(old(self)@, input),
        ensures
            final(self)@.history == recent(old(self)@.history.push(line@)),
            (final(self)@, effect) == event_result(
                GameModel { history: recent(old(self)@.history.push(line@)), ..old(self)@ },
                input,
            ),
    {
        let ghost line_view = line@;
        self.history.push(line);
        let ghost full = self.history@;
        assert(full.map_values(|s: String| s@) =~= old(self)@.history.push(line_view));
        while self.history.len() > 10
            invariant
                self.history@.len() <= full.len(),
                self.history@ == full.subrange(full.len() - self.history@.len(), full.len() as int),
                full.len() > 10 ==> self.history@.len() >= 10,
                full.len() <= 10 ==> self.history@.len() == full.len(),
                self.state == old(self).state,
                self.my_grid@ == old(self).my_grid@,
                self.target_grid@ == old(self).target_grid@,
                self.msg@ == old(self).msg@,
                self.ready_check == old(self).ready_check,
                self.connected == old(self).connected,
            decreases self.history.len(),
        {
            self.history.remove(0);
            assert(self.history@ =~= full.subrange(
                full.len() - self.history@.len(),
                full.len() as int,
            ));
        }
        assert(self@.history =~= recent(old(self)@.history.push(line_view)));
        self.handle_event(input)
    }

    /// The grid to draw, or `None` where the game is over.
    pub fn drawn_grid(&self) -> (r: Option<&Grid>)
        ensures
            r == match self.state {
                Game_State_Id::Edit => Some(&self.my_grid),
                Game_State_Id::MyTurn => Some(&self.target_grid),
                Game_State_Id::TheirTurn => Some(&self.my_grid),
                Game_State_Id::GameOver => None,
            },
    {
        match self.state {
            Game_State_Id::Edit => Some(&self.my_grid),
            Game_State_Id::MyTurn => Some(&self.target_grid),
            Game_State_Id::TheirTurn => Some(&self.my_grid),
            Game_State_Id::GameOver => None,
        }
    }

    /// Whether some ship covers a cell of the last ship placed.
    fn last_ship_overlaps(&self) -> (r: bool)
        ensures
            r == overlaps_placed(self@.my_grid.ships),
    {
        let ns = self.my_grid.ships.len();
        if ns == 0 {
            return false;
        }
        let ghost ships = self@.my_grid.ships;
        let ghost last = ships.last().positions;
        assert(last == self.my_grid.ships@[ns - 1].positions@);
        for s in 0..ns
            invariant
                ns == self.my_grid.ships@.len(),
                ns > 0,
                ships == self@.my_grid.ships,
                last == ships.last().positions,
                last == self.my_grid.ships@[ns - 1].positions@,
                forall|j: int, k: int|
                    0 <= j < s && 0 <= k < last.len() ==> !covers(
                        #[trigger] ships[j].positions,
                        #[trigger] last[k].x,
                        last[k].y,
                    ),
        {
            let np = self.my_grid.ships[ns - 1].positions.len();
            for p in 0..np
                invariant
                    s < ns,
                    ns == self.my_grid.ships@.len(),
                    ships == self@.my_grid.ships,
                    last == ships.last().positions,
                    last == self.my_grid.ships@[ns - 1].positions@,
                    np == last.len(),
                    forall|j: int, k: int|
                        0 <= j < s && 0 <= k < last.len() ==> !covers(
                            #[trigger] ships[j].positions,
                            #[trigger] last[k].x,
                            last[k].y,
                        ),
                    forall|k: int|
                        0 <= k < p ==> !covers(ships[s as int].positions, #[trigger] last[k].x, last[k].y),
            {
                if self.my_grid.ships[s].bounds_check_fail(
                    self.my_grid.ships[ns - 1].positions[p].x,
                    self.my_grid.ships[ns - 1].positions[p].y,
                ) {
                    assert(ships[s as int].positions == self.my_grid.ships@[s as int].positions@);
                    assert(covers(ships[s as int].positions, last[p as int].x, last[p as int].y));
                    return true;
                }
                assert(ships[s as int].positions == self.my_grid.ships@[s as int].positions@);
            }
        }
        false
    }

    /// Whether every cell of the last ship can move `dx` columns and `dy` rows
    /// within `i32`.
    fn last_ship_can_shift(&self, dx: i32, dy: i32) -> (r: bool)
        requires
            self.my_grid.ships.len() > 0,
        ensures
            r == can_shift(self@.my_grid.ships.last().positions, dx as int, dy as int),
    {
        let n = self.my_grid.ships.len();
        let ghost pos = self@.my_grid.ships.last().positions;
        assert(pos == self.my_grid.ships@[n - 1].positions@);
        let np = self.my_grid.ships[n - 1].positions.len();
        for p in 0..np
            invariant
                n == self.my_grid.ships@.len(),
                n > 0,
                pos == self.my_grid.ships@[n - 1].positions@,
                np == pos.len(),
                forall|i: int|
                    #![trigger pos[i]]
                    0 <= i < p ==> fits_i32(pos[i].x + dx) && fits_i32(pos[i].y + dy),
        {
            let h = &self.my_grid.ships[n - 1].positions[p];
            let x = h.x as i64 + dx as i64;
            let y = h.y as i64 + dy as i64;
            if x < i32::MIN as i64 || x > i32::MAX as i64 || y < i32::MIN as i64 || y > i32::MAX as i64 {
                return false;
            }
        }
        true
    }

    /// Moves every cell of the last ship `dx` columns and `dy` rows.
    fn move_last_ship(&mut self, dx: i32, dy: i32)
        requires
            old(self).my_grid.ships.len() > 0,
            can_shift(old(self)@.my_grid.ships.last().positions, dx as int, dy as int),
        ensures
            final(self)@ == moved_last_ship(old(self)@, dx as int, dy as int),
    {
        let ghost old_ships = self@.my_grid.ships;
        let mut ship = self.my_grid.ships.pop().unwrap();
        let ghost pos = ship.positions@;
        assert(pos == old_ships.last().positions);
        let np = ship.positions.len();
        #[verifier::loop_isolation(false)]
        for p in 0..np
            invariant
                np == pos.len(),
                ship.len == old_ships.last().len,
                ship.is_sunk == old_ships.last().is_sunk,
                ship.positions@.len() == pos.len(),
                forall|i: int|
                    0 <= i < pos.len() ==> #[trigger] ship.positions@[i] == if i < p {
                        shifted(pos, dx as int, dy as int)[i]
                    } else {
                        pos[i]
                    },
        {
            assert(fits_i32(pos[p as int].x + dx) && fits_i32(pos[p as int].y + dy));
            if dx != 0 {
                ship.get_position_mut(p).unwrap().x_mod(dx);
            }
            if dy != 0 {
                ship.get_position_mut(p).unwrap().y_mod(dy);
            }
        }
        assert(ship.positions@ =~= shifted(pos, dx as int, dy as int));
        self.my_grid.ships.push(ship);
        assert(self@.my_grid.ships =~= moved_last_ship(old(self)@, dx as int, dy as int).my_grid.ships);
    }

    /// The placing phase's reaction to a key press.
    fn edit_state_handle_event(&mut self, input: Input) -> (effect: Effect)
        requires
            old(self).state == Game_State_Id::Edit,
            edit_defined(old(self)@, input),
        ensures
            (final(self)@, effect) == edit_result(old(self)@, input),
    {
        match input {
            Input::Enter => {
                if self.my_grid.ships.len() > 1 && self.last_ship_overlaps() {
                    return Effect::Nothing;
                }
                let ghost ships = self@.my_grid.ships;
                match self.my_grid.ships.len() {
                    0 => {
                        let cells = vec![Hit::new(0, 0, false), Hit::new(0, 1, false)];
                        assert(cells@ =~= fresh_ship(2).positions);
                        self.my_grid.ships.push(Ship::new(2, cells, false));
                        self.msg = "Destroyer".to_string();
                        assert(self@.my_grid.ships =~= ships.push(fresh_ship(2)));
                    },
                    1 => {
                        let cells = vec![
                            Hit::new(0, 0, false),
                            Hit::new(0, 1, false),
                            Hit::new(0, 2, false),
                        ];
                        assert(cells@ =~= fresh_ship(3).positions);
                        self.my_grid.ships.push(Ship::new(3, cells, false));
                        self.msg = "Submarine".to_string();
                        assert(self@.my_grid.ships =~= ships.push(fresh_ship(3)));
                    },
                    2 => {
                        let cells = vec![
                            Hit::new(0, 0, false),
                            Hit::new(0, 1, false),
                            Hit::new(0, 2, false),
                        ];
                        assert(cells@ =~= fresh_ship(3).positions);
                        self.my_grid.ships.push(Ship::new(3, cells, false));
                        self.msg = "Cruiser".to_string();
                        assert(self@.my_grid.ships =~= ships.push(fresh_ship(3)));
                    },
                    3 => {
                        let cells = vec![
                            Hit::new(0, 0, false),
                            Hit::new(0, 1, false),
                            Hit::new(0, 2, false),
                            Hit::new(0, 3, false),
                        ];
                        assert(cells@ =~= fresh_ship(4).positions);
                        self.my_grid.ships.push(Ship::new(4, cells, false));
                        self.msg = "Battleship".to_string();
                        assert(self@.my_grid.ships =~= ships.push(fresh_ship(4)));
                    },
                    4 => {
                        let cells = vec![
                            Hit::new(0, 0, false),
                            Hit::new(0, 1, false),
                            Hit::new(0, 2, false),
                            Hit::new(0, 3, false),
                            Hit::new(0, 4, false),
                        ];
                        assert(cells@ =~= fresh_ship(5).positions);
                        self.my_grid.ships.push(Ship::new(5, cells, false));
                        self.msg = "Carrier".to_string();
                        assert(self@.my_grid.ships =~= ships.push(fresh_ship(5)));
                    },
                    _ => {
                        self.connected = false;
                        self.msg = "READY!".to_string();
                        return Effect::SendReady;
                    },
                }
                Effect::Nothing
            },
            Input::Up => {
                let n = self.my_grid.ships.len();
                if self.my_grid.ships[n - 1].positions[0].y - 1 >= 0 {
                    self.move_last_ship(0, -1);
                }
                Effect::Nothing
            },
            Input::Down => {
                let n = self.my_grid.ships.len();
                let np = self.my_grid.ships[n - 1].positions.len();
                if self.my_grid.ships[n - 1].positions[np - 1].y + 1 < 10 {
                    self.move_last_ship(0, 1);
                }
                Effect::Nothing
            },
            Input::Left => {
                let n = self.my_grid.ships.len();
                if self.my_grid.ships[n - 1].positions[0].x - 1 >= 0 {
                    self.move_last_ship(-1, 0);
                }
                Effect::Nothing
            },
            Input::Right => {
                let n = self.my_grid.ships.len();
                let np = self.my_grid.ships[n - 1].positions.len();
                if self.my_grid.ships[n - 1].positions[np - 1].x + 1 < 10 {
                    self.move_last_ship(1, 0);
                }
                Effect::Nothing
            },
            Input::Tab => {
                let ghost old_ships = self@.my_grid.ships;
                let mut ship = self.my_grid.ships.pop().unwrap();
                assert(ship@ == old_ships.last());
                let outcome = ship.transpose(0, 0, 10, 10);
                self.my_grid.ships.push(ship);
                assert(self@.my_grid.ships =~= old_ships.update(
                    old_ships.len() - 1,
                    ShipModel { positions: ship@.positions, ..old_ships.last() },
                ));
                if outcome == TransposeOutcome::NotStraight {
                    Effect::TransposeRefused
                } else {
                    Effect::Nothing
                }
            },
            Input::Other => Effect::Nothing,
        }
    }

    fn edit_state_loop(&mut self)
        requires
            old(self).state == Game_State_Id::Edit,
        ensures
            final(self)@ == step_result(old(self)@),
    {
        if self.ready_check.0 == true && self.ready_check.1 == true {
            self.state = Game_State_Id::MyTurn;
        }
    }

    fn myturn_state_loop(&mut self)
        requires
            old(self).state == Game_State_Id::MyTurn,
        ensures
            final(self)@ == step_result(old(self)@),
    {
    }

    fn theirturn_state_loop(&mut self)
        requires
            old(self).state == Game_State_Id::TheirTurn,
        ensures
            final(self)@ == step_result(old(self)@),
    {
    }

    fn gameover_state_loop(&mut self)
        requires
            old(self).state == Game_State_Id::GameOver,
        ensures
            final(self)@ == step_result(old(self)@),
    {
    }

    fn myturn_state_handle_event(&mut self, input: Input) -> (effect: Effect)
        requires
            old(self).state == Game_State_Id::MyTurn,
        ensures
            (final(self)@, effect) == event_result(old(self)@, input),
    {
        match input {
            Input::Tab => {
                self.state = Game_State_Id::MyTurn;
            },
            _ => {},
        }
        Effect::Nothing
    }

    fn theirturn_state_handle_event(&mut self, input: Input) -> (effect: Effect)
        requires
            old(self).state == Game_State_Id::TheirTurn,
        ensures
            (final(self)@, effect) == event_result(old(self)@, input),
    {
        match input {
            Input::Tab => {
                self.state = Game_State_Id::GameOver;
            },
            _ => {},
        }
        Effect::Nothing
    }

    fn gameover_state_handle_event(&mut self, input: Input) -> (effect: Effect)
        requires
            old(self).state == Game_State_Id::GameOver,
        ensures
            (final(self)@, effect) == event_result(old(self)@, input),
    {
        match input {
            Input::Tab => {
                self.state = Game_State_Id::Edit;
            },
            _ => {},
        }
        Effect::Nothing
    }
}

} // verus!
