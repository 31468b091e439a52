//! Properties that hold across the operations of the game.
use vstd::prelude::*;
use crate::game_grid;
use crate::game::{
    new_game, step_result, can_shift, event_defined, event_result, fresh_ship, moved_last_ship,
    overlaps_placed, recent, shifted, ship_length, Effect, GameModel, Input,
};
use crate::game_obj::{
    shot_at, back_color_of, fleet_covers, GridModel, at, covers, fits_i32, transpose_defined, transpose_result, turned_horizontal, turned_vertical,
    Game_State_Id, Hit, ShipModel, TransposeOutcome,
};

verus! {

/// Whether the cell lies on the ten by ten board.
pub open spec fn on_board(h: Hit) -> bool {
    0 <= h.x < 10 && 0 <= h.y < 10
}

/// Whether the cells `pos` run on from the first one, one square apart: to
/// the right where `horizontal`, downwards otherwise.
pub open spec fn is_line(pos: Seq<Hit>, horizontal: bool) -> bool {
    forall|i: int|
        #![trigger pos[i]]
        0 <= i < pos.len() ==> pos[i].x == pos[0].x + (if horizontal {
            i
        } else {
            0
        }) && pos[i].y == pos[0].y + (if horizontal {
            0
        } else {
            i
        })
}

/// Whether the ship is a straight line of as many cells as its length, lying
/// on the board.
pub open spec fn laid_out(s: ShipModel) -> bool {
    &&& s.positions.len() >= 1
    &&& s.len == s.positions.len()
    &&& is_line(s.positions, true) || is_line(s.positions, false)
    &&& forall|i: int| 0 <= i < s.positions.len() ==> on_board(#[trigger] s.positions[i])
}

/// Whether every ship on the player's own grid is laid out.
pub open spec fn fleet_laid_out(g: GameModel) -> bool {
    forall|k: int| 0 <= k < g.my_grid.ships.len() ==> laid_out(#[trigger] g.my_grid.ships[k])
}

/// A new game has no ship, so its fleet is laid out.
pub proof fn new_game_is_laid_out()
    ensures
        fleet_laid_out(new_game()),
{
}

/// The first and last cells of a line are its extremes in both coordinates.
proof fn line_extremes(pos: Seq<Hit>, horizontal: bool)
    requires
        pos.len() >= 1,
        is_line(pos, horizontal),
    ensures
        forall|i: int|
            #![trigger pos[i]]
            0 <= i < pos.len() ==> pos[0].x <= pos[i].x <= pos.last().x && pos[0].y <= pos[i].y
                <= pos.last().y,
{
    assert(pos.last() == pos[pos.len() - 1]);
}

/// Turning a straight ship twice, where the grid leaves room both ways, puts
/// every cell back where it was.
pub proof fn transpose_twice_restores(s: ShipModel, max_x: i32, max_y: i32)
    requires
        s.positions.len() >= 1,
        s.len == s.positions.len(),
        s.len <= i32::MAX,
        is_line(s.positions, true) || is_line(s.positions, false),
        s.positions[0].x + s.len <= max_x,
        s.positions[0].y + s.len <= max_y,
    ensures
        transpose_defined(s, max_x, max_y),
        transpose_result(s, max_x, max_y).1 == TransposeOutcome::Turned,
        transpose_defined(
            ShipModel { positions: transpose_result(s, max_x, max_y).0, ..s },
            max_x,
            max_y,
        ),
        transpose_result(
            ShipModel { positions: transpose_result(s, max_x, max_y).0, ..s },
            max_x,
            max_y,
        ) == (s.positions, TransposeOutcome::Turned),
{
    let pos = s.positions;
    let n = pos.len();
    let x0 = pos[0].x;
    let y0 = pos[0].y;
    assert(pos.last() == pos[n - 1]);
    if is_line(pos, false) {
        // A column (or a single cell) turns into a row and back.
        assert(pos.last().x == x0);
        let q = turned_horizontal(pos, s.len);
        assert forall|i: int| 0 <= i < n implies #[trigger] q[i] == (Hit {
            x: (x0 + i) as i32,
            y: y0,
            is_hit: pos[i].is_hit,
        }) by {
            assert(pos[i].x == x0);
        }
        let t = ShipModel { positions: q, ..s };
        assert(q.last() == q[n - 1]);
        if n == 1 {
            assert(turned_horizontal(q, s.len) =~= pos);
        } else {
            assert(q.last().x != q[0].x);
            assert(turned_vertical(q, s.len) =~= pos);
        }
    } else {
        // A row of two or more cells turns into a column and back.
        assert(is_line(pos, true));
        assert(n >= 2) by {
            if n == 1 {
                assert(is_line(pos, false));
            }
        }
        assert(pos.last().x != x0);
        assert(pos.last().y == y0);
        let q = turned_vertical(pos, s.len);
        assert forall|i: int| 0 <= i < n implies #[trigger] q[i] == (Hit {
            x: x0,
            y: (y0 + i) as i32,
            is_hit: pos[i].is_hit,
        }) by {
            assert(pos[i].y == y0);
        }
        assert(q.last() == q[n - 1]);
        assert(q.last().x == q[0].x);
        assert(turned_horizontal(q, s.len) =~= pos);
    }
}

/// A key that moves the last ship and the key that moves it back: after
/// `Up` then `Down`, where the ship can go up and come back down on the
/// board, the game is as it was.
pub proof fn up_then_down_restores(g: GameModel)
    requires
        g.state == Game_State_Id::Edit,
        event_defined(g, Input::Up),
        g.my_grid.ships.last().positions[0].y >= 1,
        g.my_grid.ships.last().positions.last().y < 10,
    ensures
        event_defined(event_result(g, Input::Up).0, Input::Down),
        event_result(event_result(g, Input::Up).0, Input::Down) == (g, Effect::Nothing),
{
    let ships = g.my_grid.ships;
    let pos = ships.last().positions;
    let g1 = moved_last_ship(g, 0, -1);
    let pos1 = shifted(pos, 0, -1);
    assert(g1.my_grid.ships.last().positions == pos1);
    assert(pos1.last() == pos1[pos1.len() - 1]);
    assert(pos.last() == pos[pos.len() - 1]);
    assert(can_shift(pos1, 0, 1)) by {
        assert forall|i: int| 0 <= i < pos1.len() implies fits_i32(#[trigger] pos1[i].x + 0)
            && fits_i32(pos1[i].y + 1) by {
            assert(fits_i32(pos[i].y - 1));
        }
    }
    assert(shifted(pos1, 0, 1) =~= pos) by {
        assert forall|i: int| 0 <= i < pos.len() implies #[trigger] shifted(pos1, 0, 1)[i]
            == pos[i] by {
            assert(fits_i32(pos[i].y - 1));
        }
    }
    assert(moved_last_ship(g1, 0, 1).my_grid.ships =~= ships);
}

/// After `Left` then `Right`, where the ship can go left and come back right
/// on the board, the game is as it was.
pub proof fn left_then_right_restores(g: GameModel)
    requires
        g.state == Game_State_Id::Edit,
        event_defined(g, Input::Left),
        g.my_grid.ships.last().positions[0].x >= 1,
        g.my_grid.ships.last().positions.last().x < 10,
    ensures
        event_defined(event_result(g, Input::Left).0, Input::Right),
        event_result(event_result(g, Input::Left).0, Input::Right) == (g, Effect::Nothing),
{
    let ships = g.my_grid.ships;
    let pos = ships.last().positions;
    let g1 = moved_last_ship(g, -1, 0);
    let pos1 = shifted(pos, -1, 0);
    assert(g1.my_grid.ships.last().positions == pos1);
    assert(pos1.last() == pos1[pos1.len() - 1]);
    assert(pos.last() == pos[pos.len() - 1]);
    assert(can_shift(pos1, 1, 0)) by {
        assert forall|i: int| 0 <= i < pos1.len() implies fits_i32(#[trigger] pos1[i].x + 1)
            && fits_i32(pos1[i].y + 0) by {
            assert(fits_i32(pos[i].x - 1));
        }
    }
    assert(shifted(pos1, 1, 0) =~= pos) by {
        assert forall|i: int| 0 <= i < pos.len() implies #[trigger] shifted(pos1, 1, 0)[i]
            == pos[i] by {
            assert(fits_i32(pos[i].x - 1));
        }
    }
    assert(moved_last_ship(g1, 1, 0).my_grid.ships =~= ships);
}

/// The last ship placed always covers its own first cell, so once two ships
/// are laid out `Enter` places no more and changes nothing.
pub proof fn enter_ignored_after_two_ships(g: GameModel)
    requires
        g.state == Game_State_Id::Edit,
        fleet_laid_out(g),
        g.my_grid.ships.len() >= 2,
    ensures
        event_defined(g, Input::Enter),
        event_result(g, Input::Enter) == (g, Effect::Nothing),
{
    let ships = g.my_grid.ships;
    let n = ships.len();
    assert(laid_out(ships[n - 1]));
    let last = ships.last();
    assert(at(last.positions[0], last.positions[0].x, last.positions[0].y));
    assert(covers(ships[n - 1].positions, last.positions[0].x, last.positions[0].y));
    assert(overlaps_placed(ships));
}

/// A laid-out ship is defined for `transpose` on the board, and stays laid
/// out when turned.
proof fn laid_out_ship_turns(s: ShipModel)
    requires
        laid_out(s),
    ensures
        transpose_defined(s, 10, 10),
        laid_out(ShipModel { positions: transpose_result(s, 10, 10).0, ..s }),
{
    let pos = s.positions;
    let n = pos.len();
    let x0 = pos[0].x;
    let y0 = pos[0].y;
    assert(pos.last() == pos[n - 1]);
    assert(on_board(pos[0]) && on_board(pos[n - 1]));
    if is_line(pos, false) {
        assert(pos[n - 1].y == y0 + n - 1);
    } else {
        assert(pos[n - 1].x == x0 + n - 1);
    }
    assert(n <= 10);
    if pos.last().x == x0 {
        // The ship is a column (or a single cell).
        assert forall|i: int| 0 <= i < n implies #[trigger] pos[i].x == x0 by {
            if is_line(pos, true) {
                assert(pos[n - 1].x == x0 + n - 1);
                assert(n == 1);
            }
        }
        if x0 + n <= 10 {
            let q = turned_horizontal(pos, s.len);
            assert forall|i: int| 0 <= i < n implies #[trigger] q[i] == (Hit {
                x: (x0 + i) as i32,
                y: y0,
                is_hit: pos[i].is_hit,
            }) by {}
            assert(is_line(q, true));
            assert forall|i: int| 0 <= i < n implies on_board(#[trigger] q[i]) by {}
        }
    } else {
        // The ship is a row of two or more cells.
        assert(is_line(pos, true)) by {
            if is_line(pos, false) {
                assert(pos[n - 1].x == x0);
            }
        }
        assert(pos.last().y == y0);
        if y0 + n <= 10 {
            let q = turned_vertical(pos, s.len);
            assert forall|i: int| 0 <= i < n implies #[trigger] q[i] == (Hit {
                x: x0,
                y: (y0 + i) as i32,
                is_hit: pos[i].is_hit,
            }) by {}
            assert(is_line(q, false));
            assert forall|i: int| 0 <= i < n implies on_board(#[trigger] q[i]) by {}
        }
    }
}

/// A laid-out ship moved by a step whose leading cell stays on the board
/// stays laid out.
proof fn laid_out_ship_moves(s: ShipModel, dx: int, dy: int)
    requires
        laid_out(s),
        -1 <= dx <= 1,
        -1 <= dy <= 1,
        0 <= s.positions[0].x + dx,
        s.positions.last().x + dx < 10,
        0 <= s.positions[0].y + dy,
        s.positions.last().y + dy < 10,
    ensures
        can_shift(s.positions, dx, dy),
        laid_out(ShipModel { positions: shifted(s.positions, dx, dy), ..s }),
{
    let pos = s.positions;
    let q = shifted(pos, dx, dy);
    if is_line(pos, true) {
        line_extremes(pos, true);
    } else {
        line_extremes(pos, false);
    }
    assert forall|i: int| 0 <= i < pos.len() implies #[trigger] q[i] == (Hit {
        x: (pos[i].x + dx) as i32,
        y: (pos[i].y + dy) as i32,
        is_hit: pos[i].is_hit,
    }) && on_board(q[i]) by {
        assert(on_board(pos[i]));
    }
    if is_line(pos, true) {
        assert(is_line(q, true));
    } else {
        assert(is_line(q, false));
    }
}

/// On a grid whose ships are laid out, the placing phase accepts every key
/// once a ship is placed, and `Enter` even before.
pub proof fn laid_out_keys_accepted(g: GameModel, input: Input)
    requires
        fleet_laid_out(g),
        g.my_grid.ships.len() > 0 || input == Input::Enter || input == Input::Other,
    ensures
        event_defined(g, input),
{
    let ships = g.my_grid.ships;
    let n = ships.len();
    if g.state == Game_State_Id::Edit {
        if n >= 2 {
            enter_ignored_after_two_ships(g);
        }
        if n > 0 {
            let last = ships.last();
            assert(laid_out(ships[n - 1]));
            let pos = last.positions;
            assert(pos.last() == pos[pos.len() - 1]);
            assert(on_board(pos[0]) && on_board(pos.last()));
            match input {
                Input::Up => {
                    if pos[0].y >= 1 {
                        laid_out_ship_moves(last, 0, -1);
                    }
                },
                Input::Down => {
                    if pos.last().y < 9 {
                        laid_out_ship_moves(last, 0, 1);
                    }
                },
                Input::Left => {
                    if pos[0].x >= 1 {
                        laid_out_ship_moves(last, -1, 0);
                    }
                },
                Input::Right => {
                    if pos.last().x < 9 {
                        laid_out_ship_moves(last, 1, 0);
                    }
                },
                Input::Tab => {
                    laid_out_ship_turns(last);
                },
                _ => {},
            }
        }
    }
}

/// Every key the game accepts keeps the ships of the player's own grid laid
/// out: placing, moving and turning never leave a ship crooked or off the
/// board.
pub proof fn keys_keep_fleet_laid_out(g: GameModel, input: Input)
    requires
        fleet_laid_out(g),
        event_defined(g, input),
    ensures
        fleet_laid_out(event_result(g, input).0),
{
    let ships = g.my_grid.ships;
    let n = ships.len();
    if g.state == Game_State_Id::Edit {
        let last = ships.last();
        let pos = last.positions;
        let after = event_result(g, input).0.my_grid.ships;
        if input == Input::Enter {
            if n >= 2 {
                enter_ignored_after_two_ships(g);
            } else {
                let f = fresh_ship(ship_length(n as int));
                assert(is_line(f.positions, false));
                assert(laid_out(f));
                assert forall|k: int| 0 <= k < after.len() implies laid_out(#[trigger] after[k]) by {
                    if k < n {
                        assert(after[k] == ships[k]);
                    }
                }
            }
        } else if input != Input::Other {
            assert(laid_out(ships[n - 1]));
            assert(pos.last() == pos[pos.len() - 1]);
            assert(on_board(pos[0]) && on_board(pos.last()));
            let moved = match input {
                Input::Up => pos[0].y >= 1,
                Input::Down => pos.last().y < 9,
                Input::Left => pos[0].x >= 1,
                Input::Right => pos.last().x < 9,
                _ => true,
            };
            if moved {
                match input {
                    Input::Up => laid_out_ship_moves(last, 0, -1),
                    Input::Down => laid_out_ship_moves(last, 0, 1),
                    Input::Left => laid_out_ship_moves(last, -1, 0),
                    Input::Right => laid_out_ship_moves(last, 1, 0),
                    _ => laid_out_ship_turns(last),
                }
                assert forall|k: int| 0 <= k < after.len() implies laid_out(#[trigger] after[k]) by {
                    if k < n - 1 {
                        assert(after[k] == ships[k]);
                    }
                }
            }
        }
    }
}

/// The history keeps the last ten events, newest last.
pub proof fn history_keeps_last_ten(h: Seq<Seq<char>>, line: Seq<char>)
    ensures
        recent(h.push(line)).len() == if h.len() + 1 > 10 {
            10
        } else {
            h.len() + 1
        },
        recent(h.push(line)).last() == line,
        forall|i: int|
            0 <= i < recent(h.push(line)).len() ==> #[trigger] recent(h.push(line))[i] == h.push(
                line,
            )[h.len() + 1 - recent(h.push(line)).len() + i],
{
}

/// Key presses and ticks leave the readiness flags as they are: only the
/// opponent's side can set them.
pub proof fn keys_keep_readiness(g: GameModel, input: Input)
    ensures
        event_result(g, input).0.ready_check == g.ready_check,
        event_result(g, input).0.history == g.history,
{
}


/// A tick leaves the placing phase for my turn exactly when both readiness
/// flags are set; in every other case it changes nothing.
pub proof fn tick_needs_both_ready(g: GameModel)
    ensures
        g.state == Game_State_Id::Edit && g.ready_check.0 && g.ready_check.1 ==> step_result(g)
            == (GameModel { state: Game_State_Id::MyTurn, ..g }),
        !(g.state == Game_State_Id::Edit && g.ready_check.0 && g.ready_check.1) ==> step_result(g)
            == g,
{
}

/// Outside the placing phase only `Tab` does anything: every other key leaves
/// the game as it is. `Tab` keeps my turn, ends their turn in a game over,
/// and leads from a game over back to placing ships.
pub proof fn only_tab_acts_outside_placing(g: GameModel, input: Input)
    requires
        g.state != Game_State_Id::Edit,
    ensures
        input != Input::Tab ==> event_result(g, input) == (g, Effect::Nothing),
        input == Input::Tab && g.state == Game_State_Id::MyTurn ==> event_result(g, input) == (g,
            Effect::Nothing),
        input == Input::Tab && g.state == Game_State_Id::TheirTurn ==> event_result(g, input) == (
        GameModel { state: Game_State_Id::GameOver, ..g }, Effect::Nothing),
        input == Input::Tab && g.state == Game_State_Id::GameOver ==> event_result(g, input) == (
        GameModel { state: Game_State_Id::Edit, ..g }, Effect::Nothing),
{
}

/// A shot is reported at a square only where some shot stands at exactly
/// that square, with the outcome of the first one there; where no shot
/// stands at the square, none is reported.
pub proof fn shot_reported_only_where_fired(hits: Seq<Hit>, x: i32, y: i32)
    ensures
        shot_at(hits, x, y) is None <==> forall|i: int|
            0 <= i < hits.len() ==> !(#[trigger] hits[i].x == x && hits[i].y == y),
        shot_at(hits, x, y) matches Some(b) ==> exists|i: int|
            0 <= i < hits.len() && #[trigger] hits[i].x == x && hits[i].y == y && hits[i].is_hit == b
                && forall|j: int| 0 <= j < i ==> !(#[trigger] hits[j].x == x && hits[j].y == y),
    decreases hits.len(),
{
    if hits.len() > 0 {
        let tail = hits.drop_first();
        shot_reported_only_where_fired(tail, x, y);
        if hits[0].x == x && hits[0].y == y {
            assert(hits[0].x == x);
        } else {
            assert forall|i: int| 0 < i < hits.len() implies hits[i] == tail[i - 1] by {}
            if shot_at(tail, x, y) is None {
                assert forall|i: int| 0 <= i < hits.len() implies !(#[trigger] hits[i].x == x
                    && hits[i].y == y) by {
                    if i > 0 {
                        assert(hits[i] == tail[i - 1]);
                        assert(!(tail[i - 1].x == x && tail[i - 1].y == y));
                    }
                }
            } else {
                let b = shot_at(tail, x, y)->0;
                let k = choose|k: int|
                    0 <= k < tail.len() && #[trigger] tail[k].x == x && tail[k].y == y
                        && tail[k].is_hit == b && forall|j: int|
                        0 <= j < k ==> !(#[trigger] tail[j].x == x && tail[j].y == y);
                assert(hits[k + 1] == tail[k]);
                assert forall|j: int| 0 <= j < k + 1 implies !(#[trigger] hits[j].x == x
                    && hits[j].y == y) by {
                    if j > 0 {
                        assert(hits[j] == tail[j - 1]);
                        assert(!(tail[j - 1].x == x && tail[j - 1].y == y));
                    }
                }
                assert(hits[k + 1].x == x);
                assert(!(tail[k].x == x && tail[k].y == y) ==> false);
            }
        }
    }
}

/// On the simple board too, a shot is reported at a square only where some
/// shot stands at exactly that square, with the outcome of the first one
/// there; where no shot stands at the square, none is reported.
pub proof fn board_shot_reported_only_where_fired(hits: Seq<game_grid::Hit>, x: u8, y: u8)
    ensures
        game_grid::shot_at(hits, x, y) is None <==> forall|i: int|
            0 <= i < hits.len() ==> !(#[trigger] hits[i].x == x && hits[i].y == y),
        game_grid::shot_at(hits, x, y) matches Some(b) ==> exists|i: int|
            0 <= i < hits.len() && #[trigger] hits[i].x == x && hits[i].y == y && hits[i].is_hit == b
                && forall|j: int| 0 <= j < i ==> !(#[trigger] hits[j].x == x && hits[j].y == y),
    decreases hits.len(),
{
    if hits.len() > 0 {
        let tail = hits.drop_first();
        board_shot_reported_only_where_fired(tail, x, y);
        if hits[0].x == x && hits[0].y == y {
            assert(hits[0].x == x);
        } else {
            if game_grid::shot_at(tail, x, y) is None {
                assert forall|i: int| 0 <= i < hits.len() implies !(#[trigger] hits[i].x == x
                    && hits[i].y == y) by {
                    if i > 0 {
                        assert(hits[i] == tail[i - 1]);
                        assert(!(tail[i - 1].x == x && tail[i - 1].y == y));
                    }
                }
            } else {
                let b = game_grid::shot_at(tail, x, y)->0;
                let k = choose|k: int|
                    0 <= k < tail.len() && #[trigger] tail[k].x == x && tail[k].y == y
                        && tail[k].is_hit == b && forall|j: int|
                        0 <= j < k ==> !(#[trigger] tail[j].x == x && tail[j].y == y);
                assert(hits[k + 1] == tail[k]);
                assert forall|j: int| 0 <= j < k + 1 implies !(#[trigger] hits[j].x == x
                    && hits[j].y == y) by {
                    if j > 0 {
                        assert(hits[j] == tail[j - 1]);
                        assert(!(tail[j - 1].x == x && tail[j - 1].y == y));
                    }
                }
                assert(hits[k + 1].x == x);
            }
        }
    }
}

/// Where the cursor is not shown at a square, its background is the ship
/// colour if a cell of some ship stands at exactly that square, and the
/// grid's background otherwise.
pub proof fn ship_colour_only_under_ships(g: GridModel, x: i32, y: i32)
    requires
        !(g.cursor.is_hit && g.cursor.x == x && g.cursor.y == y),
    ensures
        (exists|s: int, i: int|
            0 <= s < g.ships.len() && 0 <= i < g.ships[s].positions.len() && #[trigger] g.ships[s].positions[i].x
                == x && g.ships[s].positions[i].y == y) ==> back_color_of(g, x, y) == g.color_ship,
        (forall|s: int, i: int|
            0 <= s < g.ships.len() && 0 <= i < g.ships[s].positions.len() ==> !(
            #[trigger] g.ships[s].positions[i].x == x && g.ships[s].positions[i].y == y))
            ==> back_color_of(g, x, y) == g.color_bg,
{
    if exists|s: int, i: int|
        0 <= s < g.ships.len() && 0 <= i < g.ships[s].positions.len() && #[trigger] g.ships[s].positions[i].x
            == x && g.ships[s].positions[i].y == y {
        let (s, i) = choose|s: int, i: int|
            0 <= s < g.ships.len() && 0 <= i < g.ships[s].positions.len() && #[trigger] g.ships[s].positions[i].x
                == x && g.ships[s].positions[i].y == y;
        assert(at(g.ships[s].positions[i], x, y));
        assert(covers(g.ships[s].positions, x, y));
        assert(fleet_covers(g.ships, x, y));
    }
    if forall|s: int, i: int|
        0 <= s < g.ships.len() && 0 <= i < g.ships[s].positions.len() ==> !(
        #[trigger] g.ships[s].positions[i].x == x && g.ships[s].positions[i].y == y) {
        assert(!fleet_covers(g.ships, x, y)) by {
            if fleet_covers(g.ships, x, y) {
                let s = choose|s: int| 0 <= s < g.ships.len() && covers(#[trigger] g.ships[s].positions, x, y);
                let i = choose|i: int| 0 <= i < g.ships[s].positions.len() && at(#[trigger] g.ships[s].positions[i], x, y);
                assert(g.ships[s].positions[i].x == x);
            }
        }
    }
}

} // verus!
