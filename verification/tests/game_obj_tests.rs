use battleship::game_obj::{Grid, Hit, Ship, TransposeOutcome};
use cursive::theme::Color;

fn cells(pos: &[(i32, i32)]) -> Vec<Hit> {
    pos.iter().map(|&(x, y)| Hit::new(x, y, false)).collect()
}

fn coords(ship: &Ship) -> Vec<(i32, i32)> {
    ship.positions.iter().map(|h| (h.x, h.y)).collect()
}

#[test]
fn hit_new_keeps_its_arguments() {
    let h = Hit::new(3, -4, true);
    assert_eq!((h.x, h.y, h.is_hit), (3, -4, true));
}

#[test]
fn x_mod_and_y_mod_move_the_cell() {
    let mut h = Hit::new(5, 5, false);
    h.x_mod(2);
    h.y_mod(-3);
    assert_eq!((h.x, h.y, h.is_hit), (7, 2, false));
}

#[test]
fn set_is_hit_marks_the_cell() {
    let mut h = Hit::new(1, 2, false);
    h.set_is_hit(true);
    assert_eq!((h.x, h.y, h.is_hit), (1, 2, true));
}

#[test]
fn ship_new_keeps_its_arguments() {
    let s = Ship::new(2, cells(&[(0, 0), (0, 1)]), false);
    assert_eq!(s.len, 2);
    assert_eq!(coords(&s), vec![(0, 0), (0, 1)]);
    assert!(!s.is_sunk);
}

#[test]
fn get_position_mut_changes_the_cell_in_place() {
    let mut s = Ship::new(2, cells(&[(0, 0), (0, 1)]), false);
    s.get_position_mut(1).unwrap().x_mod(4);
    assert_eq!(coords(&s), vec![(0, 0), (4, 1)]);
    assert!(s.get_position_mut(2).is_none());
    assert_eq!(coords(&s), vec![(0, 0), (4, 1)]);
}

#[test]
fn transpose_turns_a_column_into_a_row() {
    let mut s = Ship::new(3, cells(&[(2, 4), (2, 5), (2, 6)]), false);
    assert_eq!(s.transpose(0, 0, 10, 10), TransposeOutcome::Turned);
    assert_eq!(coords(&s), vec![(2, 4), (3, 4), (4, 4)]);
}

#[test]
fn transpose_turns_a_row_into_a_column() {
    let mut s = Ship::new(3, cells(&[(2, 4), (3, 4), (4, 4)]), false);
    assert_eq!(s.transpose(0, 0, 10, 10), TransposeOutcome::Turned);
    assert_eq!(coords(&s), vec![(2, 4), (2, 5), (2, 6)]);
}

#[test]
fn transpose_twice_restores_the_ship() {
    let mut s = Ship::new(4, cells(&[(1, 3), (1, 4), (1, 5), (1, 6)]), false);
    assert_eq!(s.transpose(0, 0, 10, 10), TransposeOutcome::Turned);
    assert_eq!(s.transpose(0, 0, 10, 10), TransposeOutcome::Turned);
    assert_eq!(coords(&s), vec![(1, 3), (1, 4), (1, 5), (1, 6)]);
}

#[test]
fn transpose_without_room_changes_nothing() {
    // The far end of the turned ship would be at column 8 + 3 > 10.
    let mut s = Ship::new(3, cells(&[(8, 0), (8, 1), (8, 2)]), false);
    assert_eq!(s.transpose(0, 0, 10, 10), TransposeOutcome::NoRoom);
    assert_eq!(coords(&s), vec![(8, 0), (8, 1), (8, 2)]);
    // Exactly at the edge is allowed.
    let mut t = Ship::new(3, cells(&[(7, 0), (7, 1), (7, 2)]), false);
    assert_eq!(t.transpose(0, 0, 10, 10), TransposeOutcome::Turned);
    assert_eq!(coords(&t), vec![(7, 0), (8, 0), (9, 0)]);
}

#[test]
fn transpose_of_a_crooked_ship_is_refused() {
    let mut s = Ship::new(2, cells(&[(0, 0), (1, 1)]), false);
    assert_eq!(s.transpose(0, 0, 10, 10), TransposeOutcome::NotStraight);
    assert_eq!(coords(&s), vec![(0, 0), (1, 1)]);
}

#[test]
fn transpose_moves_only_the_first_len_cells() {
    let mut s = Ship::new(2, cells(&[(0, 0), (5, 5), (0, 2)]), false);
    assert_eq!(s.transpose(0, 0, 10, 10), TransposeOutcome::Turned);
    assert_eq!(coords(&s), vec![(0, 0), (6, 0), (0, 2)]);
}

#[test]
fn transpose_keeps_hit_marks() {
    let mut s = Ship::new(2, vec![Hit::new(0, 0, false), Hit::new(0, 1, true)], false);
    s.transpose(0, 0, 10, 10);
    assert!(s.positions[1].is_hit);
    assert!(!s.positions[0].is_hit);
}

#[test]
fn can_transpose_tells_where_transpose_is_defined() {
    let s = Ship::new(3, cells(&[(2, 4), (2, 5), (2, 6)]), false);
    assert!(s.can_transpose(10, 10));
    let empty = Ship::new(0, Vec::new(), false);
    assert!(!empty.can_transpose(10, 10));
    // A length past the cells would turn cells that are not there.
    let short = Ship::new(5, cells(&[(2, 4), (2, 5)]), false);
    assert!(!short.can_transpose(10, 10));
    // Without room nothing is turned, so the length does not matter.
    assert!(short.can_transpose(5, 10));
    let far = Ship::new(2, cells(&[(i32::MAX, 0), (i32::MAX, 1)]), false);
    assert!(!far.can_transpose(10, 10));
}

#[test]
fn bounds_check_fail_finds_covered_cells() {
    let s = Ship::new(2, cells(&[(3, 3), (3, 4)]), false);
    assert!(s.bounds_check_fail(3, 4));
    assert!(!s.bounds_check_fail(4, 3));
}

#[test]
fn grid_new_uses_the_standard_colours() {
    let g = Grid::new();
    assert_eq!(g.color_bg, Color::Rgb(127, 255, 212));
    assert_eq!(g.color_ship, Color::Rgb(128, 128, 128));
    assert_eq!(g.color_cursor, Color::Rgb(0, 255, 0));
    assert_eq!(g.color_hit, Color::Rgb(255, 0, 0));
    assert_eq!(g.color_miss, Color::Rgb(255, 255, 255));
    assert_eq!((g.cursor.x, g.cursor.y, g.cursor.is_hit), (0, 0, false));
    assert!(g.hits.is_empty() && g.ships.is_empty());
}

#[test]
fn ships_mut_gives_the_ships() {
    let mut g = Grid::new();
    g.ships.push(Ship::new(1, cells(&[(1, 1)]), false));
    assert_eq!(g.ships_mut().len(), 1);
}

#[test]
fn is_hit_reports_the_first_shot() {
    let mut g = Grid::new();
    g.hits.push(Hit::new(2, 3, true));
    g.hits.push(Hit::new(2, 3, false));
    g.hits.push(Hit::new(4, 4, false));
    assert_eq!(g.is_hit(2, 3), Some(true));
    assert_eq!(g.is_hit(4, 4), Some(false));
    assert_eq!(g.is_hit(3, 2), None);
}

#[test]
fn back_color_prefers_cursor_then_ship() {
    let mut g = Grid::new();
    g.ships.push(Ship::new(2, cells(&[(1, 1), (1, 2)]), false));
    assert_eq!(g.back_color(1, 2), g.color_ship);
    assert_eq!(g.back_color(5, 5), g.color_bg);
    g.cursor = Hit::new(1, 2, true);
    assert_eq!(g.back_color(1, 2), g.color_cursor);
    // A hidden cursor is not drawn.
    g.cursor = Hit::new(5, 5, false);
    assert_eq!(g.back_color(5, 5), g.color_bg);
}

#[test]
fn cells_lay_out_the_picture() {
    let mut g = Grid::new();
    g.hits.push(Hit::new(2, 3, true));
    g.hits.push(Hit::new(7, 1, false));
    g.ships.push(Ship::new(2, cells(&[(2, 3), (2, 4)]), false));
    let c = g.cells();
    assert_eq!(c.len(), 100);
    let hit = &c[10 * 2 + 3];
    assert_eq!((hit.x, hit.y, hit.text), (2, 3, 'X'));
    assert_eq!(hit.front, Color::Rgb(255, 0, 0));
    assert_eq!(hit.back, Color::Rgb(128, 128, 128));
    let miss = &c[10 * 7 + 1];
    assert_eq!((miss.x, miss.y, miss.text), (7, 1, 'X'));
    assert_eq!(miss.front, Color::Rgb(255, 255, 255));
    assert_eq!(miss.back, Color::Rgb(127, 255, 212));
    let ship = &c[10 * 2 + 4];
    assert_eq!((ship.text, ship.front, ship.back), (' ', g.color_bg, g.color_ship));
    let water = &c[99];
    assert_eq!((water.x, water.y, water.text), (9, 9, ' '));
}

#[test]
fn transpose_compares_the_length_as_an_i32() {
    // The length 2^32 + 20 enters the comparison with the edge as 20.
    let len = (1usize << 32) | 20;
    let mut s = Ship::new(len, cells(&[(0, 0)]), false);
    assert!(s.can_transpose(10, 10));
    assert_eq!(s.transpose(0, 0, 10, 10), TransposeOutcome::NoRoom);
    assert_eq!(coords(&s), vec![(0, 0)]);
}
