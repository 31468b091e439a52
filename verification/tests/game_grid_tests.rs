use battleship::game_grid::{Grid, Hit, Ship};
use cursive::theme::Color;

#[test]
fn hit_and_ship_new_keep_their_arguments() {
    let h = Hit::new(1, 2, true);
    assert_eq!((h.x, h.y, h.is_hit), (1, 2, true));
    let s = Ship::new(1, vec![Hit::new(4, 5, false)], true);
    assert_eq!(s.len, 1);
    assert_eq!((s.positions[0].x, s.positions[0].y), (4, 5));
    assert!(s.is_sunk);
}

#[test]
fn grid_new_is_empty() {
    let g = Grid::new();
    assert!(g.hits.is_empty() && g.ships.is_empty());
}

#[test]
fn board_is_hit_reports_the_first_shot() {
    let mut g = Grid::new();
    g.hits.push(Hit::new(0, 9, false));
    g.hits.push(Hit::new(0, 9, true));
    assert_eq!(g.is_hit(0, 9), Some(false));
    assert_eq!(g.is_hit(9, 0), None);
}

#[test]
fn back_color_is_grey_under_ships() {
    let mut g = Grid::new();
    g.ships.push(Ship::new(2, vec![Hit::new(3, 3, false), Hit::new(4, 3, false)], false));
    assert_eq!(g.back_color(4, 3), Color::Rgb(128, 128, 128));
    assert_eq!(g.back_color(5, 3), Color::Rgb(127, 255, 212));
}

#[test]
fn board_cells_lay_out_the_picture() {
    let mut g = Grid::new();
    g.hits.push(Hit::new(4, 3, true));
    g.hits.push(Hit::new(0, 0, false));
    g.ships.push(Ship::new(2, vec![Hit::new(3, 3, false), Hit::new(4, 3, false)], false));
    let c = g.cells();
    assert_eq!(c.len(), 100);
    let hit = &c[43];
    assert_eq!((hit.x, hit.y, hit.text), (4, 3, 'X'));
    assert_eq!((hit.front, hit.back), (Color::Rgb(255, 0, 0), Color::Rgb(128, 128, 128)));
    let miss = &c[0];
    assert_eq!((miss.text, miss.front, miss.back), ('X', Color::Rgb(255, 255, 255), Color::Rgb(127, 255, 212)));
    let water = &c[55];
    assert_eq!((water.x, water.y, water.text), (5, 5, ' '));
    assert_eq!(water.front, Color::Rgb(224, 255, 255));
}
