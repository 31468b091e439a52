use battleship::game::{Connection, Effect, Game, Input};
use battleship::game_obj::{Game_State_Id, Hit, Ship};
use cursive::theme::Color;

fn last_coords(g: &Game) -> Vec<(i32, i32)> {
    g.my_grid.ships.last().unwrap().positions.iter().map(|h| (h.x, h.y)).collect()
}

#[test]
fn new_game_waits_in_edit() {
    let g = Game::new();
    assert_eq!(g.state, Game_State_Id::Edit);
    assert_eq!(g.msg, "Insert Coin");
    assert!(g.history.is_empty());
    assert!(g.my_grid.ships.is_empty());
    assert_eq!(g.ready_check, (false, false));
    assert!(!g.connected);
}

#[test]
fn enter_places_the_first_two_ships() {
    let mut g = Game::new();
    assert_eq!(g.handle_event(Input::Enter), Effect::Nothing);
    assert_eq!(g.msg, "Destroyer");
    assert_eq!(last_coords(&g), vec![(0, 0), (0, 1)]);
    assert_eq!(g.my_grid.ships[0].len, 2);
    assert_eq!(g.handle_event(Input::Enter), Effect::Nothing);
    assert_eq!(g.msg, "Submarine");
    assert_eq!(last_coords(&g), vec![(0, 0), (0, 1), (0, 2)]);
}

#[test]
fn enter_after_two_ships_changes_nothing() {
    let mut g = Game::new();
    g.handle_event(Input::Enter);
    g.handle_event(Input::Enter);
    // Moving the second ship away does not help: it covers itself.
    g.handle_event(Input::Right);
    g.handle_event(Input::Right);
    assert_eq!(g.handle_event(Input::Enter), Effect::Nothing);
    assert_eq!(g.my_grid.ships.len(), 2);
    assert_eq!(g.msg, "Submarine");
}

#[test]
fn enter_on_a_full_fleet_reports_ready() {
    let mut g = Game::new();
    for _ in 0..5 {
        g.my_grid.ships.push(Ship::new(0, Vec::new(), false));
    }
    g.connected = true;
    assert!(g.accepts(Input::Enter));
    assert_eq!(g.handle_event(Input::Enter), Effect::SendReady);
    assert_eq!(g.msg, "READY!");
    assert!(!g.connected);
    // Without the connection the key is not accepted.
    assert!(!g.accepts(Input::Enter));
}

#[test]
fn arrows_move_the_last_ship_within_the_board() {
    let mut g = Game::new();
    g.handle_event(Input::Enter);
    g.handle_event(Input::Up);
    assert_eq!(last_coords(&g), vec![(0, 0), (0, 1)]);
    g.handle_event(Input::Left);
    assert_eq!(last_coords(&g), vec![(0, 0), (0, 1)]);
    g.handle_event(Input::Down);
    g.handle_event(Input::Right);
    assert_eq!(last_coords(&g), vec![(1, 1), (1, 2)]);
    for _ in 0..20 {
        g.handle_event(Input::Down);
        g.handle_event(Input::Right);
    }
    assert_eq!(last_coords(&g), vec![(9, 8), (9, 9)]);
}

#[test]
fn up_then_down_restores_the_game() {
    let mut g = Game::new();
    g.handle_event(Input::Enter);
    g.handle_event(Input::Down);
    g.handle_event(Input::Down);
    let before = last_coords(&g);
    g.handle_event(Input::Up);
    assert_ne!(last_coords(&g), before);
    g.handle_event(Input::Down);
    assert_eq!(last_coords(&g), before);
    g.handle_event(Input::Right);
    let before = last_coords(&g);
    g.handle_event(Input::Left);
    g.handle_event(Input::Right);
    assert_eq!(last_coords(&g), before);
}

#[test]
fn tab_turns_the_last_ship() {
    let mut g = Game::new();
    g.handle_event(Input::Enter);
    assert_eq!(g.handle_event(Input::Tab), Effect::Nothing);
    assert_eq!(last_coords(&g), vec![(0, 0), (1, 0)]);
    assert_eq!(g.handle_event(Input::Tab), Effect::Nothing);
    assert_eq!(last_coords(&g), vec![(0, 0), (0, 1)]);
}

#[test]
fn tab_on_a_crooked_ship_reports_it() {
    let mut g = Game::new();
    g.my_grid.ships.push(Ship::new(2, vec![Hit::new(0, 0, false), Hit::new(1, 1, false)], false));
    assert_eq!(g.handle_event(Input::Tab), Effect::TransposeRefused);
    assert_eq!(last_coords(&g), vec![(0, 0), (1, 1)]);
}

#[test]
fn keys_keep_ships_on_the_board() {
    let mut g = Game::new();
    let keys = [
        Input::Enter, Input::Right, Input::Right, Input::Tab, Input::Down, Input::Enter,
        Input::Tab, Input::Right, Input::Right, Input::Right, Input::Right, Input::Right,
        Input::Right, Input::Right, Input::Right, Input::Tab, Input::Down, Input::Down,
        Input::Other, Input::Enter, Input::Up, Input::Left, Input::Tab,
    ];
    for k in keys.iter().cycle().take(200) {
        assert!(g.accepts(*k));
        g.handle_event(*k);
        for s in &g.my_grid.ships {
            assert_eq!(s.len, s.positions.len());
            for h in &s.positions {
                assert!((0..10).contains(&h.x) && (0..10).contains(&h.y));
            }
        }
    }
    assert_eq!(g.my_grid.ships.len(), 2);
}

#[test]
fn keys_without_a_ship_are_refused() {
    let g = Game::new();
    for k in [Input::Up, Input::Down, Input::Left, Input::Right, Input::Tab] {
        assert!(!g.accepts(k));
    }
    assert!(g.accepts(Input::Enter));
    assert!(g.accepts(Input::Other));
}

#[test]
fn accepts_refuses_overflowing_moves() {
    let mut g = Game::new();
    g.my_grid.ships.push(Ship::new(1, vec![Hit::new(i32::MIN, 0, false)], false));
    assert!(!g.accepts(Input::Left));
    assert!(g.accepts(Input::Right));
    assert!(g.accepts(Input::Up));
}

#[test]
fn step_starts_my_turn_once_both_are_ready() {
    let mut g = Game::new();
    g.step();
    assert_eq!(g.state, Game_State_Id::Edit);
    g.ready_check = (true, false);
    g.step();
    assert_eq!(g.state, Game_State_Id::Edit);
    g.ready_check = (true, true);
    g.step();
    assert_eq!(g.state, Game_State_Id::MyTurn);
    g.step();
    assert_eq!(g.state, Game_State_Id::MyTurn);
}

#[test]
fn tab_walks_the_turn_states() {
    let mut g = Game::new();
    g.state = Game_State_Id::MyTurn;
    assert_eq!(g.handle_event(Input::Tab), Effect::Nothing);
    assert_eq!(g.state, Game_State_Id::MyTurn);
    g.state = Game_State_Id::TheirTurn;
    g.handle_event(Input::Up);
    assert_eq!(g.state, Game_State_Id::TheirTurn);
    g.handle_event(Input::Tab);
    assert_eq!(g.state, Game_State_Id::GameOver);
    g.handle_event(Input::Tab);
    assert_eq!(g.state, Game_State_Id::Edit);
}

#[test]
fn on_event_keeps_the_last_ten_events() {
    let mut g = Game::new();
    for i in 0..15 {
        g.on_event(format!("event {}", i), Input::Other);
    }
    assert_eq!(g.history.len(), 10);
    assert_eq!(g.history[0], "event 5");
    assert_eq!(g.history[9], "event 14");
    assert_eq!(g.on_event("enter".to_string(), Input::Enter), Effect::Nothing);
    assert_eq!(g.history[9], "enter");
    assert_eq!(g.msg, "Destroyer");
}

#[test]
fn start_records_the_connection() {
    let mut g = Game::new();
    g.start(Connection::Joined);
    assert_eq!(g.msg, "CONNECTED!");
    assert!(g.connected);
    assert_eq!(g.target_grid.color_bg, Color::Rgb(0, 0, 0));
    assert_eq!(g.my_grid.color_bg, Color::Rgb(127, 255, 212));
    let mut h = Game::new();
    h.start(Connection::Hosted("127.0.0.1:40000".to_string()));
    assert_eq!(h.msg, "127.0.0.1:40000");
    assert!(h.connected);
    let mut f = Game::new();
    f.start(Connection::Failed("connection refused".to_string()));
    assert_eq!(f.msg, "connection refused");
    assert!(!f.connected);
    assert_eq!(f.target_grid.color_bg, Color::Rgb(0, 0, 0));
}

#[test]
fn drawn_grid_follows_the_state() {
    let mut g = Game::new();
    g.my_grid.hits.push(Hit::new(1, 1, true));
    assert_eq!(g.drawn_grid().unwrap().hits.len(), 1);
    g.state = Game_State_Id::MyTurn;
    assert_eq!(g.drawn_grid().unwrap().hits.len(), 0);
    g.state = Game_State_Id::TheirTurn;
    assert_eq!(g.drawn_grid().unwrap().hits.len(), 1);
    g.state = Game_State_Id::GameOver;
    assert!(g.drawn_grid().is_none());
}
