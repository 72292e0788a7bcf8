//! The input bridge and the per-frame driver step.

use invaders::{
    Direction, Entity, Fleet, Game, InputBridge, KeyAction, KeyEdge, KeyEvent, Ship,
};

fn px(v: i64) -> i64 {
    v * 1_000
}

fn down(key: &str) -> KeyEvent {
    KeyEvent { edge: KeyEdge::Down, key: key.to_string() }
}

fn up(key: &str) -> KeyEvent {
    KeyEvent { edge: KeyEdge::Up, key: key.to_string() }
}

fn test_game() -> Game {
    let images = vec![vec![9u8; 16 * 16 * 4]];
    let fleet = Fleet::new(4, 6, px(30), px(30), px(770), px(60), 30, 16, 16, images);
    let ship_sprite = Entity::new(48, 48, vec![255u8; 48 * 48 * 4]).unwrap();
    let bullet_sprite = Entity::new(16, 16, vec![255u8; 16 * 16 * 4]).unwrap();
    let ship = Ship::new(ship_sprite, bullet_sprite, 500, px(570), px(30), px(770));
    Game::new(fleet, ship, 1_000)
}

#[test]
fn bridge_drops_the_third_push_at_capacity_two() {
    let mut bridge = InputBridge::new(2);
    assert!(bridge.push(down("a")));
    assert!(bridge.push(down("d")));
    // The third push is dropped, the drop is recorded, nothing panics.
    assert!(!bridge.push(down("a")));
    assert_eq!(bridge.dropped, 1);
    assert_eq!(bridge.events.len(), 2);
    // The queue still hands events out oldest first.
    let first = bridge.pop().unwrap();
    assert_eq!(first.key, "a");
    assert!(matches!(first.edge, KeyEdge::Down));
}

#[test]
fn bridge_with_no_room_drops_every_push() {
    let mut bridge = InputBridge::new(0);
    assert!(!bridge.push(down("a")));
    assert!(!bridge.push(up("a")));
    assert_eq!(bridge.dropped, 2);
    assert!(bridge.pop().is_none());
}

#[test]
fn bridge_pop_on_empty_is_not_an_error() {
    let mut bridge = InputBridge::new(2);
    assert!(bridge.pop().is_none());
    assert_eq!(bridge.dropped, 0);
}

#[test]
fn key_identifiers_map_to_movement_actions() {
    assert_eq!(invaders::key_action(&"a".to_string()), KeyAction::MoveLeft);
    assert_eq!(invaders::key_action(&"ArrowLeft".to_string()), KeyAction::MoveLeft);
    assert_eq!(invaders::key_action(&"d".to_string()), KeyAction::MoveRight);
    assert_eq!(invaders::key_action(&"ArrowRight".to_string()), KeyAction::MoveRight);
    assert_eq!(invaders::key_action(&"x".to_string()), KeyAction::Other);
    assert_eq!(invaders::key_action(&"".to_string()), KeyAction::Other);
}

#[test]
fn frame_steers_the_ship_and_advances_the_clock() {
    let mut game = test_game();
    let x0 = game.ship.inner.position.0.x;
    assert!(game.key_event(down("a")));
    game.frame(1_100);
    // 100 ms at half a pixel per millisecond, leftward.
    assert!(matches!(game.ship.direction, Direction::Left));
    assert_eq!(game.ship.inner.position.0.x, x0 - px(50));
    assert_eq!(game.last_ts, 1_100);
    // With no pending event the direction holds.
    game.frame(1_200);
    assert!(matches!(game.ship.direction, Direction::Left));
    assert_eq!(game.ship.inner.position.0.x, x0 - px(100));
}

#[test]
fn frame_stops_the_ship_on_key_up() {
    let mut game = test_game();
    game.key_event(down("d"));
    game.frame(1_050);
    assert!(matches!(game.ship.direction, Direction::Right));
    game.key_event(up("d"));
    let x = game.ship.inner.position.0.x;
    game.frame(1_150);
    assert!(matches!(game.ship.direction, Direction::Stopped));
    assert_eq!(game.ship.inner.position.0.x, x);
}

#[test]
fn frame_ignores_unrecognized_keys() {
    let mut game = test_game();
    game.key_event(down("q"));
    game.frame(1_010);
    assert!(matches!(game.ship.direction, Direction::Stopped));
}

#[test]
fn frame_drains_at_most_one_event() {
    let mut game = test_game();
    game.key_event(down("a"));
    game.key_event(down("d"));
    game.frame(1_010);
    assert!(matches!(game.ship.direction, Direction::Left));
    game.frame(1_020);
    assert!(matches!(game.ship.direction, Direction::Right));
}

#[test]
fn frame_moves_the_fleet_at_its_own_rate() {
    let mut game = test_game();
    let fx0 = game.fleet.position.0.x;
    // 1000 ms at 0.03 px/ms is 30 pixels.
    game.frame(2_000);
    assert_eq!(game.fleet.position.0.x, fx0 + px(30));
}
