//! Ship, bullet and fleet behavior: the end-to-end movement scenarios,
//! bullet expiry, and fleet rigidity.

use invaders::{Direction, Entity, Fleet, OffsetStrategy, Ship, XY};

// One pixel in sub-pixel units, as the library counts distances.
fn px(v: i64) -> i64 {
    v * 1_000
}

fn ship_sprite() -> Entity {
    Entity::new(48, 48, vec![255u8; 48 * 48 * 4]).unwrap()
}

fn bullet_sprite() -> Entity {
    Entity::new(16, 16, vec![255u8; 16 * 16 * 4]).unwrap()
}

/// A ship with bounds [30, 770] pixels, width 48 pixels, rate half a pixel
/// per millisecond, sitting at y = 570 pixels.
fn test_ship() -> Ship {
    Ship::new(ship_sprite(), bullet_sprite(), 500, px(570), px(30), px(770))
}

#[test]
fn ship_starts_centered_and_stopped() {
    let ship = test_ship();
    // 30 + (770-30)/2 + 48/2 = 424 pixels.
    assert_eq!(ship.inner.position.0.x, px(424));
    assert_eq!(ship.inner.position.0.y, px(570 - 48));
    assert!(matches!(ship.direction, Direction::Stopped));
    assert!(ship.bullets.is_empty());
}

#[test]
fn stopped_ship_does_not_move() {
    let mut ship = test_ship();
    ship.animate(100);
    assert_eq!(ship.inner.position.0.x, px(424));
    assert_eq!(ship.inner.position.0.y, px(570 - 48));
}

#[test]
fn ship_moving_left_advances_by_rate_times_delta() {
    let mut ship = test_ship();
    ship.direction = Direction::Left;
    // 100 ms at half a pixel per millisecond is 50 pixels.
    ship.animate(100);
    assert_eq!(ship.inner.position.0.x, px(424 - 50));
    // Steering is horizontal only: y never moves, not even on the first
    // moving frame.
    assert_eq!(ship.inner.position.0.y, px(570 - 48));
}

#[test]
fn ship_is_clamped_at_the_left_bound() {
    let mut ship = test_ship();
    ship.direction = Direction::Left;
    ship.inner.position.0.x = px(40);
    ship.animate(100);
    assert_eq!(ship.inner.position.0.x, px(30));
    // Another step stays clamped.
    ship.animate(100);
    assert_eq!(ship.inner.position.0.x, px(30));
}

#[test]
fn ship_is_clamped_at_the_right_bound() {
    let mut ship = test_ship();
    ship.direction = Direction::Right;
    ship.inner.position.0.x = px(700);
    ship.animate(100);
    // The sprite may not pass 770 - 48 = 722 pixels.
    assert_eq!(ship.inner.position.0.x, px(722));
}

#[test]
fn shoot_spawns_a_bullet_near_the_ship() {
    let mut ship = test_ship();
    ship.shoot();
    assert_eq!(ship.bullets.len(), 1);
    let b = &ship.bullets[0];
    assert_eq!(b.inner.position.0.x, px(424 + 11));
    assert_eq!(b.inner.position.0.y, px(570 - 48 + 10));
    assert_eq!(b.inner.size.0.y, px(16));
}

#[test]
fn bullets_climb_half_a_pixel_per_millisecond() {
    let mut ship = test_ship();
    ship.shoot();
    let y0 = ship.bullets[0].inner.position.0.y;
    ship.animate(100);
    assert_eq!(ship.bullets[0].inner.position.0.y, y0 - px(50));
}

#[test]
fn bullet_expires_once_fully_above_the_top_edge() {
    let mut ship = test_ship();
    ship.shoot();
    ship.shoot();
    // A bullet at exactly minus its height is still visible: kept.
    ship.bullets[0].inner.position.0.y = -px(16);
    ship.animate(0);
    assert_eq!(ship.bullets.len(), 2);
    // One sub-pixel further out it is removed on the next animate call.
    ship.bullets[0].inner.position.0.y = -px(16) - 1;
    ship.animate(0);
    assert_eq!(ship.bullets.len(), 1);
}

/// A 2 x 3 fleet of 16-pixel members with 10 pixels of spacing, bounds
/// [30, 770] pixels, at y = 60 pixels, moving 0.03 pixels per millisecond.
fn test_fleet() -> Fleet {
    let images = vec![
        vec![1u8; 16 * 16 * 4],
        vec![2u8; 16 * 16 * 4],
        vec![3u8; 16 * 16 * 4],
        vec![4u8; 16 * 16 * 4],
    ];
    Fleet::new(2, 3, px(10), px(30), px(770), px(60), 30, 16, 16, images)
}

fn assert_fleet_rigid(fleet: &Fleet) {
    let x = fleet.position.0.x;
    let y = fleet.position.0.y;
    for (r, row) in fleet.members.iter().enumerate() {
        for (c, m) in row.iter().enumerate() {
            assert_eq!(
                m.position.0.x,
                x + c as i64 * (m.size.0.x + fleet.spacing),
                "member ({r},{c}) drifted in x"
            );
            assert_eq!(
                m.position.0.y,
                y + r as i64 * (m.size.0.y + fleet.spacing),
                "member ({r},{c}) drifted in y"
            );
        }
    }
}

#[test]
fn fleet_grid_starts_rigid_and_sized() {
    let fleet = test_fleet();
    // 3 columns of (16 + 10) pixels minus one trailing gap.
    assert_eq!(fleet.size.0.x, px(3 * 26 - 10));
    assert_eq!(fleet.size.0.y, px(2 * 26 - 10));
    assert_eq!(fleet.position.0.x, px(30));
    assert_eq!(fleet.position.0.y, px(60));
    assert_eq!(fleet.members.len(), 2);
    assert_eq!(fleet.members[0].len(), 3);
    // The sprites rotate through the grid in row-major order.
    assert_eq!(fleet.members[0][0].data[0], 1);
    assert_eq!(fleet.members[0][1].data[0], 2);
    assert_eq!(fleet.members[1][0].data[0], 4);
    assert_eq!(fleet.members[1][1].data[0], 1);
    assert_fleet_rigid(&fleet);
}

#[test]
fn fleet_stays_rigid_through_animation() {
    let mut fleet = test_fleet();
    for delta in [100, 5_000, 12_345, 100_000, 1, 999] {
        fleet.animate(delta);
        assert_fleet_rigid(&fleet);
    }
}

#[test]
fn fleet_reflects_off_the_right_wall_exactly_once() {
    let mut fleet = test_fleet();
    // The band for the grid origin is [30, 770 - 68] = [30, 702] pixels.
    let max = px(702);
    // 10_000 ms at 0.03 px/ms moves the grid 300 pixels per step.
    fleet.animate(10_000);
    assert_eq!(fleet.position.0.x, px(330));
    fleet.animate(10_000);
    assert_eq!(fleet.position.0.x, px(630));
    // 630 + 300 = 930 overshoots 702 by 228 and mirrors back to 474.
    fleet.animate(10_000);
    assert_eq!(fleet.position.0.x, px(474));
    assert!(fleet.position.0.x <= max);
    match fleet.position.0.x_strategy {
        OffsetStrategy::Cycle { direction, .. } => assert_eq!(direction, -1),
        _ => panic!("fleet x strategy must stay Cycle"),
    }
    // The flip happened exactly once: the next step keeps moving down.
    fleet.animate(10_000);
    assert_eq!(fleet.position.0.x, px(174));
    assert_fleet_rigid(&fleet);
}

#[test]
fn fleet_set_x_recomputes_every_member() {
    let mut fleet = test_fleet();
    fleet.set_x(px(100));
    assert_eq!(fleet.position.0.x, px(100));
    assert_fleet_rigid(&fleet);
    fleet.set_y(px(200));
    assert_eq!(fleet.position.0.y, px(200));
    assert_fleet_rigid(&fleet);
}

#[test]
fn fleet_coordinates_read_the_origin() {
    let fleet = test_fleet();
    let c = fleet.get_coordinates();
    assert_eq!(c.x, px(30));
    assert_eq!(c.y, px(60));
    let _ = c.x(); // Coordinates expose the uniform read protocol too.
}
