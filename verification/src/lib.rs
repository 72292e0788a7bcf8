//! A verified 2-D movement engine for a small sprite game: bounded and
//! reflecting per-axis movement strategies, a coordinate model, composite
//! entities (a player ship with its bullets, a rigid fleet of enemies), a
//! bounded input-event queue, and the per-frame driver step that ties them
//! together.
//!
//! All distances are integers in fixed-point sub-pixel units: [`SUBPIXEL`]
//! units make one pixel. Rates are sub-pixel units per millisecond, so a frame
//! delta in milliseconds times a rate is a distance.

mod driver;
mod entities;
mod geom;
mod input;

pub use driver::{key_action, Game, KeyAction, INPUT_CAPACITY};
pub use entities::{Bullet, Direction, Entity, Fleet, InitializationError, Ship, BULLET_RATE, BYTES_PER_PIXEL};
pub use geom::{Coordinates, Distance, OffsetStrategy, Position, Rect, Size, XY, DIST_MAX, SUBPIXEL};
pub use input::{InputBridge, KeyEdge, KeyEvent};
