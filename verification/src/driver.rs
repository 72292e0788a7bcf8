//! The per-frame driver: the whole game state and the single-threaded,
//! cooperative frame step.  Each step drains at most one pending input
//! event, steers the ship, computes the elapsed time since the last frame,
//! and advances the fleet and the ship by it.  Clearing the surface,
//! blitting sprites and asking the scheduler for the next frame are the
//! host's business, outside this crate.

use vstd::prelude::*;
use vstd::string::*;

use crate::entities::{
    bullets_after, ship_coords_after, ship_move_in_range, Direction, Fleet, Ship, BULLET_RATE,
};
use crate::geom::{
    coords_after_offset, lemma_banded_offset_in_range, Distance, OffsetStrategy, DIST_MAX,
};
use crate::input::{InputBridge, KeyEdge, KeyEvent};

verus! {

/// How many key events the input bridge buffers before dropping new ones.
pub const INPUT_CAPACITY: usize = 100;

/// The movement action a key identifier stands for.
#[derive(Clone, Copy, Debug, PartialEq, Eq, Structural)]
pub enum KeyAction {
    MoveLeft,
    MoveRight,
    Other,
}

/// The action a key identifier is recognized as: `a` and `ArrowLeft` steer
/// left, `d` and `ArrowRight` steer right, every other key is ignored.
pub open spec fn spec_key_action(key: Seq<char>) -> KeyAction {
    if key == "a"@ || key == "ArrowLeft"@ {
        KeyAction::MoveLeft
    } else if key == "d"@ || key == "ArrowRight"@ {
        KeyAction::MoveRight
    } else {
        KeyAction::Other
    }
}

/// Recognizes a key identifier string.
pub fn key_action(key: &String) -> (a: KeyAction)
    ensures
        a == spec_key_action(key@),
{
    if key.eq(&String::from_str("a")) || key.eq(&String::from_str("ArrowLeft")) {
        KeyAction::MoveLeft
    } else if key.eq(&String::from_str("d")) || key.eq(&String::from_str("ArrowRight")) {
        KeyAction::MoveRight
    } else {
        KeyAction::Other
    }
}

/// How one drained event steers the ship: a down edge of a movement key
/// steers that way, an up edge of a movement key stops the ship, and any
/// other key — or no event at all — leaves the direction alone.
pub open spec fn direction_after_event(d: Direction, e: Option<KeyEvent>) -> Direction {
    match e {
        Option::None => d,
        Option::Some(ev) => match spec_key_action(ev.key@) {
            KeyAction::MoveLeft => if ev.edge is Down {
                Direction::Left
            } else {
                Direction::Stopped
            },
            KeyAction::MoveRight => if ev.edge is Down {
                Direction::Right
            } else {
                Direction::Stopped
            },
            KeyAction::Other => d,
        },
    }
}

/// The event one frame step drains from a bridge holding `events`: the
/// oldest pending one, if any.
pub open spec fn drained_event(events: Seq<KeyEvent>) -> Option<KeyEvent> {
    if events.len() > 0 {
        Some(events[0])
    } else {
        None
    }
}

/// The whole game state the driver owns and advances frame by frame.
#[derive(Debug)]
pub struct Game {
    pub fleet: Fleet,
    pub ship: Ship,
    pub last_ts: Distance,
    pub bridge: InputBridge,
}

impl Game {
    /// Structural validity: both composites and the bridge well formed, the
    /// last timestamp in range, and the ship's position banded on both axes
    /// so a frame step can never push it out of range.
    pub open spec fn wf(self) -> bool {
        &&& self.fleet.wf()
        &&& self.ship.wf()
        &&& self.bridge.wf()
        &&& 0 <= self.last_ts <= DIST_MAX
        &&& !(self.ship.inner.position.0.x_strategy is Linear)
        &&& !(self.ship.inner.position.0.y_strategy is Linear)
    }

    /// A game over the given fleet and ship, with an empty input bridge and
    /// the clock started at `now`.
    pub fn new(fleet: Fleet, ship: Ship, now: Distance) -> (g: Game)
        requires
            fleet.wf(),
            ship.wf(),
            0 <= now <= DIST_MAX,
            !(ship.inner.position.0.x_strategy is Linear),
            !(ship.inner.position.0.y_strategy is Linear),
        ensures
            g.fleet == fleet,
            g.ship == ship,
            g.last_ts == now,
            g.bridge.events@ == Seq::<KeyEvent>::empty(),
            g.bridge.capacity == INPUT_CAPACITY,
            g.bridge.dropped == 0,
            g.wf(),
    {
        Game { fleet, ship, last_ts: now, bridge: InputBridge::new(INPUT_CAPACITY) }
    }

    /// The listener context's entry point: offers one key event to the
    /// bridge without blocking.  Whether it was accepted or dropped and
    /// counted, nothing else of the game changes.
    pub fn key_event(&mut self, event: KeyEvent) -> (accepted: bool)
        requires
            old(self).wf(),
        ensures
            final(self).fleet == old(self).fleet,
            final(self).ship == old(self).ship,
            final(self).last_ts == old(self).last_ts,
            final(self).bridge.capacity == old(self).bridge.capacity,
            accepted <==> old(self).bridge.events@.len() < old(self).bridge.capacity,
            accepted ==> final(self).bridge.events@ == old(self).bridge.events@.push(event)
                && final(self).bridge.dropped == old(self).bridge.dropped,
            !accepted ==> final(self).bridge.events@ == old(self).bridge.events@
                && final(self).bridge.dropped == (
            if old(self).bridge.dropped < u64::MAX {
                old(self).bridge.dropped + 1
            } else {
                old(self).bridge.dropped as int
            }),
            final(self).wf(),
    {
        self.bridge.push(event)
    }

    /// One frame at timestamp `ts`: drains at most one pending input event
    /// and steers the ship by it, advances the clock, then animates the
    /// fleet and the ship by the elapsed milliseconds.
    pub fn frame(&mut self, ts: Distance)
        requires
            old(self).wf(),
            old(self).last_ts <= ts <= DIST_MAX,
            old(self).ship.rate * (ts - old(self).last_ts) <= DIST_MAX,
            old(self).fleet.rate * (ts - old(self).last_ts) <= DIST_MAX,
            BULLET_RATE * (ts - old(self).last_ts) <= DIST_MAX,
        ensures
            ({
                let delta = ts - old(self).last_ts;
                let evt = drained_event(old(self).bridge.events@);
                let dir = direction_after_event(old(self).ship.direction, evt);
                let steered = Ship { direction: dir, ..old(self).ship };
                &&& final(self).last_ts == ts
                &&& final(self).bridge.events@ == old(self).bridge.events@.skip(
                    if evt is Some {
                        1
                    } else {
                        0
                    },
                )
                &&& final(self).bridge.capacity == old(self).bridge.capacity
                &&& final(self).bridge.dropped == old(self).bridge.dropped
                &&& final(self).ship.direction == dir
                &&& final(self).ship.rate == old(self).ship.rate
                &&& final(self).ship.inner.position.0 == ship_coords_after(steered, delta)
                &&& final(self).ship.inner.size == old(self).ship.inner.size
                &&& final(self).ship.inner.data == old(self).ship.inner.data
                &&& final(self).ship.bullet_sprite == old(self).ship.bullet_sprite
                &&& final(self).ship.bullets@ == bullets_after(old(self).ship.bullets@, delta)
                &&& final(self).fleet.position.0 == coords_after_offset(
                    old(self).fleet.position.0,
                    old(self).fleet.rate * delta,
                    0,
                )
                &&& final(self).fleet.size == old(self).fleet.size
                &&& final(self).fleet.rate == old(self).fleet.rate
                &&& final(self).fleet.spacing == old(self).fleet.spacing
            }),
            final(self).wf(),
    {
        let evt = self.bridge.pop();
        match evt {
            Option::Some(ev) => {
                let action = key_action(&ev.key);
                match action {
                    KeyAction::MoveLeft => {
                        self.ship.direction = match ev.edge {
                            KeyEdge::Down => Direction::Left,
                            KeyEdge::Up => Direction::Stopped,
                        };
                    },
                    KeyAction::MoveRight => {
                        self.ship.direction = match ev.edge {
                            KeyEdge::Down => Direction::Right,
                            KeyEdge::Up => Direction::Stopped,
                        };
                    },
                    KeyAction::Other => {},
                }
            },
            Option::None => {},
        }
        let delta = ts - self.last_ts;
        self.last_ts = ts;
        self.fleet.animate(delta);
        proof {
            let c = self.ship.inner.position.0;
            lemma_banded_offset_in_range(
                c.x_strategy,
                c.x as int,
                -(self.ship.rate * delta as int),
            );
            lemma_banded_offset_in_range(c.x_strategy, c.x as int, self.ship.rate * delta as int);
            lemma_banded_offset_in_range(c.y_strategy, c.y as int, 0);
            assert(ship_move_in_range(self.ship, delta as int));
        }
        self.ship.animate(delta);
        proof {
            assert(!(self.ship.inner.position.0.x_strategy is Linear));
            assert(!(self.ship.inner.position.0.y_strategy is Linear));
        }
    }
}

} // verus!
