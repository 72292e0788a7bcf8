//! The concrete drawables: a generic boxed entity (sprite + position +
//! size), the player ship with its bullets, and the rigid enemy fleet.

use vstd::prelude::*;

use crate::geom::{
    coord_in_range, coords_after_offset, in_range, lemma_banded_offset_in_range,
    offset_stays_in_range, Coordinates, Distance, OffsetStrategy, Position, Rect, Size, XY,
    DIST_MAX, SUBPIXEL,
};

verus! {

/// Bytes per pixel of a sprite image: red, green, blue, alpha.
pub const BYTES_PER_PIXEL: u64 = 4;

/// Construction failure: the pixel buffer handed to `Entity::new` does not
/// hold `width * height` RGBA pixels.
#[derive(Clone, Copy, Debug, PartialEq, Eq, Structural)]
pub struct InitializationError {
    /// The byte count the dimensions call for.
    pub expected: u128,
    /// The byte count actually supplied.
    pub actual: u128,
}

/// A drawable: a fixed pixel buffer plus an owned, mutable position and
/// size.  The size is the sprite's extent in sub-pixel units.
#[derive(Debug)]
pub struct Entity {
    pub size: Size,
    pub position: Position,
    pub data: Vec<u8>,
}

impl Entity {
    /// Structural validity: position in the coordinate range, size
    /// nonnegative and in the input range, strategies well formed.
    pub open spec fn wf(self) -> bool {
        &&& self.position.0.wf()
        &&& 0 <= self.size.0.x <= DIST_MAX
        &&& 0 <= self.size.0.y <= DIST_MAX
        &&& self.size.0.x_strategy.wf()
        &&& self.size.0.y_strategy.wf()
    }

    /// An entity of `width` by `height` pixels at the origin, from a buffer
    /// already known to match the dimensions.
    pub fn from_sprite(width: u32, height: u32, image: Vec<u8>) -> (e: Self)
        requires
            image@.len() == width * height * BYTES_PER_PIXEL,
        ensures
            e == (Entity {
                size: Size(
                    Coordinates {
                        x: (width as i64 * SUBPIXEL) as i64,
                        y: (height as i64 * SUBPIXEL) as i64,
                        x_strategy: OffsetStrategy::Linear,
                        y_strategy: OffsetStrategy::Linear,
                    },
                ),
                position: Position(
                    Coordinates {
                        x: 0,
                        y: 0,
                        x_strategy: OffsetStrategy::Linear,
                        y_strategy: OffsetStrategy::Linear,
                    },
                ),
                data: image,
            }),
            e.wf(),
    {
        Self {
            size: Size::new(width as i64 * SUBPIXEL, height as i64 * SUBPIXEL),
            position: Position::new(0, 0),
            data: image,
        }
    }

    /// An entity of `width` by `height` pixels at the origin.  Fails, and
    /// only fails, when the buffer does not hold `width * height` RGBA
    /// pixels.
    pub fn new(width: u32, height: u32, image: Vec<u8>) -> (r: Result<Self, InitializationError>)
        ensures
            r is Ok <==> image@.len() == width * height * BYTES_PER_PIXEL,
            match r {
                Ok(e) => e == (Entity {
                    size: Size(
                        Coordinates {
                            x: (width as i64 * SUBPIXEL) as i64,
                            y: (height as i64 * SUBPIXEL) as i64,
                            x_strategy: OffsetStrategy::Linear,
                            y_strategy: OffsetStrategy::Linear,
                        },
                    ),
                    position: Position(
                        Coordinates {
                            x: 0,
                            y: 0,
                            x_strategy: OffsetStrategy::Linear,
                            y_strategy: OffsetStrategy::Linear,
                        },
                    ),
                    data: image,
                }) && e.wf(),
                Err(err) => err == (InitializationError {
                    expected: (width * height * BYTES_PER_PIXEL) as u128,
                    actual: image@.len() as u128,
                }),
            },
    {
        proof {
            assert(width as int * height as int <= 0xffff_ffff * 0xffff_ffff)
                by (nonlinear_arith)
                requires
                    width as int <= 0xffff_ffff,
                    height as int <= 0xffff_ffff,
            ;
        }
        let expected: u128 = width as u128 * height as u128 * BYTES_PER_PIXEL as u128;
        if image.len() as u128 == expected {
            Ok(Self::from_sprite(width, height, image))
        } else {
            Err(InitializationError { expected, actual: image.len() as u128 })
        }
    }
}

impl Rect for Entity {
    open spec fn spec_position(&self) -> Position {
        self.position
    }

    open spec fn spec_size(&self) -> Size {
        self.size
    }

    open spec fn with_position(&self, p: Position) -> Entity {
        Entity { size: self.size, position: p, data: self.data }
    }

    fn position(&self) -> Position {
        self.position
    }

    fn position_mut(&mut self) -> &mut Position {
        &mut self.position
    }

    fn size(&self) -> Size {
        self.size
    }
}

/// Which way the player ship is currently steered.
#[derive(Clone, Copy, Debug, PartialEq, Eq, Structural)]
pub enum Direction {
    Left,
    Stopped,
    Right,
}

impl Default for Direction {
    /// A ship starts out standing still.
    fn default() -> (d: Self)
        ensures
            d == Direction::Stopped,
    {
        Direction::Stopped
    }
}

/// How fast a bullet climbs, in sub-pixel units per millisecond: half a
/// pixel each millisecond.
pub const BULLET_RATE: i64 = 500;

/// A projectile the ship fired.  It always moves straight up; its expiry is
/// decided by the owning ship, not by the bullet itself.
#[derive(Debug)]
pub struct Bullet {
    pub inner: Entity,
}

impl Bullet {
    /// Structural validity of the carried entity.
    pub open spec fn wf(self) -> bool {
        self.inner.wf()
    }

    /// A bullet showing `sprite` at `position`.
    pub fn new(sprite: Entity, position: Position) -> (b: Self)
        ensures
            b.inner == (Entity { size: sprite.size, position, data: sprite.data }),
    {
        let mut inner = sprite;
        *inner.position_mut() = position;
        Self { inner }
    }

    /// Moves strictly upward — decreasing y — by `BULLET_RATE * delta`,
    /// irrespective of any movement strategy on its position.
    pub fn animate(&mut self, delta: Distance)
        requires
            old(self).wf(),
            0 <= delta,
            BULLET_RATE * delta <= DIST_MAX,
            coord_in_range(old(self).inner.position.0.y - BULLET_RATE * delta),
        ensures
            *final(self) == bullet_stepped(*old(self), delta as int),
            final(self).wf(),
    {
        let pos = self.inner.position_mut();
        let y = pos.y();
        pos.set_y(y - BULLET_RATE * delta);
    }
}

/// The bullet after one animation step of `delta` milliseconds: moved up by
/// `BULLET_RATE * delta`, everything else untouched.
pub open spec fn bullet_stepped(b: Bullet, delta: int) -> Bullet {
    Bullet {
        inner: Entity {
            size: b.inner.size,
            position: Position(
                Coordinates {
                    y: (b.inner.position.0.y - BULLET_RATE * delta) as i64,
                    ..b.inner.position.0
                },
            ),
            data: b.inner.data,
        },
    }
}

/// A bullet has left the visible area: its y lies fully above the top edge,
/// more than its own height outside.
pub open spec fn bullet_expired(b: Bullet) -> bool {
    b.inner.position.0.y < -b.inner.size.0.y
}

/// The ship's bullet collection after one animate step of `delta`
/// milliseconds: every bullet already fully above the visible area is
/// removed, every surviving bullet climbs by `BULLET_RATE * delta`, and the
/// survivors keep their relative order.
pub open spec fn bullets_after(bs: Seq<Bullet>, delta: int) -> Seq<Bullet>
    decreases bs.len(),
{
    if bs.len() == 0 {
        Seq::empty()
    } else if bullet_expired(bs[0]) {
        bullets_after(bs.skip(1), delta)
    } else {
        seq![bullet_stepped(bs[0], delta)] + bullets_after(bs.skip(1), delta)
    }
}

/// Horizontal distance from a ship's top-left corner to where a bullet
/// spawns.
pub const SHOOT_OFFSET_X: i64 = 11 * SUBPIXEL;

/// Vertical distance from a ship's top-left corner to where a bullet
/// spawns.
pub const SHOOT_OFFSET_Y: i64 = 10 * SUBPIXEL;

/// A byte-for-byte copy of a pixel buffer.
fn clone_bytes(src: &Vec<u8>) -> (r: Vec<u8>)
    ensures
        r@ == src@,
{
    let mut r: Vec<u8> = Vec::new();
    let mut i: usize = 0;
    while i < src.len()
        invariant
            i <= src@.len(),
            r@ == src@.take(i as int),
        decreases src@.len() - i,
    {
        proof {
            assert(src@.take(i + 1) =~= src@.take(i as int).push(src@[i as int]));
        }
        r.push(src[i]);
        i += 1;
    }
    proof {
        assert(src@.take(src@.len() as int) =~= src@);
    }
    r
}

/// The player ship: one entity, a steering direction fed by the input
/// layer, a horizontal rate, the sprite its bullets carry, and the owned,
/// growable bullet collection — the only dynamic population in the model.
#[derive(Debug)]
pub struct Ship {
    pub inner: Entity,
    pub direction: Direction,
    pub rate: Distance,
    pub bullet_sprite: Entity,
    pub bullets: Vec<Bullet>,
}

/// The ship's position coordinates after one animate step: the frame delta
/// times the rate, applied leftward, rightward, or not at all, routed
/// through the per-axis strategies.
pub open spec fn ship_coords_after(s: Ship, delta: int) -> Coordinates {
    let c = s.inner.position.0;
    match s.direction {
        Direction::Left => coords_after_offset(c, -(s.rate * delta), 0),
        Direction::Right => coords_after_offset(c, s.rate * delta, 0),
        Direction::Stopped => c,
    }
}

/// Steering is horizontal only: with the ship's y axis pinned by a clamp
/// band holding its current y — as `Ship::new` builds it — an animate step
/// leaves y exactly where it was, whatever the direction and the delta.
pub proof fn lemma_ship_animate_keeps_y(s: Ship, delta: int)
    requires
        s.inner.position.0.y_strategy matches OffsetStrategy::Limit { min, max } && min
            <= s.inner.position.0.y <= max,
    ensures
        ship_coords_after(s, delta).y == s.inner.position.0.y,
        ship_coords_after(s, delta).y_strategy == s.inner.position.0.y_strategy,
{
}

/// The move the ship is about to make lands in the coordinate range on both
/// axes.  Always true for banded strategies; a condition only where an axis
/// is pass-through.
pub open spec fn ship_move_in_range(s: Ship, delta: int) -> bool {
    let c = s.inner.position.0;
    match s.direction {
        Direction::Left => offset_stays_in_range(c.x_strategy, c.x as int, -(s.rate * delta))
            && offset_stays_in_range(c.y_strategy, c.y as int, 0),
        Direction::Right => offset_stays_in_range(c.x_strategy, c.x as int, s.rate * delta)
            && offset_stays_in_range(c.y_strategy, c.y as int, 0),
        Direction::Stopped => true,
    }
}

impl Ship {
    /// Structural validity: entity and bullet sprite well formed, rate in
    /// range, every owned bullet well formed.
    pub open spec fn wf(self) -> bool {
        &&& self.inner.wf()
        &&& self.bullet_sprite.wf()
        &&& 0 <= self.rate <= DIST_MAX
        &&& forall|i: int| 0 <= i < self.bullets@.len() ==> (#[trigger] self.bullets@[i]).wf()
    }

    /// A ship showing `inner`, firing copies of `bullet_sprite`, steered at
    /// `rate` sub-pixel units per millisecond.  The sprite's top edge rests
    /// one height above `y_position` and its y axis is pinned there, so
    /// animation moves the ship horizontally only; the x axis is clamped so
    /// the sprite never leaves `[left_bound, right_bound]`.  It starts
    /// horizontally centered, standing still, with no bullets.
    pub fn new(
        inner: Entity,
        bullet_sprite: Entity,
        rate: Distance,
        y_position: Distance,
        left_bound: Distance,
        right_bound: Distance,
    ) -> (s: Ship)
        requires
            inner.wf(),
            bullet_sprite.wf(),
            0 <= rate <= DIST_MAX,
            in_range(y_position as int),
            in_range(y_position - inner.size.0.y),
            0 <= left_bound,
            left_bound + inner.size.0.x <= right_bound,
            right_bound <= DIST_MAX,
        ensures
            s.inner.size == inner.size,
            s.inner.data == inner.data,
            s.inner.position.0.x as int == left_bound + (right_bound - left_bound) / 2
                + inner.size.0.x / 2,
            s.inner.position.0.x_strategy == (OffsetStrategy::Limit {
                min: left_bound,
                max: (right_bound - inner.size.0.x) as i64,
            }),
            s.inner.position.0.y as int == y_position - inner.size.0.y,
            s.inner.position.0.y_strategy == (OffsetStrategy::Limit {
                min: (y_position - inner.size.0.y) as i64,
                max: (y_position - inner.size.0.y) as i64,
            }),
            s.direction == Direction::Stopped,
            s.rate == rate,
            s.bullet_sprite == bullet_sprite,
            s.bullets@ == Seq::<Bullet>::empty(),
            s.wf(),
    {
        let mut inner = inner;
        let w = inner.size.x();
        let h = inner.size.y();
        let position = inner.position_mut();
        position.set_offset_x(OffsetStrategy::limit(left_bound, right_bound - w));
        let center = left_bound + ((right_bound - left_bound) / 2) + (w / 2);
        position.set_x(center);
        // The y band sits where the sprite rests, so routing the y axis
        // through its strategy on a moving frame leaves y untouched.
        position.set_offset_y(OffsetStrategy::limit(y_position - h, y_position - h));
        position.set_y(y_position - h);

        Self {
            inner,
            direction: Default::default(),
            rate,
            bullet_sprite,
            bullets: Vec::new(),
        }
    }

    /// One animation step of `delta` milliseconds: the ship moves by
    /// `delta * rate` in its steering direction (not at all when stopped),
    /// then every owned bullet fully above the visible area is removed and
    /// every survivor climbs — expired bullets go on this call and no
    /// earlier.
    pub fn animate(&mut self, delta: Distance)
        requires
            old(self).wf(),
            0 <= delta,
            old(self).rate * delta <= DIST_MAX,
            BULLET_RATE * delta <= DIST_MAX,
            ship_move_in_range(*old(self), delta as int),
        ensures
            final(self).inner.position.0 == ship_coords_after(*old(self), delta as int),
            final(self).inner.size == old(self).inner.size,
            final(self).inner.data == old(self).inner.data,
            final(self).direction == old(self).direction,
            final(self).rate == old(self).rate,
            final(self).bullet_sprite == old(self).bullet_sprite,
            final(self).bullets@ == bullets_after(old(self).bullets@, delta as int),
            final(self).wf(),
    {
        proof {
            assert(0 <= self.rate * delta <= DIST_MAX) by (nonlinear_arith)
                requires
                    0 <= delta,
                    0 <= self.rate,
                    self.rate * delta <= DIST_MAX,
            ;
        }
        let offset = self.rate * delta;
        match self.direction {
            Direction::Left => self.inner.position_mut().offset(-offset, 0),
            Direction::Right => self.inner.position_mut().offset(offset, 0),
            Direction::Stopped => {},
        }
        let ghost mid = *self;
        let ghost bs0 = self.bullets@;
        let mut kept: Vec<Bullet> = Vec::new();
        while self.bullets.len() > 0
            invariant
                0 <= delta,
                BULLET_RATE * delta <= DIST_MAX,
                self.inner == mid.inner,
                self.direction == mid.direction,
                self.rate == mid.rate,
                self.bullet_sprite == mid.bullet_sprite,
                forall|i: int|
                    0 <= i < self.bullets@.len() ==> (#[trigger] self.bullets@[i]).wf(),
                forall|i: int| 0 <= i < kept@.len() ==> (#[trigger] kept@[i]).wf(),
                bullets_after(bs0, delta as int) == kept@ + bullets_after(
                    self.bullets@,
                    delta as int,
                ),
            decreases self.bullets@.len(),
        {
            let ghost cur = self.bullets@;
            let mut b = self.bullets.remove(0);
            proof {
                assert(cur.remove(0) =~= cur.skip(1));
            }
            let y = b.inner.position().y();
            let h = b.inner.size().y();
            if y < -h {
                // Fully above the visible area: drop it.
            } else {
                b.animate(delta);
                proof {
                    assert(kept@.push(b) =~= kept@ + seq![b]);
                    assert((kept@ + seq![b]) + bullets_after(cur.skip(1), delta as int) =~= kept@
                        + (seq![b] + bullets_after(cur.skip(1), delta as int)));
                }
                kept.push(b);
            }
        }
        proof {
            assert(self.bullets@ =~= Seq::<Bullet>::empty());
            assert(kept@ + bullets_after(self.bullets@, delta as int) =~= kept@);
        }
        self.bullets = kept;
    }

    /// Fires one bullet: a copy of the ship's bullet sprite, spawned a fixed
    /// small offset from the ship's current top-left corner and appended to
    /// the owned collection.  No rate limiting is imposed here.
    pub fn shoot(&mut self)
        requires
            old(self).wf(),
            coord_in_range(old(self).inner.position.0.x + SHOOT_OFFSET_X),
            coord_in_range(old(self).inner.position.0.y + SHOOT_OFFSET_Y),
        ensures
            final(self).inner == old(self).inner,
            final(self).direction == old(self).direction,
            final(self).rate == old(self).rate,
            final(self).bullet_sprite == old(self).bullet_sprite,
            final(self).bullets@.len() == old(self).bullets@.len() + 1,
            forall|i: int|
                0 <= i < old(self).bullets@.len() ==> final(self).bullets@[i] == old(
                    self,
                ).bullets@[i],
            ({
                let b = final(self).bullets@[old(self).bullets@.len() as int];
                b.inner.size == old(self).bullet_sprite.size && b.inner.data@ == old(
                    self,
                ).bullet_sprite.data@ && b.inner.position == (Position(
                    Coordinates {
                        x: (old(self).inner.position.0.x + SHOOT_OFFSET_X) as i64,
                        y: (old(self).inner.position.0.y + SHOOT_OFFSET_Y) as i64,
                        x_strategy: OffsetStrategy::Linear,
                        y_strategy: OffsetStrategy::Linear,
                    },
                ))
            }),
            final(self).wf(),
    {
        let position = Position::new(
            self.inner.position().x() + SHOOT_OFFSET_X,
            self.inner.position().y() + SHOOT_OFFSET_Y,
        );
        let sprite = Entity {
            size: self.bullet_sprite.size,
            position: Position::new(0, 0),
            data: clone_bytes(&self.bullet_sprite.data),
        };
        let bullet = Bullet::new(sprite, position);
        self.bullets.push(bullet);
    }
}

/// The entity with its x coordinate replaced and nothing else changed.
pub open spec fn entity_with_x(e: Entity, x: int) -> Entity {
    Entity {
        size: e.size,
        position: Position(Coordinates { x: x as i64, ..e.position.0 }),
        data: e.data,
    }
}

/// The entity with its y coordinate replaced and nothing else changed.
pub open spec fn entity_with_y(e: Entity, y: int) -> Entity {
    Entity {
        size: e.size,
        position: Position(Coordinates { y: y as i64, ..e.position.0 }),
        data: e.data,
    }
}

/// One fleet row with every member's x recomputed from its column index:
/// `x + column * (member width + spacing)`.
pub open spec fn row_with_x(row: Seq<Entity>, x: int, spacing: int) -> Seq<Entity> {
    Seq::new(row.len(), |j: int| entity_with_x(row[j], x + j * (row[j].size.0.x + spacing)))
}

/// One fleet row with every member's y recomputed from its row index:
/// `y + r * (member height + spacing)`.
pub open spec fn row_with_y(row: Seq<Entity>, y: int, r: int, spacing: int) -> Seq<Entity> {
    Seq::new(row.len(), |j: int| entity_with_y(row[j], y + r * (row[j].size.0.y + spacing)))
}

/// Rewrites every member's x in one row to `x + column * (width + spacing)`.
fn reposition_row_x(row: &mut Vec<Entity>, x: Distance, spacing: Distance)
    requires
        in_range(x as int),
        0 <= spacing <= DIST_MAX,
        old(row)@.len() <= 0xffff_ffff,
        forall|j: int|
            0 <= j < old(row)@.len() ==> (#[trigger] old(row)@[j]).wf() && j * (old(
                row,
            )@[j].size.0.x + spacing) <= DIST_MAX,
    ensures
        final(row)@ == row_with_x(old(row)@, x as int, spacing as int),
{
    let ghost r0 = row@;
    let mut c: usize = 0;
    while c < row.len()
        invariant
            in_range(x as int),
            0 <= spacing <= DIST_MAX,
            forall|j: int|
                0 <= j < r0.len() ==> (#[trigger] r0[j]).wf() && j * (r0[j].size.0.x + spacing)
                    <= DIST_MAX,
            r0.len() <= 0xffff_ffff,
            c <= r0.len(),
            row@.len() == r0.len(),
            forall|j: int| c <= j < r0.len() ==> row@[j] == r0[j],
            forall|j: int|
                0 <= j < c ==> row@[j] == entity_with_x(
                    r0[j],
                    x + j * (r0[j].size.0.x + spacing),
                ),
        decreases r0.len() - c,
    {
        proof {
            assert(row@[c as int] == r0[c as int]);
            assert(r0[c as int].wf());
            assert((c as int) * (r0[c as int].size.0.x + spacing) <= DIST_MAX);
            assert(0 <= (c as int) * (r0[c as int].size.0.x + spacing)) by (nonlinear_arith)
                requires
                    0 <= c,
                    0 <= r0[c as int].size.0.x + spacing,
            ;
        }
        let m = vstd::std_specs::vec::vec_index_mut(row, c);
        let width = m.size.0.x;
        m.position.0.x = x + (c as i64) * (width + spacing);
        c += 1;
    }
    proof {
        assert(row@ =~= row_with_x(r0, x as int, spacing as int));
    }
}

/// Rewrites every member's y in row number `r` to
/// `y + r * (height + spacing)`.
fn reposition_row_y(row: &mut Vec<Entity>, y: Distance, r: usize, spacing: Distance)
    requires
        in_range(y as int),
        0 <= spacing <= DIST_MAX,
        old(row)@.len() <= 0xffff_ffff,
        r < 0xffff_ffff,
        forall|j: int|
            0 <= j < old(row)@.len() ==> (#[trigger] old(row)@[j]).wf() && (r as int) * (old(
                row,
            )@[j].size.0.y + spacing) <= DIST_MAX,
    ensures
        final(row)@ == row_with_y(old(row)@, y as int, r as int, spacing as int),
{
    let ghost r0 = row@;
    let mut c: usize = 0;
    while c < row.len()
        invariant
            in_range(y as int),
            0 <= spacing <= DIST_MAX,
            forall|j: int|
                0 <= j < r0.len() ==> (#[trigger] r0[j]).wf() && (r as int) * (r0[j].size.0.y
                    + spacing) <= DIST_MAX,
            r0.len() <= 0xffff_ffff,
            r < 0xffff_ffff,
            c <= r0.len(),
            row@.len() == r0.len(),
            forall|j: int| c <= j < r0.len() ==> row@[j] == r0[j],
            forall|j: int|
                0 <= j < c ==> row@[j] == entity_with_y(
                    r0[j],
                    y + (r as int) * (r0[j].size.0.y + spacing),
                ),
        decreases r0.len() - c,
    {
        proof {
            assert(row@[c as int] == r0[c as int]);
            assert(r0[c as int].wf());
            assert((r as int) * (r0[c as int].size.0.y + spacing) <= DIST_MAX);
            assert(0 <= (r as int) * (r0[c as int].size.0.y + spacing)) by (nonlinear_arith)
                requires
                    0 <= r,
                    0 <= r0[c as int].size.0.y + spacing,
            ;
        }
        let m = vstd::std_specs::vec::vec_index_mut(row, c);
        let height = m.size.0.y;
        m.position.0.y = y + (r as i64) * (height + spacing);
        c += 1;
    }
    proof {
        assert(row@ =~= row_with_y(r0, y as int, r as int, spacing as int));
    }
}

/// A rigid grid of enemy entities moved as one unit: a common rate, a gap
/// between members, and an aggregate position and size for the whole grid.
/// The grid's x axis carries a `Cycle` strategy, so the whole formation
/// bounces off the playfield walls.
#[derive(Debug)]
pub struct Fleet {
    pub size: Size,
    pub position: Position,
    pub rate: Distance,
    pub spacing: Distance,
    pub members: Vec<Vec<Entity>>,
}

/// The member entity of fleet `f` at row `r`, column `c`.
pub open spec fn member_at(f: Fleet, r: int, c: int) -> Entity {
    f.members@[r]@[c]
}

/// Grid rigidity: every member sits at the fleet origin displaced by its
/// index times its own extent plus the spacing — members never drift
/// independently.
pub open spec fn fleet_grid_rigid(f: Fleet) -> bool {
    forall|r: int, c: int|
        0 <= r < f.members@.len() && 0 <= c < f.members@[r]@.len() ==> {
            let m = #[trigger] member_at(f, r, c);
            m.position.0.x == f.position.0.x + c * (m.size.0.x + f.spacing)
                && m.position.0.y == f.position.0.y + r * (m.size.0.y + f.spacing)
        }
}

impl Fleet {
    /// Structural validity: origin in the input range with a reflecting x
    /// axis and a pass-through y axis, every member well formed and small
    /// enough that its grid slot stays in range, and the grid rigid.
    pub open spec fn wf(self) -> bool {
        &&& self.position.0.wf()
        &&& in_range(self.position.0.x as int)
        &&& in_range(self.position.0.y as int)
        &&& self.position.0.x_strategy is Cycle
        &&& self.position.0.y_strategy == OffsetStrategy::Linear
        &&& 0 <= self.spacing <= DIST_MAX
        &&& 0 <= self.rate <= DIST_MAX
        &&& 0 <= self.size.0.x <= DIST_MAX
        &&& 0 <= self.size.0.y <= DIST_MAX
        &&& self.size.0.x_strategy.wf()
        &&& self.size.0.y_strategy.wf()
        &&& self.members@.len() <= 0xffff_ffff
        &&& forall|r: int|
            0 <= r < self.members@.len() ==> (#[trigger] self.members@[r])@.len() <= 0xffff_ffff
        &&& forall|r: int, c: int|
            0 <= r < self.members@.len() && 0 <= c < self.members@[r]@.len() ==> {
                let m = #[trigger] member_at(self, r, c);
                m.wf() && c * (m.size.0.x + self.spacing) <= DIST_MAX && r * (m.size.0.y
                    + self.spacing) <= DIST_MAX
            }
        &&& fleet_grid_rigid(self)
    }

    /// A fleet of `rows` by `columns` members at `(left_bound, y_position)`,
    /// each member `member_width` by `member_height` pixels, showing the
    /// supplied sprite images in rotation, spaced `spacing` apart, moving at
    /// `rate` sub-pixel units per millisecond.  The x axis carries a `Cycle`
    /// strategy bounded so the whole formation stays inside
    /// `[left_bound, right_bound]`.
    pub fn new(
        rows: u32,
        columns: u32,
        spacing: Distance,
        left_bound: Distance,
        right_bound: Distance,
        y_position: Distance,
        rate: Distance,
        member_width: u32,
        member_height: u32,
        images: Vec<Vec<u8>>,
    ) -> (f: Fleet)
        requires
            1 <= rows,
            1 <= columns,
            0 <= spacing <= DIST_MAX,
            0 <= rate <= DIST_MAX,
            in_range(left_bound as int),
            in_range(y_position as int),
            right_bound <= DIST_MAX,
            columns * (member_width * SUBPIXEL + spacing) <= DIST_MAX,
            rows * (member_height * SUBPIXEL + spacing) <= DIST_MAX,
            left_bound + columns * (member_width * SUBPIXEL + spacing) - spacing < right_bound,
            images@.len() >= 1,
            forall|i: int|
                0 <= i < images@.len() ==> (#[trigger] images@[i])@.len() == member_width
                    * member_height * BYTES_PER_PIXEL,
        ensures
            f.size.0 == (Coordinates {
                x: (columns * (member_width * SUBPIXEL + spacing) - spacing) as i64,
                y: (rows * (member_height * SUBPIXEL + spacing) - spacing) as i64,
                x_strategy: OffsetStrategy::Linear,
                y_strategy: OffsetStrategy::Linear,
            }),
            f.position.0 == (Coordinates {
                x: left_bound,
                y: y_position,
                x_strategy: OffsetStrategy::Cycle {
                    min: left_bound,
                    max: (right_bound - (columns * (member_width * SUBPIXEL + spacing)
                        - spacing)) as i64,
                    direction: 1,
                },
                y_strategy: OffsetStrategy::Linear,
            }),
            f.rate == rate,
            f.spacing == spacing,
            f.members@.len() == rows,
            forall|r: int|
                0 <= r < rows ==> (#[trigger] f.members@[r])@.len() == columns,
            forall|r: int, c: int|
                0 <= r < rows && 0 <= c < columns ==> {
                    let m = #[trigger] member_at(f, r, c);
                    m.size.0 == (Coordinates {
                        x: (member_width * SUBPIXEL) as i64,
                        y: (member_height * SUBPIXEL) as i64,
                        x_strategy: OffsetStrategy::Linear,
                        y_strategy: OffsetStrategy::Linear,
                    }) && m.position.0 == (Coordinates {
                        x: (left_bound + c * (member_width * SUBPIXEL + spacing)) as i64,
                        y: (y_position + r * (member_height * SUBPIXEL + spacing)) as i64,
                        x_strategy: OffsetStrategy::Linear,
                        y_strategy: OffsetStrategy::Linear,
                    }) && m.data@ == images@[(r * columns + c) % (images@.len() as int)]@
                },
            f.wf(),
    {
        let w_sub = member_width as i64 * SUBPIXEL;
        let h_sub = member_height as i64 * SUBPIXEL;
        let mut members: Vec<Vec<Entity>> = Vec::new();
        let mut r: u32 = 0;
        while r < rows
            invariant
                1 <= rows,
                1 <= columns,
                0 <= spacing <= DIST_MAX,
                in_range(left_bound as int),
                in_range(y_position as int),
                w_sub == member_width * SUBPIXEL,
                h_sub == member_height * SUBPIXEL,
                columns * (w_sub + spacing) <= DIST_MAX,
                rows * (h_sub + spacing) <= DIST_MAX,
                images@.len() >= 1,
                forall|i: int|
                    0 <= i < images@.len() ==> (#[trigger] images@[i])@.len() == member_width
                        * member_height * BYTES_PER_PIXEL,
                r <= rows,
                members@.len() == r,
                forall|i: int|
                    0 <= i < r ==> (#[trigger] members@[i])@.len() == columns,
                forall|i: int, j: int|
                    #![trigger members@[i]@[j]]
                    0 <= i < r && 0 <= j < columns ==> {
                        let m = members@[i]@[j];
                        m.size.0 == (Coordinates {
                            x: w_sub,
                            y: h_sub,
                            x_strategy: OffsetStrategy::Linear,
                            y_strategy: OffsetStrategy::Linear,
                        }) && m.position.0 == (Coordinates {
                            x: (left_bound + j * (w_sub + spacing)) as i64,
                            y: (y_position + i * (h_sub + spacing)) as i64,
                            x_strategy: OffsetStrategy::Linear,
                            y_strategy: OffsetStrategy::Linear,
                        }) && m.data@ == images@[(i * columns + j) % (images@.len() as int)]@
                    },
            decreases rows - r,
        {
            let mut row: Vec<Entity> = Vec::new();
            let mut c: u32 = 0;
            while c < columns
                invariant
                    1 <= columns,
                    0 <= spacing <= DIST_MAX,
                    in_range(left_bound as int),
                    in_range(y_position as int),
                    w_sub == member_width * SUBPIXEL,
                    h_sub == member_height * SUBPIXEL,
                    columns * (w_sub + spacing) <= DIST_MAX,
                    rows * (h_sub + spacing) <= DIST_MAX,
                    r < rows,
                    images@.len() >= 1,
                    forall|i: int|
                        0 <= i < images@.len() ==> (#[trigger] images@[i])@.len() == member_width
                            * member_height * BYTES_PER_PIXEL,
                    c <= columns,
                    row@.len() == c,
                    forall|j: int|
                        0 <= j < c ==> {
                            let m = #[trigger] row@[j];
                            m.size.0 == (Coordinates {
                                x: w_sub,
                                y: h_sub,
                                x_strategy: OffsetStrategy::Linear,
                                y_strategy: OffsetStrategy::Linear,
                            }) && m.position.0 == (Coordinates {
                                x: (left_bound + j * (w_sub + spacing)) as i64,
                                y: (y_position + r * (h_sub + spacing)) as i64,
                                x_strategy: OffsetStrategy::Linear,
                                y_strategy: OffsetStrategy::Linear,
                            }) && m.data@ == images@[(r * columns + j) % (images@.len() as int)]@
                        },
                decreases columns - c,
            {
                proof {
                    assert((r as int) * (columns as int) + (c as int) <= 0xffff_fffe
                        * 0xffff_ffff + 0xffff_fffe) by (nonlinear_arith)
                        requires
                            0 <= (r as int) <= 0xffff_fffe,
                            0 <= (c as int) < (columns as int),
                            (columns as int) <= 0xffff_ffff,
                    ;
                    assert(0 <= (c as int) * (w_sub + spacing) <= columns * (w_sub + spacing))
                        by (nonlinear_arith)
                        requires
                            0 <= c < columns,
                            0 <= w_sub + spacing,
                    ;
                    assert(0 <= (r as int) * (h_sub + spacing) <= rows * (h_sub + spacing))
                        by (nonlinear_arith)
                        requires
                            0 <= r < rows,
                            0 <= h_sub + spacing,
                    ;
                }
                let idx: usize = ((r as u64 * columns as u64 + c as u64) % images.len() as u64)
                    as usize;
                let mut member = Entity::from_sprite(
                    member_width,
                    member_height,
                    clone_bytes(&images[idx]),
                );
                member.position.0.x = left_bound + (c as i64) * (w_sub + spacing);
                member.position.0.y = y_position + (r as i64) * (h_sub + spacing);
                row.push(member);
                c += 1;
            }
            members.push(row);
            r += 1;
        }
        proof {
            assert(0 <= columns * (w_sub + spacing)) by (nonlinear_arith)
                requires
                    0 <= columns,
                    0 <= w_sub + spacing,
            ;
            assert(0 <= rows * (h_sub + spacing)) by (nonlinear_arith)
                requires
                    0 <= rows,
                    0 <= h_sub + spacing,
            ;
            assert(spacing <= 1 * (w_sub + spacing) <= columns * (w_sub + spacing))
                by (nonlinear_arith)
                requires
                    1 <= columns,
                    0 <= w_sub,
                    0 <= spacing,
            ;
            assert(spacing <= 1 * (h_sub + spacing) <= rows * (h_sub + spacing))
                by (nonlinear_arith)
                requires
                    1 <= rows,
                    0 <= h_sub,
                    0 <= spacing,
            ;
        }
        let size = Size::new(
            columns as i64 * (w_sub + spacing) - spacing,
            rows as i64 * (h_sub + spacing) - spacing,
        );
        let mut position = Position::new(left_bound, y_position);
        position.set_offset_x(OffsetStrategy::cycle(left_bound, right_bound - size.x()));
        let f = Fleet { size, position, rate, spacing, members };
        proof {
            assert forall|r2: int, c2: int|
                #![trigger member_at(f, r2, c2)]
                0 <= r2 < f.members@.len() && 0 <= c2 < f.members@[r2]@.len() implies ({
                    let m = member_at(f, r2, c2);
                    &&& m.wf()
                    &&& c2 * (m.size.0.x + f.spacing) <= DIST_MAX
                    &&& r2 * (m.size.0.y + f.spacing) <= DIST_MAX
                    &&& m.position.0.x == f.position.0.x + c2 * (m.size.0.x + f.spacing)
                    &&& m.position.0.y == f.position.0.y + r2 * (m.size.0.y + f.spacing)
                }) by {
                assert(0 <= c2 * (w_sub + spacing) <= columns * (w_sub + spacing))
                    by (nonlinear_arith)
                    requires
                        0 <= c2 < columns as int,
                        0 <= w_sub + spacing,
                ;
                assert(0 <= r2 * (h_sub + spacing) <= rows * (h_sub + spacing))
                    by (nonlinear_arith)
                    requires
                        0 <= r2 < rows as int,
                        0 <= h_sub + spacing,
                ;
            }
        }
        f
    }

    /// The grid origin's coordinate pair.
    pub fn get_coordinates(&self) -> (c: Coordinates)
        ensures
            c == self.position.0,
    {
        self.position.get_coordinates()
    }

    /// Routes `(offset_x, offset_y)` through the origin's per-axis
    /// strategies — the x axis reflecting, the y axis passing through — and
    /// repositions every member from its grid index, keeping the grid rigid.
    pub fn offset(&mut self, offset_x: Distance, offset_y: Distance)
        requires
            old(self).wf(),
            in_range(offset_x as int),
            in_range(offset_y as int),
            in_range(old(self).position.0.y + offset_y),
        ensures
            final(self).position.0 == coords_after_offset(
                old(self).position.0,
                offset_x as int,
                offset_y as int,
            ),
            final(self).members@.len() == old(self).members@.len(),
            forall|r: int|
                0 <= r < old(self).members@.len() ==> (#[trigger] final(self).members@[r])@.len()
                    == old(self).members@[r]@.len(),
            forall|r: int, c: int|
                0 <= r < old(self).members@.len() && 0 <= c < old(self).members@[r]@.len() ==> {
                    let m0 = member_at(*old(self), r, c);
                    let m1 = #[trigger] member_at(*final(self), r, c);
                    m1.size == m0.size && m1.data == m0.data && m1.position.0.x_strategy
                        == m0.position.0.x_strategy && m1.position.0.y_strategy
                        == m0.position.0.y_strategy
                },
            final(self).size == old(self).size,
            final(self).rate == old(self).rate,
            final(self).spacing == old(self).spacing,
            final(self).wf(),
    {
        let x = self.position.0.x;
        let y = self.position.0.y;
        proof {
            lemma_banded_offset_in_range(self.position.0.x_strategy, x as int, offset_x as int);
        }
        let new_x = self.position.0.x_strategy.offset(x, offset_x);
        let new_y = self.position.0.y_strategy.offset(y, offset_y);
        proof {
            assert(self.position.0.x_strategy is Cycle);
            assert(self.position.0.y_strategy == OffsetStrategy::Linear);
            assert(self.members@ == old(self).members@);
            assert forall|r2: int, c2: int|
                #![trigger member_at(*self, r2, c2)]
                0 <= r2 < self.members@.len() && 0 <= c2 < self.members@[r2]@.len() implies
                member_at(*self, r2, c2) == member_at(*old(self), r2, c2) by {
            }
            assert(self.wf());
        }
        self.set_x(new_x);
        self.set_y(new_y);
    }

    /// One animation step of `delta` milliseconds: the whole formation
    /// advances by `delta * rate` along x, reflecting off the playfield
    /// walls, and every member keeps its exact grid slot.
    pub fn animate(&mut self, delta: Distance)
        requires
            old(self).wf(),
            0 <= delta,
            old(self).rate * delta <= DIST_MAX,
        ensures
            final(self).position.0 == coords_after_offset(
                old(self).position.0,
                old(self).rate * delta,
                0,
            ),
            final(self).members@.len() == old(self).members@.len(),
            forall|r: int|
                0 <= r < old(self).members@.len() ==> (#[trigger] final(self).members@[r])@.len()
                    == old(self).members@[r]@.len(),
            forall|r: int, c: int|
                0 <= r < old(self).members@.len() && 0 <= c < old(self).members@[r]@.len() ==> {
                    let m0 = member_at(*old(self), r, c);
                    let m1 = #[trigger] member_at(*final(self), r, c);
                    m1.size == m0.size && m1.data == m0.data && m1.position.0.x_strategy
                        == m0.position.0.x_strategy && m1.position.0.y_strategy
                        == m0.position.0.y_strategy
                },
            final(self).size == old(self).size,
            final(self).rate == old(self).rate,
            final(self).spacing == old(self).spacing,
            final(self).wf(),
    {
        proof {
            assert(0 <= self.rate * delta <= DIST_MAX) by (nonlinear_arith)
                requires
                    0 <= delta,
                    0 <= self.rate,
                    self.rate * delta <= DIST_MAX,
            ;
        }
        let raw_offset = self.rate * delta;
        self.offset(raw_offset, 0);
    }

    /// Moves the whole grid so its origin's x becomes `x`: every member's
    /// position is recomputed from its column index — repositioning keeps
    /// the grid rigid.
    pub fn set_x(&mut self, x: Distance)
        requires
            old(self).wf(),
            in_range(x as int),
        ensures
            final(self).position.0 == (Coordinates { x, ..old(self).position.0 }),
            final(self).members@.len() == old(self).members@.len(),
            forall|r: int|
                0 <= r < old(self).members@.len() ==> final(self).members@[r]@ == row_with_x(
                    old(self).members@[r]@,
                    x as int,
                    old(self).spacing as int,
                ),
            final(self).size == old(self).size,
            final(self).rate == old(self).rate,
            final(self).spacing == old(self).spacing,
            final(self).wf(),
    {
        let spacing = self.spacing;
        let mut r: usize = 0;
        while r < self.members.len()
            invariant
                old(self).wf(),
                in_range(x as int),
                spacing == old(self).spacing,
                self.position == old(self).position,
                self.size == old(self).size,
                self.rate == old(self).rate,
                self.spacing == old(self).spacing,
                r <= self.members@.len(),
                self.members@.len() == old(self).members@.len(),
                forall|i: int|
                    r <= i < self.members@.len() ==> self.members@[i] == old(self).members@[i],
                forall|i: int|
                    0 <= i < r ==> (#[trigger] self.members@[i])@ == row_with_x(
                        old(self).members@[i]@,
                        x as int,
                        spacing as int,
                    ),
            decreases self.members@.len() - r,
        {
            proof {
                assert(self.members@[r as int] == old(self).members@[r as int]);
                assert forall|j: int|
                    0 <= j < self.members@[r as int]@.len() implies ((#[trigger] self.members@[r
                    as int]@[j]).wf() && j * (self.members@[r as int]@[j].size.0.x + spacing)
                    <= DIST_MAX) by {
                    assert(member_at(*old(self), r as int, j) == self.members@[r as int]@[j]);
                    assert(member_at(*old(self), r as int, j).wf());
                    assert(j * (member_at(*old(self), r as int, j).size.0.x + spacing)
                        <= DIST_MAX);
                }
            }
            let row = vstd::std_specs::vec::vec_index_mut(&mut self.members, r);
            reposition_row_x(row, x, spacing);
            r += 1;
        }
        self.position.0.x = x;
        proof {
            let sp = old(self).spacing as int;
            assert forall|r2: int, c2: int|
                #![trigger member_at(*self, r2, c2)]
                0 <= r2 < self.members@.len() && 0 <= c2 < self.members@[r2]@.len() implies ({
                    let m = member_at(*self, r2, c2);
                    &&& m.wf()
                    &&& c2 * (m.size.0.x + self.spacing) <= DIST_MAX
                    &&& r2 * (m.size.0.y + self.spacing) <= DIST_MAX
                    &&& m.position.0.x == self.position.0.x + c2 * (m.size.0.x + self.spacing)
                    &&& m.position.0.y == self.position.0.y + r2 * (m.size.0.y + self.spacing)
                }) by {
                let mold = member_at(*old(self), r2, c2);
                assert(self.members@[r2]@ == row_with_x(old(self).members@[r2]@, x as int, sp));
                assert(member_at(*self, r2, c2) == entity_with_x(
                    mold,
                    x + c2 * (mold.size.0.x + sp),
                ));
                assert(mold.wf() && c2 * (mold.size.0.x + sp) <= DIST_MAX && r2 * (mold.size.0.y
                    + sp) <= DIST_MAX);
                assert(0 <= c2 * (mold.size.0.x + sp)) by (nonlinear_arith)
                    requires
                        0 <= c2,
                        0 <= mold.size.0.x + sp,
                ;
            }
        }
    }

    /// Moves the whole grid so its origin's y becomes `y`: every member's
    /// position is recomputed from its row index.
    pub fn set_y(&mut self, y: Distance)
        requires
            old(self).wf(),
            in_range(y as int),
        ensures
            final(self).position.0 == (Coordinates { y, ..old(self).position.0 }),
            final(self).members@.len() == old(self).members@.len(),
            forall|r: int|
                0 <= r < old(self).members@.len() ==> final(self).members@[r]@ == row_with_y(
                    old(self).members@[r]@,
                    y as int,
                    r,
                    old(self).spacing as int,
                ),
            final(self).size == old(self).size,
            final(self).rate == old(self).rate,
            final(self).spacing == old(self).spacing,
            final(self).wf(),
    {
        let spacing = self.spacing;
        let mut r: usize = 0;
        while r < self.members.len()
            invariant
                old(self).wf(),
                in_range(y as int),
                spacing == old(self).spacing,
                self.position == old(self).position,
                self.size == old(self).size,
                self.rate == old(self).rate,
                self.spacing == old(self).spacing,
                r <= self.members@.len(),
                self.members@.len() == old(self).members@.len(),
                forall|i: int|
                    r <= i < self.members@.len() ==> self.members@[i] == old(self).members@[i],
                forall|i: int|
                    0 <= i < r ==> (#[trigger] self.members@[i])@ == row_with_y(
                        old(self).members@[i]@,
                        y as int,
                        i,
                        spacing as int,
                    ),
            decreases self.members@.len() - r,
        {
            proof {
                assert(self.members@[r as int] == old(self).members@[r as int]);
                assert forall|j: int|
                    0 <= j < self.members@[r as int]@.len() implies ((#[trigger] self.members@[r
                    as int]@[j]).wf() && (r as int) * (self.members@[r as int]@[j].size.0.y
                    + spacing) <= DIST_MAX) by {
                    assert(member_at(*old(self), r as int, j) == self.members@[r as int]@[j]);
                    assert(member_at(*old(self), r as int, j).wf());
                    assert((r as int) * (member_at(*old(self), r as int, j).size.0.y + spacing)
                        <= DIST_MAX);
                }
            }
            let row = vstd::std_specs::vec::vec_index_mut(&mut self.members, r);
            reposition_row_y(row, y, r, spacing);
            r += 1;
        }
        self.position.0.y = y;
        proof {
            let sp = old(self).spacing as int;
            assert forall|r2: int, c2: int|
                #![trigger member_at(*self, r2, c2)]
                0 <= r2 < self.members@.len() && 0 <= c2 < self.members@[r2]@.len() implies ({
                    let m = member_at(*self, r2, c2);
                    &&& m.wf()
                    &&& c2 * (m.size.0.x + self.spacing) <= DIST_MAX
                    &&& r2 * (m.size.0.y + self.spacing) <= DIST_MAX
                    &&& m.position.0.x == self.position.0.x + c2 * (m.size.0.x + self.spacing)
                    &&& m.position.0.y == self.position.0.y + r2 * (m.size.0.y + self.spacing)
                }) by {
                let mold = member_at(*old(self), r2, c2);
                assert(self.members@[r2]@ == row_with_y(old(self).members@[r2]@, y as int, r2, sp));
                assert(member_at(*self, r2, c2) == entity_with_y(
                    mold,
                    y + r2 * (mold.size.0.y + sp),
                ));
                assert(mold.wf() && c2 * (mold.size.0.x + sp) <= DIST_MAX && r2 * (mold.size.0.y
                    + sp) <= DIST_MAX);
                assert(0 <= r2 * (mold.size.0.y + sp)) by (nonlinear_arith)
                    requires
                        0 <= r2,
                        0 <= mold.size.0.y + sp,
                ;
            }
        }
    }
}

impl Rect for Fleet {
    open spec fn spec_position(&self) -> Position {
        self.position
    }

    open spec fn spec_size(&self) -> Size {
        self.size
    }

    open spec fn with_position(&self, p: Position) -> Fleet {
        Fleet {
            size: self.size,
            position: p,
            rate: self.rate,
            spacing: self.spacing,
            members: self.members,
        }
    }

    fn position(&self) -> Position {
        self.position
    }

    fn position_mut(&mut self) -> &mut Position {
        &mut self.position
    }

    fn size(&self) -> Size {
        self.size
    }
}

} // verus!
