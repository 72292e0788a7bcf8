//! The coordinate model: scalar distances, per-axis movement strategies
//! (pass-through, clamped, reflecting), and coordinate pairs that route an
//! offset through the strategy attached to each axis.

use vstd::prelude::*;

verus! {

/// A scalar distance in fixed-point sub-pixel units.
pub type Distance = i64;

/// Sub-pixel units per pixel: all coordinates, sizes, bounds and rates are
/// expressed in these units so fractional per-millisecond rates stay exact.
pub const SUBPIXEL: i64 = 1000;

/// Magnitude bound on every distance the engine works with.  Large enough for
/// any playfield (a billion pixels), small enough that the reflection
/// arithmetic can never overflow an `i64`.
pub const DIST_MAX: i64 = 1_000_000_000_000_000;

/// A distance value the engine accepts as input: bounds, deltas, rates.
pub open spec fn in_range(v: int) -> bool {
    -DIST_MAX <= v <= DIST_MAX
}

/// A coordinate value as stored: positions may drift one step past the input
/// range (a bullet just above the screen, a fleet member right of its origin)
/// but never further.
pub open spec fn coord_in_range(v: int) -> bool {
    -2 * DIST_MAX <= v <= 2 * DIST_MAX
}

/// `v` forced into `[min, max]`.
pub open spec fn clamped(v: int, min: int, max: int) -> int {
    if v > max {
        max
    } else if v < min {
        min
    } else {
        v
    }
}

/// Magnitude of `d`.
pub open spec fn abs_val(d: int) -> int {
    if d < 0 {
        -d
    } else {
        d
    }
}

/// The delta a `Cycle` strategy actually applies: the magnitude of the
/// requested delta, signed by the strategy's current direction.
pub open spec fn directed(delta: int, direction: int) -> int {
    if direction >= 0 {
        abs_val(delta)
    } else {
        -abs_val(delta)
    }
}

/// `v` folded into `[min, max]` by mirroring the overshoot at whichever bound
/// is crossed, repeatedly until it settles.
pub open spec fn reflected(v: int, min: int, max: int) -> int
    recommends
        min < max,
    decreases
            (if v > max {
                v - max
            } else if v < min {
                min - v
            } else {
                0
            })
        when min < max
{
    if v > max {
        reflected(2 * max - v, min, max)
    } else if v < min {
        reflected(2 * min - v, min, max)
    } else {
        v
    }
}

/// The direction a `Cycle` strategy remembers after folding `v` into
/// `[min, max]`: `-1` if the last bound crossed was the upper one, `1` if it
/// was the lower one, `dir` unchanged if no bound was crossed.
pub open spec fn reflected_direction(v: int, min: int, max: int, dir: int) -> int
    recommends
        min < max,
    decreases
            (if v > max {
                v - max
            } else if v < min {
                min - v
            } else {
                0
            })
        when min < max
{
    if v > max {
        reflected_direction(2 * max - v, min, max, -1)
    } else if v < min {
        reflected_direction(2 * min - v, min, max, 1)
    } else {
        dir
    }
}

/// Per-axis policy that turns a requested positional delta into a new value:
/// pass-through, clamped into a band, or reflecting off both ends of a band.
#[derive(Clone, Copy, Debug, PartialEq, Eq, Structural)]
pub enum OffsetStrategy {
    /// The delta is applied unchanged.
    Linear,
    /// The result is clamped into `[min, max]`.
    Limit { min: Distance, max: Distance },
    /// The result reflects at both bounds; `direction` is mutable state
    /// remembering which way motion currently points (`1` or `-1`).
    Cycle { min: Distance, max: Distance, direction: Distance },
}

impl OffsetStrategy {
    /// Structural validity: bounds in range, ordered, direction a unit.
    pub open spec fn wf(self) -> bool {
        match self {
            OffsetStrategy::Linear => true,
            OffsetStrategy::Limit { min, max } => in_range(min as int) && in_range(max as int)
                && min <= max,
            OffsetStrategy::Cycle { min, max, direction } => in_range(min as int) && in_range(
                max as int,
            ) && min < max && (direction == 1 || direction == -1),
        }
    }

    /// The value `offset` returns for current value `c` and delta `d`.
    pub open spec fn offset_value(self, c: int, d: int) -> int {
        match self {
            OffsetStrategy::Linear => c + d,
            OffsetStrategy::Limit { min, max } => clamped(c + d, min as int, max as int),
            OffsetStrategy::Cycle { min, max, direction } => reflected(
                c + directed(d, direction as int),
                min as int,
                max as int,
            ),
        }
    }

    /// The strategy state after `offset`: only `Cycle` mutates, updating its
    /// direction to point away from the last bound it crossed.
    pub open spec fn offset_state(self, c: int, d: int) -> OffsetStrategy {
        match self {
            OffsetStrategy::Cycle { min, max, direction } => OffsetStrategy::Cycle {
                min,
                max,
                direction: reflected_direction(
                    c + directed(d, direction as int),
                    min as int,
                    max as int,
                    direction as int,
                ) as i64,
            },
            _ => self,
        }
    }

    /// A strategy that applies deltas unchanged.
    pub fn linear() -> (s: Self)
        ensures
            s == OffsetStrategy::Linear,
    {
        OffsetStrategy::Linear
    }

    /// A strategy that clamps results into `[min, max]`.
    pub fn limit(min: Distance, max: Distance) -> (s: Self)
        ensures
            s == (OffsetStrategy::Limit { min, max }),
    {
        OffsetStrategy::Limit { min, max }
    }

    /// A strategy that reflects at both ends of `[min, max]`, initially
    /// moving in the positive direction.
    pub fn cycle(min: Distance, max: Distance) -> (s: Self)
        ensures
            s == (OffsetStrategy::Cycle { min, max, direction: 1 }),
    {
        OffsetStrategy::Cycle { min, max, direction: 1 }
    }

    /// Applies delta `d` to current value `c` under this strategy, updating
    /// the strategy's own state (`Cycle`'s direction) in place.
    ///
    /// The result is always in band for `Limit` and `Cycle`, whatever `c`
    /// was: a value that starts outside the band is pulled in on first use.
    pub fn offset(&mut self, c: Distance, d: Distance) -> (r: Distance)
        requires
            old(self).wf(),
            coord_in_range(c as int),
            in_range(d as int),
        ensures
            r as int == old(self).offset_value(c as int, d as int),
            *final(self) == old(self).offset_state(c as int, d as int),
            final(self).wf(),
            match *old(self) {
                OffsetStrategy::Linear => r == c + d,
                OffsetStrategy::Limit { min, max } => min <= r <= max,
                OffsetStrategy::Cycle { min, max, .. } => min <= r <= max,
            },
    {
        match self {
            OffsetStrategy::Linear => c + d,
            OffsetStrategy::Limit { min, max } => {
                let sum = c + d;
                if sum > *max {
                    *max
                } else if sum < *min {
                    *min
                } else {
                    sum
                }
            },
            OffsetStrategy::Cycle { min, max, direction } => {
                let mn = *min;
                let mx = *max;
                let magnitude: i64 = if d < 0 {
                    -d
                } else {
                    d
                };
                let applied: i64 = if *direction >= 0 {
                    magnitude
                } else {
                    -magnitude
                };
                let mut result = c + applied;
                let ghost start = result as int;
                let ghost dir0 = *direction as int;
                let ghost d0: int = if start > mx {
                    start - mx
                } else if start < mn {
                    mn - start
                } else {
                    0
                };
                while result > mx || result < mn
                    invariant
                        in_range(mn as int),
                        in_range(mx as int),
                        mn < mx,
                        *direction == 1 || *direction == -1,
                        0 <= d0 <= 4 * DIST_MAX,
                        mn - d0 <= result <= mx + d0,
                        (if result > mx {
                            result - mx
                        } else if result < mn {
                            mn - result
                        } else {
                            0
                        }) <= d0,
                        reflected(result as int, mn as int, mx as int) == reflected(
                            start,
                            mn as int,
                            mx as int,
                        ),
                        reflected_direction(
                            result as int,
                            mn as int,
                            mx as int,
                            *direction as int,
                        ) == reflected_direction(start, mn as int, mx as int, dir0),
                    decreases
                            (if result > mx {
                                result - mx
                            } else if result < mn {
                                mn - result
                            } else {
                                0
                            }),
                {
                    if result > mx {
                        result = 2 * mx - result;
                        *direction = -1;
                    } else {
                        result = 2 * mn - result;
                        *direction = 1;
                    }
                }
                result
            },
        }
    }
}

/// Folding a value into a non-empty band always lands inside the band.
pub proof fn lemma_reflected_in_band(v: int, min: int, max: int)
    requires
        min < max,
    ensures
        min <= reflected(v, min, max) <= max,
    decreases
            (if v > max {
                v - max
            } else if v < min {
                min - v
            } else {
                0
            }),
{
    if v > max {
        lemma_reflected_in_band(2 * max - v, min, max);
    } else if v < min {
        lemma_reflected_in_band(2 * min - v, min, max);
    }
}

/// Boundedness: whatever the current value and the delta, a `Cycle` strategy
/// returns a value inside its band.
pub proof fn lemma_cycle_bounded(mn: Distance, mx: Distance, dir: Distance, c: int, d: int)
    requires
        (OffsetStrategy::Cycle { min: mn, max: mx, direction: dir }).wf(),
    ensures
        mn <= (OffsetStrategy::Cycle { min: mn, max: mx, direction: dir }).offset_value(c, d)
            <= mx,
{
    lemma_reflected_in_band(c + directed(d, dir as int), mn as int, mx as int);
}

/// The sum of a sequence of deltas.
pub open spec fn sum_of(deltas: Seq<int>) -> int
    decreases deltas.len(),
{
    if deltas.len() == 0 {
        0
    } else {
        deltas[0] + sum_of(deltas.skip(1))
    }
}

/// The strategy state and the value after applying a sequence of deltas one
/// after the other.
pub open spec fn strategy_run(s: OffsetStrategy, c: int, deltas: Seq<int>) -> (OffsetStrategy, int)
    decreases deltas.len(),
{
    if deltas.len() == 0 {
        (s, c)
    } else {
        strategy_run(s.offset_state(c, deltas[0]), s.offset_value(c, deltas[0]), deltas.skip(1))
    }
}

/// Splitting off the head of a sequence splits its sum.
proof fn lemma_sum_cons(a: int, t: Seq<int>)
    ensures
        sum_of(seq![a] + t) == a + sum_of(t),
{
    let s = seq![a] + t;
    assert(s.len() == 1 + t.len());
    assert(s[0] == a);
    assert(s.skip(1) =~= t);
}

/// A `Linear` strategy accumulates the plain sum of its deltas.
pub proof fn lemma_linear_run(c: int, deltas: Seq<int>)
    ensures
        strategy_run(OffsetStrategy::Linear, c, deltas) == (
            OffsetStrategy::Linear,
            c + sum_of(deltas),
        ),
    decreases deltas.len(),
{
    if deltas.len() > 0 {
        lemma_linear_run(c + deltas[0], deltas.skip(1));
    }
}

/// No-reflection equivalence: as long as every intermediate value stays
/// inside the band, a forward-moving `Cycle` strategy applies a sequence of
/// nonnegative deltas exactly as `Linear` does — the plain running sum — and
/// its direction never flips.
pub proof fn lemma_cycle_matches_linear(mn: Distance, mx: Distance, c: int, deltas: Seq<int>)
    requires
        (OffsetStrategy::Cycle { min: mn, max: mx, direction: 1 }).wf(),
        forall|i: int| 0 <= i < deltas.len() ==> deltas[i] >= 0,
        forall|i: int|
            0 <= i <= deltas.len() ==> mn <= c + sum_of(#[trigger] deltas.take(i)) <= mx,
    ensures
        strategy_run(OffsetStrategy::Cycle { min: mn, max: mx, direction: 1 }, c, deltas) == (
            OffsetStrategy::Cycle { min: mn, max: mx, direction: 1 },
            c + sum_of(deltas),
        ),
        strategy_run(OffsetStrategy::Linear, c, deltas) == (
            OffsetStrategy::Linear,
            c + sum_of(deltas),
        ),
    decreases deltas.len(),
{
    lemma_linear_run(c, deltas);
    let s = OffsetStrategy::Cycle { min: mn, max: mx, direction: 1 };
    if deltas.len() == 0 {
        assert(deltas.take(0) =~= deltas);
    } else {
        let d0 = deltas[0];
        assert(deltas[0] >= 0);
        // The first prefix sum pins `c + d0` inside the band.
        assert(deltas.take(1).skip(1) =~= Seq::<int>::empty());
        assert(deltas.take(1)[0] == d0);
        assert(sum_of(Seq::<int>::empty()) == 0);
        assert(sum_of(deltas.take(1)) == d0);
        assert(mn <= c + d0 <= mx);
        assert(s.offset_value(c as int, d0) == c + d0);
        assert(s.offset_state(c as int, d0) == s);
        let rest = deltas.skip(1);
        assert forall|i: int| 0 <= i <= rest.len() implies mn <= (c + d0) + sum_of(
            #[trigger] rest.take(i),
        ) <= mx by {
            assert(deltas.take(i + 1) =~= seq![d0] + rest.take(i));
            lemma_sum_cons(d0, rest.take(i));
            assert(mn <= c + sum_of(deltas.take(i + 1)) <= mx);
        }
        lemma_cycle_matches_linear(mn, mx, c + d0, rest);
        assert(deltas.take(deltas.len() as int) =~= deltas);
        assert(sum_of(deltas) == d0 + sum_of(rest));
    }
}

/// Running a concatenated delta sequence is running the two parts in turn.
pub proof fn lemma_strategy_run_app(s: OffsetStrategy, c: int, a: Seq<int>, b: Seq<int>)
    ensures
        strategy_run(s, c, a + b) == strategy_run(
            strategy_run(s, c, a).0,
            strategy_run(s, c, a).1,
            b,
        ),
    decreases a.len(),
{
    if a.len() == 0 {
        assert(a + b =~= b);
    } else {
        assert((a + b)[0] == a[0]);
        assert((a + b).skip(1) =~= a.skip(1) + b);
        lemma_strategy_run_app(s.offset_state(c, a[0]), s.offset_value(c, a[0]), a.skip(1), b);
    }
}

/// With its direction reversed, a `Cycle` strategy applies nonnegative
/// deltas downward: as long as every intermediate value stays inside the
/// band, the value falls by the plain running sum and the direction stays
/// reversed.
pub proof fn lemma_cycle_descending_run(mn: Distance, mx: Distance, c: int, deltas: Seq<int>)
    requires
        (OffsetStrategy::Cycle { min: mn, max: mx, direction: -1i64 }).wf(),
        forall|i: int| 0 <= i < deltas.len() ==> deltas[i] >= 0,
        forall|i: int|
            0 <= i <= deltas.len() ==> mn <= c - sum_of(#[trigger] deltas.take(i)) <= mx,
    ensures
        strategy_run(OffsetStrategy::Cycle { min: mn, max: mx, direction: -1i64 }, c, deltas) == (
            OffsetStrategy::Cycle { min: mn, max: mx, direction: -1i64 },
            c - sum_of(deltas),
        ),
    decreases deltas.len(),
{
    let s = OffsetStrategy::Cycle { min: mn, max: mx, direction: -1i64 };
    if deltas.len() == 0 {
        assert(deltas.take(0) =~= deltas);
    } else {
        let d0 = deltas[0];
        assert(deltas.take(1).skip(1) =~= Seq::<int>::empty());
        assert(deltas.take(1)[0] == d0);
        assert(sum_of(Seq::<int>::empty()) == 0);
        assert(sum_of(deltas.take(1)) == d0);
        assert(mn <= c - d0 <= mx);
        assert(s.offset_value(c as int, d0) == c - d0);
        assert(s.offset_state(c as int, d0) == s);
        let rest = deltas.skip(1);
        assert forall|i: int| 0 <= i <= rest.len() implies mn <= (c - d0) - sum_of(
            #[trigger] rest.take(i),
        ) <= mx by {
            assert(deltas.take(i + 1) =~= seq![d0] + rest.take(i));
            lemma_sum_cons(d0, rest.take(i));
            assert(mn <= c - sum_of(deltas.take(i + 1)) <= mx);
        }
        lemma_cycle_descending_run(mn, mx, c - d0, rest);
        assert(deltas.take(deltas.len() as int) =~= deltas);
        assert(sum_of(deltas) == d0 + sum_of(rest));
    }
}

/// The bounce at a wall, over a whole run of calls: starting inside the band
/// and moving forward, nonnegative deltas accumulate as a plain sum while
/// every intermediate value stays inside the band; the first delta whose sum
/// crosses the upper bound mirrors the overshoot back inside and flips the
/// direction to `-1` — exactly once, at that boundary —; and every further
/// nonnegative delta then moves the value back down by its full amount, the
/// direction staying `-1` throughout.
pub proof fn lemma_cycle_bounce_at_upper_bound(
    mn: Distance,
    mx: Distance,
    c: int,
    rising: Seq<int>,
    crossing: int,
    falling: Seq<int>,
)
    requires
        (OffsetStrategy::Cycle { min: mn, max: mx, direction: 1 }).wf(),
        forall|i: int| 0 <= i < rising.len() ==> rising[i] >= 0,
        forall|i: int|
            0 <= i <= rising.len() ==> mn <= c + sum_of(#[trigger] rising.take(i)) <= mx,
        crossing >= 0,
        c + sum_of(rising) + crossing > mx,
        mn <= 2 * mx - (c + sum_of(rising) + crossing),
        forall|i: int| 0 <= i < falling.len() ==> falling[i] >= 0,
        forall|i: int|
            0 <= i <= falling.len() ==> mn <= 2 * mx - (c + sum_of(rising) + crossing) - sum_of(
                #[trigger] falling.take(i),
            ),
    ensures
        ({
            let up = OffsetStrategy::Cycle { min: mn, max: mx, direction: 1 };
            let down = OffsetStrategy::Cycle { min: mn, max: mx, direction: -1i64 };
            let at_wall = c + sum_of(rising);
            let mirrored = 2 * mx - (at_wall + crossing);
            &&& strategy_run(up, c, rising) == (up, at_wall)
            &&& strategy_run(up, c, rising.push(crossing)) == (down, mirrored)
            &&& strategy_run(up, c, rising.push(crossing) + falling) == (
                down,
                mirrored - sum_of(falling),
            )
        }),
{
    let up = OffsetStrategy::Cycle { min: mn, max: mx, direction: 1 };
    let down = OffsetStrategy::Cycle { min: mn, max: mx, direction: -1i64 };
    let at_wall = c + sum_of(rising);
    let over = at_wall + crossing;
    let mirrored = 2 * mx - over;
    // The climb: plain accumulation, direction untouched.
    lemma_cycle_matches_linear(mn, mx, c, rising);
    assert(rising.take(rising.len() as int) =~= rising);
    assert(mn <= at_wall <= mx);
    // The crossing step: one mirror at the upper bound, one direction flip.
    assert(rising.push(crossing) =~= rising + seq![crossing]);
    lemma_strategy_run_app(up, c, rising, seq![crossing]);
    let one = seq![crossing];
    assert(one[0] == crossing);
    assert(one.skip(1) =~= Seq::<int>::empty());
    assert(up.offset_value(at_wall, crossing) == reflected(over, mn as int, mx as int));
    assert(reflected(over, mn as int, mx as int) == reflected(mirrored, mn as int, mx as int));
    assert(mn <= mirrored < mx);
    assert(reflected(mirrored, mn as int, mx as int) == mirrored);
    assert(reflected_direction(over, mn as int, mx as int, 1) == reflected_direction(
        mirrored,
        mn as int,
        mx as int,
        -1,
    ));
    assert(reflected_direction(mirrored, mn as int, mx as int, -1) == -1);
    assert(strategy_run(up, at_wall, one) == (down, mirrored)) by {
        reveal_with_fuel(strategy_run, 2);
    }
    assert(strategy_run(up, c, rising.push(crossing)) == (down, mirrored));
    // The descent: the reversed strategy walks the value straight back down.
    lemma_strategy_run_app(up, c, rising.push(crossing), falling);
    assert forall|i: int| 0 <= i <= falling.len() implies mn <= mirrored - sum_of(
        #[trigger] falling.take(i),
    ) <= mx by {
        lemma_sum_take_nonneg(falling, i);
    }
    lemma_cycle_descending_run(mn, mx, mirrored, falling);
    assert(falling.take(falling.len() as int) =~= falling);
}

/// A prefix of nonnegative deltas has a nonnegative sum.
proof fn lemma_sum_take_nonneg(deltas: Seq<int>, i: int)
    requires
        0 <= i <= deltas.len(),
        forall|j: int| 0 <= j < deltas.len() ==> deltas[j] >= 0,
    ensures
        sum_of(deltas.take(i)) >= 0,
    decreases i,
{
    if i > 0 {
        assert(deltas.take(i)[0] == deltas[0]);
        assert(deltas.take(i).skip(1) =~= deltas.skip(1).take(i - 1));
        assert forall|j: int| 0 <= j < deltas.skip(1).len() implies deltas.skip(1)[j] >= 0 by {
            assert(deltas.skip(1)[j] == deltas[j + 1]);
        }
        lemma_sum_take_nonneg(deltas.skip(1), i - 1);
    }
}

/// Round trip at the upper bound: stepping by `eps` from `max` reflects to
/// `max - eps` and flips the direction; stepping by `eps` again moves to
/// `max - 2 * eps`.  Each step ends within `eps` of where it started, so a
/// small bounce never teleports.
pub proof fn lemma_reflection_round_trip(mn: Distance, mx: Distance, eps: int)
    requires
        (OffsetStrategy::Cycle { min: mn, max: mx, direction: 1 }).wf(),
        0 <= eps,
        2 * eps <= mx - mn,
    ensures
        ({
            let s0 = OffsetStrategy::Cycle { min: mn, max: mx, direction: 1 };
            let r1 = s0.offset_value(mx as int, eps);
            let s1 = s0.offset_state(mx as int, eps);
            let r2 = s1.offset_value(r1, -eps);
            r1 == mx - eps && r2 == mx - 2 * eps && mx - r1 <= eps && r1 - r2 <= eps && s1
                == (OffsetStrategy::Cycle {
                min: mn,
                max: mx,
                direction: if eps == 0 {
                    1i64
                } else {
                    -1i64
                },
            })
        }),
{
    if eps == 0 {
        assert(directed(0, 1) == 0);
        assert(reflected(mx as int, mn as int, mx as int) == mx);
        assert(reflected_direction(mx as int, mn as int, mx as int, 1) == 1);
    } else {
        assert(directed(eps, 1) == eps);
        assert(reflected(mx + eps, mn as int, mx as int) == reflected(
            mx - eps,
            mn as int,
            mx as int,
        ));
        assert(reflected(mx - eps, mn as int, mx as int) == mx - eps);
        assert(reflected_direction(mx + eps, mn as int, mx as int, 1) == reflected_direction(
            mx - eps,
            mn as int,
            mx as int,
            -1,
        ));
        assert(reflected_direction(mx - eps, mn as int, mx as int, -1) == -1);
        assert(directed(-eps, -1) == -eps);
        assert(reflected(mx - eps + (-eps), mn as int, mx as int) == mx - 2 * eps);
        assert(reflected_direction(mx - eps + (-eps), mn as int, mx as int, -1) == -1);
    }
}

/// Re-applying a `Limit` strategy with a zero delta is idempotent: one
/// application already clamps the value into `[min, max]`, and a second
/// application leaves it there.
pub proof fn lemma_limit_zero_delta_idempotent(mn: Distance, mx: Distance, c: int)
    requires
        (OffsetStrategy::Limit { min: mn, max: mx }).wf(),
    ensures
        ({
            let s = OffsetStrategy::Limit { min: mn, max: mx };
            s.offset_value(c, 0) == clamped(c, mn as int, mx as int) && s.offset_state(c, 0) == s
                && s.offset_value(s.offset_value(c, 0), 0) == s.offset_value(c, 0)
        }),
{
}

impl Default for OffsetStrategy {
    /// The default strategy applies deltas unchanged.
    fn default() -> (s: Self)
        ensures
            s == OffsetStrategy::Linear,
    {
        Self::linear()
    }
}

/// A mutable (x, y) scalar pair, each axis carrying its own movement
/// strategy: the strategy travels with the value, so copying a coordinate
/// pair copies its strategies too.
#[derive(Clone, Copy, Debug)]
pub struct Coordinates {
    pub x: Distance,
    pub y: Distance,
    pub x_strategy: OffsetStrategy,
    pub y_strategy: OffsetStrategy,
}

impl Coordinates {
    /// Structural validity: both values in the coordinate range, both
    /// strategies well formed.
    pub open spec fn wf(self) -> bool {
        coord_in_range(self.x as int) && coord_in_range(self.y as int) && self.x_strategy.wf()
            && self.y_strategy.wf()
    }
}

/// The coordinate pair after one `offset(dx, dy)` step: each axis is routed
/// through its own strategy, which updates its own state.
pub open spec fn coords_after_offset(c: Coordinates, dx: int, dy: int) -> Coordinates {
    Coordinates {
        x: c.x_strategy.offset_value(c.x as int, dx) as i64,
        y: c.y_strategy.offset_value(c.y as int, dy) as i64,
        x_strategy: c.x_strategy.offset_state(c.x as int, dx),
        y_strategy: c.y_strategy.offset_state(c.y as int, dy),
    }
}

/// The new value an axis takes stays in the coordinate range.  True without
/// further ado for `Limit` and `Cycle` (the band is in range); for `Linear`
/// it is a condition on the sum.
pub open spec fn offset_stays_in_range(s: OffsetStrategy, c: int, d: int) -> bool {
    coord_in_range(s.offset_value(c, d))
}

/// For a banded strategy the offset result is always in the coordinate
/// range, whatever the current value and delta.
pub proof fn lemma_banded_offset_in_range(s: OffsetStrategy, c: int, d: int)
    requires
        s.wf(),
        !(s is Linear),
    ensures
        offset_stays_in_range(s, c, d),
{
    match s {
        OffsetStrategy::Cycle { min, max, direction } => {
            lemma_cycle_bounded(min, max, direction, c, d);
        },
        _ => {},
    }
}

/// Uniform read/write access to an (x, y) coordinate pair.  Implementors
/// expose which pair they carry (`coords`) and what they become when it is
/// replaced (`with_coords`); everything else is defined on top of those.
pub trait XY: Sized {
    /// The coordinate pair this object exposes.
    spec fn coords(&self) -> Coordinates;

    /// This object with its coordinate pair replaced by `c`.
    spec fn with_coords(&self, c: Coordinates) -> Self;

    /// Replacing the pair with its current value changes nothing.
    proof fn lemma_with_current_coords(&self)
        ensures
            self.with_coords(self.coords()) == *self,
    ;

    /// Reading back a replaced pair yields the replacement.
    proof fn lemma_coords_of_with(&self, c: Coordinates)
        ensures
            self.with_coords(c).coords() == c,
    ;

    fn get_coordinates(&self) -> (c: Coordinates)
        ensures
            c == self.coords(),
    ;

    fn get_coordinates_mut(&mut self) -> (c: &mut Coordinates)
        ensures
            *c == old(self).coords(),
            *final(self) == old(self).with_coords(*final(c)),
    ;

    fn x(&self) -> (r: Distance)
        ensures
            r == self.coords().x,
    {
        self.get_coordinates().x
    }

    fn y(&self) -> (r: Distance)
        ensures
            r == self.coords().y,
    {
        self.get_coordinates().y
    }

    fn set_x(&mut self, x: Distance)
        ensures
            *final(self) == old(self).with_coords(
                (Coordinates { x, ..old(self).coords() }),
            ),
    {
        self.get_coordinates_mut().x = x;
    }

    fn set_y(&mut self, y: Distance)
        ensures
            *final(self) == old(self).with_coords(
                (Coordinates { y, ..old(self).coords() }),
            ),
    {
        self.get_coordinates_mut().y = y;
    }

    fn set(&mut self, x: Distance, y: Distance)
        ensures
            *final(self) == old(self).with_coords(
                (Coordinates { x, y, ..old(self).coords() }),
            ),
    {
        let c = self.get_coordinates_mut();
        c.x = x;
        c.y = y;
    }

    fn set_offset_x(&mut self, strategy: OffsetStrategy)
        ensures
            *final(self) == old(self).with_coords(
                (Coordinates { x_strategy: strategy, ..old(self).coords() }),
            ),
    {
        self.get_coordinates_mut().x_strategy = strategy;
    }

    fn set_offset_y(&mut self, strategy: OffsetStrategy)
        ensures
            *final(self) == old(self).with_coords(
                (Coordinates { y_strategy: strategy, ..old(self).coords() }),
            ),
    {
        self.get_coordinates_mut().y_strategy = strategy;
    }

    fn set_offset_xy(&mut self, strategy: OffsetStrategy)
        ensures
            *final(self) == old(self).with_coords(
                (Coordinates {
                    x_strategy: strategy,
                    y_strategy: strategy,
                    ..old(self).coords()
                }),
            ),
    {
        let c = self.get_coordinates_mut();
        c.x_strategy = strategy;
        c.y_strategy = strategy;
    }

    /// Routes `(offset_x, offset_y)` through the per-axis strategies and
    /// writes both results back in one step.
    fn offset(&mut self, offset_x: Distance, offset_y: Distance)
        requires
            old(self).coords().wf(),
            in_range(offset_x as int),
            in_range(offset_y as int),
            offset_stays_in_range(old(self).coords().x_strategy, old(self).coords().x as int, offset_x as int),
            offset_stays_in_range(old(self).coords().y_strategy, old(self).coords().y as int, offset_y as int),
        ensures
            *final(self) == old(self).with_coords(
                coords_after_offset(old(self).coords(), offset_x as int, offset_y as int),
            ),
            final(self).coords().wf(),
    {
        let x = self.x();
        let y = self.y();
        let this = self.get_coordinates_mut();
        let new_x = this.x_strategy.offset(x, offset_x);
        let new_y = this.y_strategy.offset(y, offset_y);
        this.x = new_x;
        this.y = new_y;
        proof {
            old(self).lemma_coords_of_with(
                coords_after_offset(old(self).coords(), offset_x as int, offset_y as int),
            );
        }
    }
}

impl XY for Coordinates {
    open spec fn coords(&self) -> Coordinates {
        *self
    }

    open spec fn with_coords(&self, c: Coordinates) -> Coordinates {
        c
    }

    proof fn lemma_with_current_coords(&self) {
    }

    proof fn lemma_coords_of_with(&self, c: Coordinates) {
    }

    fn get_coordinates(&self) -> Coordinates {
        *self
    }

    fn get_coordinates_mut(&mut self) -> &mut Coordinates {
        self
    }
}

/// A coordinate pair tagged as the location of a top-left corner.
#[derive(Clone, Copy, Debug)]
pub struct Position(pub Coordinates);

impl Position {
    /// A position at `(x, y)` with pass-through strategies on both axes.
    pub fn new(x: Distance, y: Distance) -> (p: Self)
        ensures
            p == (Position(
                Coordinates {
                    x,
                    y,
                    x_strategy: OffsetStrategy::Linear,
                    y_strategy: OffsetStrategy::Linear,
                },
            )),
    {
        Self(Coordinates { x, y, ..Default::default() })
    }
}

impl XY for Position {
    open spec fn coords(&self) -> Coordinates {
        self.0
    }

    open spec fn with_coords(&self, c: Coordinates) -> Position {
        Position(c)
    }

    proof fn lemma_with_current_coords(&self) {
    }

    proof fn lemma_coords_of_with(&self, c: Coordinates) {
    }

    fn get_coordinates(&self) -> Coordinates {
        self.0
    }

    fn get_coordinates_mut(&mut self) -> &mut Coordinates {
        &mut self.0
    }
}

impl Default for Position {
    /// The origin, with pass-through strategies.
    fn default() -> (p: Self)
        ensures
            p == (Position(
                Coordinates {
                    x: 0,
                    y: 0,
                    x_strategy: OffsetStrategy::Linear,
                    y_strategy: OffsetStrategy::Linear,
                },
            )),
    {
        Position::new(0, 0)
    }
}

/// A coordinate pair tagged as an extent.  Strategies on a size are normally
/// unused but the type permits them for uniformity.
#[derive(Clone, Copy, Debug)]
pub struct Size(pub Coordinates);

impl Size {
    /// A size of `x` by `y` with pass-through strategies on both axes.
    pub fn new(x: Distance, y: Distance) -> (s: Self)
        ensures
            s == (Size(
                Coordinates {
                    x,
                    y,
                    x_strategy: OffsetStrategy::Linear,
                    y_strategy: OffsetStrategy::Linear,
                },
            )),
    {
        Self(Coordinates { x, y, ..Default::default() })
    }
}

impl XY for Size {
    open spec fn coords(&self) -> Coordinates {
        self.0
    }

    open spec fn with_coords(&self, c: Coordinates) -> Size {
        Size(c)
    }

    proof fn lemma_with_current_coords(&self) {
    }

    proof fn lemma_coords_of_with(&self, c: Coordinates) {
    }

    fn get_coordinates(&self) -> Coordinates {
        self.0
    }

    fn get_coordinates_mut(&mut self) -> &mut Coordinates {
        &mut self.0
    }
}

impl Default for Coordinates {
    /// The origin, with pass-through strategies on both axes.
    fn default() -> (c: Self)
        ensures
            c == (Coordinates {
                x: 0,
                y: 0,
                x_strategy: OffsetStrategy::Linear,
                y_strategy: OffsetStrategy::Linear,
            }),
    {
        Coordinates {
            x: 0,
            y: 0,
            x_strategy: OffsetStrategy::Linear,
            y_strategy: OffsetStrategy::Linear,
        }
    }
}

/// A rectangular extent: a position, a size, and the derived bottom-right
/// corner.  `position` and `size` stay independently settable; the extent is
/// always derived, never stored.
pub trait Rect: Sized {
    /// The rectangle's top-left corner.
    spec fn spec_position(&self) -> Position;

    /// The rectangle's extent.
    spec fn spec_size(&self) -> Size;

    /// This rectangle with its position replaced by `p` and nothing else
    /// changed.
    spec fn with_position(&self, p: Position) -> Self;

    fn position(&self) -> (p: Position)
        ensures
            p == self.spec_position(),
    ;

    /// Raw write access to the position alone.  A composite that derives
    /// other state from its position (the fleet grid) is not repositioned by
    /// writes through this handle.
    fn position_mut(&mut self) -> (p: &mut Position)
        ensures
            *p == old(self).spec_position(),
            *final(self) == old(self).with_position(*final(p)),
    ;

    fn size(&self) -> (s: Size)
        ensures
            s == self.spec_size(),
    ;

    /// The bottom-right corner: position plus size, axis by axis.
    fn extent(&self) -> (e: Position)
        requires
            coord_in_range(self.spec_position().0.x + self.spec_size().0.x),
            coord_in_range(self.spec_position().0.y + self.spec_size().0.y),
        ensures
            e.0.x == self.spec_position().0.x + self.spec_size().0.x,
            e.0.y == self.spec_position().0.y + self.spec_size().0.y,
            e.0.x_strategy == OffsetStrategy::Linear,
            e.0.y_strategy == OffsetStrategy::Linear,
    {
        let origin = self.position();
        let size = self.size();
        Position::new(origin.x() + size.x(), origin.y() + size.y())
    }
}

} // verus!
