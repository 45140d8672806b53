//! Fixed-point coordinates and the conversion between screen and world space.
//!
//! Screen coordinates count thousandths of a pixel; world coordinates count
//! billionths of a world unit. One world unit spans 400 pixels, so one screen
//! step is 2500 world steps.
use vstd::prelude::*;

verus! {

/// World steps per screen step.
pub const SCREEN_TO_WORLD: i64 = 2500;

/// Largest magnitude of a body position that the interaction layer accepts.
pub const WORLD_LIMIT: i64 = 0x0100_0000_0000_0000;

/// A vector in world space.
#[derive(Clone, Copy, Debug, PartialEq, Eq, Structural)]
pub struct Vec2 {
    pub x: i64,
    pub y: i64,
}

impl Vec2 {
    pub open spec fn within(self, limit: int) -> bool {
        -limit <= self.x <= limit && -limit <= self.y <= limit
    }

    /// A position that the interaction layer accepts from the physics world.
    pub open spec fn in_world(self) -> bool {
        self.within(WORLD_LIMIT as int)
    }

    pub fn zero() -> (r: Vec2)
        ensures
            r.x == 0 && r.y == 0,
    {
        Vec2 { x: 0, y: 0 }
    }

    pub fn add(self, o: Vec2) -> (r: Vec2)
        requires
            i64::MIN <= self.x + o.x <= i64::MAX,
            i64::MIN <= self.y + o.y <= i64::MAX,
        ensures
            r.x == self.x + o.x,
            r.y == self.y + o.y,
    {
        Vec2 { x: self.x + o.x, y: self.y + o.y }
    }

    pub fn sub(self, o: Vec2) -> (r: Vec2)
        requires
            i64::MIN <= self.x - o.x <= i64::MAX,
            i64::MIN <= self.y - o.y <= i64::MAX,
        ensures
            r.x == self.x - o.x,
            r.y == self.y - o.y,
    {
        Vec2 { x: self.x - o.x, y: self.y - o.y }
    }

    pub fn scale(self, k: i64) -> (r: Vec2)
        requires
            i64::MIN <= self.x * k <= i64::MAX,
            i64::MIN <= self.y * k <= i64::MAX,
        ensures
            r.x == self.x * k,
            r.y == self.y * k,
    {
        Vec2 { x: self.x * k, y: self.y * k }
    }
}

/// A screen coordinate in world steps.
pub open spec fn world_of(s: int) -> int {
    s * SCREEN_TO_WORLD
}

/// A world coordinate in screen steps, rounded down.
pub open spec fn screen_of(w: int) -> int {
    w / (SCREEN_TO_WORLD as int)
}

/// The world point under a screen position.
pub open spec fn world_point_of(x: i32, y: i32) -> Vec2 {
    Vec2 { x: world_of(x as int) as i64, y: world_of(y as int) as i64 }
}

/// Largest magnitude of a world coordinate converted from the screen.
pub open spec fn screen_reach() -> int {
    0x8000_0000 * SCREEN_TO_WORLD
}

pub fn to_world(s: i32) -> (r: i64)
    ensures
        r == world_of(s as int),
        -screen_reach() <= r <= screen_reach(),
{
    assert(-0x8000_0000 * 2500 <= s * 2500 <= 0x8000_0000 * 2500) by (nonlinear_arith)
        requires
            -0x8000_0000 <= s <= 0x7fff_ffff,
    ;
    (s as i64) * SCREEN_TO_WORLD
}

pub fn world_point(x: i32, y: i32) -> (r: Vec2)
    ensures
        r == world_point_of(x, y),
        r.within(screen_reach()),
{
    Vec2 { x: to_world(x), y: to_world(y) }
}

pub fn to_screen(w: i64) -> (r: i64)
    ensures
        r == screen_of(w as int),
{
    if w >= 0 {
        w / SCREEN_TO_WORLD
    } else {
        let m: i64 = -(w + 1);
        let q: i64 = m / SCREEN_TO_WORLD;
        assert(w as int / 2500 == -q - 1) by (nonlinear_arith)
            requires
                w < 0,
                m == -(w + 1),
                q == m / 2500,
                m >= 0,
        ;
        -q - 1
    }
}

/// Converting a screen coordinate to world space and back gives it again.
pub proof fn lemma_screen_world_round_trip(s: int)
    ensures
        screen_of(world_of(s)) == s,
{
    assert((s * 2500) / 2500 == s) by (nonlinear_arith);
}

} // verus!
