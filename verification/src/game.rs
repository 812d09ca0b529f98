//! Geometry and entity types, and the ball physics / scoring state
//! machine.
//!
//! A [`Block`] is a movable axis-aligned rectangle (the visual `rect`)
//! with an independent collision rectangle (`border`) and an integer
//! velocity.  The ball's reactions to walls, paddles and the scoring
//! boundaries are the methods of the [`Ball`] capability, implemented
//! by `Block`; each reaction is specified exactly by a spec-level step
//! function (`wall_step`, `react_step`, `score_step`, `move_step`,
//! `reset_step`) so that callers and proofs can speak of one tick as a
//! pure function of the previous state.

use vstd::prelude::*;

verus! {

/// Width of the playing field in pixels.
pub const WINDOW_WIDTH: u32 = 800;
/// Height of the playing field in pixels.
pub const WINDOW_HEIGHT: u32 = 800;
/// Side of one grid unit; entity sizes are multiples of this.
pub const BLOCK_SIZE: u32 = 5;
/// Both coordinates of the fixed point the ball returns to after a score.
pub const RESET_POS: i32 = 400;

/// An axis-aligned rectangle: position of the top-left corner plus size.
#[derive(Debug, Clone, Copy, PartialEq, Eq, Structural)]
pub struct Rect {
    pub x: i32,
    pub y: i32,
    pub w: u32,
    pub h: u32,
}

impl Rect {
    /// Pure constructor; no validation is performed.
    pub fn new(x: i32, y: i32, w: u32, h: u32) -> (r: Self)
        ensures
            r == (Rect { x, y, w, h }),
    {
        Self { x, y, w, h }
    }
}

/// A movable entity: what is drawn (`rect`), what is tested for
/// collision (`border`), and a velocity in units per tick.
///
/// `border` starts equal to `rect` and the two are translated by the
/// same velocity every tick, so for the ball they stay congruent.
#[derive(Debug, Clone, Copy, PartialEq, Eq, Structural)]
pub struct Block {
    pub rect: Rect,
    pub border: Rect,
    pub velocity_x: i32,
    pub velocity_y: i32,
}

/// Negation of a velocity component, as the machine computes it.
/// Exact whenever `v != i32::MIN`.
pub open spec fn flip_i32(v: i32) -> i32 {
    (-(v as int)) as i32
}

/// The ball touches or passes the left edge of the field, or its right
/// edge (`x + 10 * BLOCK_SIZE`) touches or passes the right edge.
pub open spec fn side_wall_hit(b: Block) -> bool {
    b.border.x <= 0 || b.border.x + (BLOCK_SIZE as int) * 10 >= WINDOW_WIDTH as int
}

/// The top edge of the ball's collider touches or passes the top of the
/// field.  The bottom boundary is deliberately not a wall: it is a
/// scoring boundary.
pub open spec fn top_wall_hit(b: Block) -> bool {
    b.border.y <= 0
}

/// State of the ball after one wall reaction: horizontal velocity
/// reflected on a side-wall hit, vertical velocity reflected on a
/// top-wall hit, everything else unchanged.
pub open spec fn wall_step(b: Block) -> Block {
    Block {
        velocity_x: if side_wall_hit(b) { flip_i32(b.velocity_x) } else { b.velocity_x },
        velocity_y: if top_wall_hit(b) { flip_i32(b.velocity_y) } else { b.velocity_y },
        ..b
    }
}

/// The ball's collider touches the paddle: its top or bottom edge is
/// exactly at the paddle's y coordinate while its x coordinate lies
/// within the paddle's horizontal extent.
pub open spec fn paddle_hit(b: Block, object: Block) -> bool {
    &&& (b.border.y == object.border.y
        || b.border.y + (BLOCK_SIZE as int) * 10 == object.border.y)
    &&& b.border.x >= object.border.x
    &&& b.border.x <= object.border.x + object.rect.w
}

/// State of the ball after reacting to one paddle: vertical velocity
/// reflected exactly on a hit.
pub open spec fn react_step(b: Block, object: Block) -> Block {
    if paddle_hit(b, object) {
        Block { velocity_y: flip_i32(b.velocity_y), ..b }
    } else {
        b
    }
}

/// The ball's collider has fully crossed the bottom scoring boundary.
pub open spec fn bottom_exit(b: Block) -> bool {
    b.border.y + b.border.h <= 0
}

/// The ball's collider has reached the top scoring boundary (the far
/// side of the field, at `WINDOW_HEIGHT`).
pub open spec fn top_exit(b: Block) -> bool {
    b.border.y >= WINDOW_HEIGHT as int
}

/// State of the ball after a reset: both rectangles moved to the fixed
/// centre point, both velocity components zeroed, sizes kept.
pub open spec fn reset_step(b: Block) -> Block {
    Block {
        rect: Rect { x: RESET_POS, y: RESET_POS, ..b.rect },
        border: Rect { x: RESET_POS, y: RESET_POS, ..b.border },
        velocity_x: 0,
        velocity_y: 0,
    }
}

/// Ball and score after the scoring reaction: a bottom exit awards the
/// second component and resets the ball, a top exit awards the first
/// component and resets the ball, otherwise nothing changes.
pub open spec fn score_step(b: Block, score: (u32, u32)) -> (Block, (u32, u32)) {
    if bottom_exit(b) {
        (reset_step(b), (score.0, (score.1 + 1) as u32))
    } else if top_exit(b) {
        (reset_step(b), ((score.0 + 1) as u32, score.1))
    } else {
        (b, score)
    }
}

/// State of an entity after one position update: both rectangles
/// translated by the velocity, as the machine computes it.
pub open spec fn move_step(b: Block) -> Block {
    Block {
        rect: Rect {
            x: (b.rect.x + b.velocity_x) as i32,
            y: (b.rect.y + b.velocity_y) as i32,
            ..b.rect
        },
        border: Rect {
            x: (b.border.x + b.velocity_x) as i32,
            y: (b.border.y + b.velocity_y) as i32,
            ..b.border
        },
        velocity_x: b.velocity_x,
        velocity_y: b.velocity_y,
    }
}

/// State of the ball after reacting, in order, to the first `n`
/// paddles of `paddles`.
pub open spec fn react_upto(b: Block, paddles: Seq<Block>, n: int) -> Block
    decreases n,
{
    if n <= 0 {
        b
    } else {
        react_step(react_upto(b, paddles, n - 1), paddles[n - 1])
    }
}

pub open spec fn in_i32(v: int) -> bool {
    i32::MIN <= v <= i32::MAX
}

/// The ball can be translated by its velocity or by the reflection of
/// it without overflowing a coordinate.
pub open spec fn ball_move_safe(b: Block) -> bool {
    &&& in_i32(b.border.x + b.velocity_x)
    &&& in_i32(b.border.x - b.velocity_x)
    &&& in_i32(b.border.y + b.velocity_y)
    &&& in_i32(b.border.y - b.velocity_y)
}

/// The paddle's edges can be computed without overflow.
pub open spec fn paddle_react_safe(object: Block) -> bool {
    &&& object.rect.w <= i32::MAX
    &&& object.border.x + object.rect.w <= i32::MAX
}

/// A position update does not overflow any coordinate.
pub open spec fn update_safe(b: Block) -> bool {
    &&& in_i32(b.rect.x + b.velocity_x)
    &&& in_i32(b.rect.y + b.velocity_y)
    &&& in_i32(b.border.x + b.velocity_x)
    &&& in_i32(b.border.y + b.velocity_y)
}

/// The wall reaction neither overflows the right-edge computation nor
/// negates an unrepresentable velocity.
pub open spec fn wall_safe(b: Block) -> bool {
    &&& b.border.x + (BLOCK_SIZE as int) * 10 <= i32::MAX
    &&& (side_wall_hit(b) ==> b.velocity_x != i32::MIN)
    &&& (top_wall_hit(b) ==> b.velocity_y != i32::MIN)
}

/// The paddle reaction neither overflows the edge computations nor
/// negates an unrepresentable velocity.
pub open spec fn react_safe(b: Block, object: Block) -> bool {
    &&& b.border.y + (BLOCK_SIZE as int) * 10 <= i32::MAX
    &&& object.rect.w <= i32::MAX
    &&& object.border.x + object.rect.w <= i32::MAX
    &&& (paddle_hit(b, object) ==> b.velocity_y != i32::MIN)
}

/// The scoring reaction neither overflows the bottom-edge computation
/// nor increments a saturated score component.
pub open spec fn score_safe(b: Block, score: (u32, u32)) -> bool {
    &&& b.border.h <= i32::MAX
    &&& b.border.y + b.border.h <= i32::MAX
    &&& (bottom_exit(b) ==> score.1 < u32::MAX)
    &&& (top_exit(b) ==> score.0 < u32::MAX)
}

/// Horizontal extent of a paddle as used by the paddle-hit test: the
/// width of its visual rectangle.
pub fn calculate_object_right(object: &Block) -> (r: i32)
    requires
        object.rect.w <= i32::MAX,
    ensures
        r == object.rect.w,
{
    object.rect.w as i32
}

/// The ball's reactions, invoked once per tick in the fixed order
/// wall, paddle (once per opposing entity), score, move.
pub trait Ball: Sized {
    /// When the wall reaction is free of overflow.
    spec fn wall_ready(self) -> bool;

    /// When the reaction to `object` is free of overflow.
    spec fn react_ready(self, object: Block) -> bool;

    /// When the scoring reaction is free of overflow.
    spec fn score_ready(self, score: (u32, u32)) -> bool;

    /// Reflect off the side and top walls.
    fn handle_wall(&mut self)
        requires
            old(self).wall_ready(),
    ;

    /// React to one opposing paddle; reports whether it was hit.
    fn react_object(&mut self, object: &Block) -> (hit: bool)
        requires
            old(self).react_ready(*object),
    ;

    /// Award a point and reset the ball when it has crossed a scoring
    /// boundary.
    fn handle_score(&mut self, score: &mut (u32, u32))
        requires
            old(self).score_ready(*old(score)),
    ;

    /// Move the ball back to the fixed centre point and stop it.
    fn reset(&mut self);
}

impl Ball for Block {
    open spec fn wall_ready(self) -> bool {
        wall_safe(self)
    }

    open spec fn react_ready(self, object: Block) -> bool {
        react_safe(self, object)
    }

    open spec fn score_ready(self, score: (u32, u32)) -> bool {
        score_safe(self, score)
    }

    fn handle_wall(&mut self)
        ensures
            *final(self) == wall_step(*old(self)),
    {
        if self.border.x <= 0 || self.border.x + BLOCK_SIZE as i32 * 10 >= WINDOW_WIDTH as i32 {
            self.velocity_x = -self.velocity_x;
        }
        if self.border.y <= 0 {
            self.velocity_y = -self.velocity_y;
        }
    }

    fn react_object(&mut self, object: &Block) -> (hit: bool)
        ensures
            hit == paddle_hit(*old(self), *object),
            *final(self) == react_step(*old(self), *object),
    {
        if (self.border.y == object.border.y
            || self.border.y + BLOCK_SIZE as i32 * 10 == object.border.y)
            && (self.border.x >= object.border.x
                && self.border.x <= object.border.x + calculate_object_right(object))
        {
            self.velocity_y = -self.velocity_y;
            return true;
        }
        false
    }

    fn handle_score(&mut self, score: &mut (u32, u32))
        ensures
            (*final(self), *final(score)) == score_step(*old(self), *old(score)),
    {
        if self.border.y + self.border.h as i32 <= 0 {
            score.1 += 1;
            self.reset();
        }
        if self.border.y >= WINDOW_HEIGHT as i32 {
            score.0 += 1;
            self.reset();
        }
    }

    fn reset(&mut self)
        ensures
            *final(self) == reset_step(*old(self)),
    {
        self.rect.x = RESET_POS;
        self.rect.y = RESET_POS;
        self.border.x = RESET_POS;
        self.border.y = RESET_POS;
        self.velocity_x = 0;
        self.velocity_y = 0;
    }
}

impl Block {
    /// A new entity whose collider starts congruent to its visual
    /// rectangle.
    pub fn new(rect: Rect, velocity_x: i32, velocity_y: i32) -> (b: Self)
        ensures
            b == (Block { rect, border: rect, velocity_x, velocity_y }),
    {
        let border = Rect::new(rect.x, rect.y, rect.w, rect.h);
        Self { rect, border, velocity_x, velocity_y }
    }

    /// Translate both rectangles by the velocity.
    pub fn update_position(&mut self)
        requires
            update_safe(*old(self)),
        ensures
            *final(self) == move_step(*old(self)),
    {
        self.rect.x += self.velocity_x;
        self.rect.y += self.velocity_y;
        self.border.x += self.velocity_x;
        self.border.y += self.velocity_y;
    }

    /// Position of the visual rectangle.
    pub fn get_position(&self) -> (p: (i32, i32))
        ensures
            p == (self.rect.x, self.rect.y),
    {
        (self.rect.x, self.rect.y)
    }

    /// Size of the visual rectangle.
    pub fn get_size(&self) -> (s: (u32, u32))
        ensures
            s == (self.rect.w, self.rect.h),
    {
        (self.rect.w, self.rect.h)
    }
}

} // verus!
