//! The laws the physics obeys, stated and proved over the spec-level
//! step functions that the executable reactions are specified by.

use vstd::prelude::*;

use crate::game::BLOCK_SIZE;
use crate::game::Block;
use crate::game::RESET_POS;
use crate::game::bottom_exit;
use crate::game::paddle_hit;
use crate::game::react_step;
use crate::game::reset_step;
use crate::game::score_step;
use crate::game::side_wall_hit;
use crate::game::top_exit;
use crate::game::top_wall_hit;
use crate::game::wall_step;

verus! {

/// A ball whose collider top edge has reached the top boundary leaves
/// the wall reaction with its vertical velocity sign reversed.
pub proof fn wall_reflects_top(b: Block)
    requires
        b.velocity_y != i32::MIN,
        top_wall_hit(b),
    ensures
        wall_step(b).velocity_y as int == -(b.velocity_y as int),
{
}

/// Away from the top boundary the wall reaction never touches the
/// vertical velocity — in particular a bottom-boundary crossing never
/// reflects it, since the bottom is a scoring boundary, not a wall.
pub proof fn wall_ignores_bottom(b: Block)
    requires
        !top_wall_hit(b),
    ensures
        wall_step(b).velocity_y == b.velocity_y,
{
}

/// A ball on or past the left edge, or whose right edge is on or past
/// the field width, leaves the wall reaction with its horizontal
/// velocity sign reversed.
pub proof fn wall_reflects_sides(b: Block)
    requires
        b.velocity_x != i32::MIN,
        side_wall_hit(b),
    ensures
        wall_step(b).velocity_x as int == -(b.velocity_x as int),
{
}

/// Between the side walls the horizontal velocity is unchanged.
pub proof fn wall_keeps_horizontal(b: Block)
    requires
        !side_wall_hit(b),
    ensures
        wall_step(b).velocity_x == b.velocity_x,
{
}

/// A ball whose collider top or bottom edge lies exactly on the
/// paddle's y coordinate, with its x coordinate inside the paddle's
/// horizontal extent, hits the paddle: the reaction reverses its
/// vertical velocity and changes nothing else.
pub proof fn react_hits_on_paddle(b: Block, paddle: Block)
    requires
        b.velocity_y != i32::MIN,
        b.border.y == paddle.border.y || b.border.y + (BLOCK_SIZE as int) * 10
            == paddle.border.y,
        paddle.border.x <= b.border.x <= paddle.border.x + paddle.rect.w,
    ensures
        paddle_hit(b, paddle),
        react_step(b, paddle).velocity_y as int == -(b.velocity_y as int),
        react_step(b, paddle).velocity_x == b.velocity_x,
        react_step(b, paddle).rect == b.rect,
        react_step(b, paddle).border == b.border,
{
}

/// A ball whose x coordinate lies outside the paddle's horizontal
/// extent misses it, and the reaction leaves the ball untouched.
pub proof fn react_misses_off_paddle(b: Block, paddle: Block)
    requires
        b.border.x < paddle.border.x || b.border.x > paddle.border.x + paddle.rect.w,
    ensures
        !paddle_hit(b, paddle),
        react_step(b, paddle) == b,
{
}

/// After a reset, both rectangles sit at the fixed reset point and
/// both velocity components are exactly zero, regardless of the prior
/// state of the ball.
pub proof fn reset_centres_and_stops(b: Block)
    ensures
        reset_step(b).rect.x == RESET_POS,
        reset_step(b).rect.y == RESET_POS,
        reset_step(b).border.x == RESET_POS,
        reset_step(b).border.y == RESET_POS,
        reset_step(b).velocity_x == 0,
        reset_step(b).velocity_y == 0,
{
}

/// One scoring reaction raises the score sum by at most one, awards a
/// point only when the ball has crossed a scoring boundary, and is the
/// identity otherwise.
pub proof fn score_changes_by_at_most_one(b: Block, score: (u32, u32))
    requires
        bottom_exit(b) ==> score.1 < u32::MAX,
        top_exit(b) ==> score.0 < u32::MAX,
    ensures
        score_step(b, score).1.0 + score_step(b, score).1.1 <= score.0 + score.1 + 1,
        score_step(b, score).1 != score ==> bottom_exit(b) || top_exit(b),
        !(bottom_exit(b) || top_exit(b)) ==> score_step(b, score) == (b, score),
{
}

} // verus!
