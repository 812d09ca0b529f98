use pong_core::game::Ball;
use pong_core::game::Block;
use pong_core::game::Rect;
use pong_core::game::calculate_object_right;

fn ball_at(x: i32, y: i32, vx: i32, vy: i32) -> Block {
    Block::new(Rect::new(x, y, 50, 50), vx, vy)
}

fn paddle_at(x: i32, y: i32) -> Block {
    Block::new(Rect::new(x, y, 120, 15), 50, 50)
}

#[test]
fn rect_new_stores_fields() {
    let r = Rect::new(40, 40, 50, 50);
    assert_eq!(r.x, 40);
    assert_eq!(r.y, 40);
    assert_eq!(r.w, 50);
    assert_eq!(r.h, 50);
}

#[test]
fn block_new_makes_collider_congruent() {
    let b = ball_at(40, 40, 25, 5);
    assert_eq!(b.border, b.rect);
    assert_eq!(b.velocity_x, 25);
    assert_eq!(b.velocity_y, 5);
    assert_eq!(b.get_position(), (40, 40));
    assert_eq!(b.get_size(), (50, 50));
}

#[test]
fn update_position_moves_linearly() {
    // The ball starts at (40,40) with velocity (25,5); with nothing in
    // the way each update advances it by exactly its velocity.
    let mut b = ball_at(40, 40, 25, 5);
    for k in 1..=5 {
        b.update_position();
        assert_eq!(b.get_position(), (40 + 25 * k, 40 + 5 * k));
        assert_eq!(b.border.x, 40 + 25 * k);
        assert_eq!(b.border.y, 40 + 5 * k);
    }
    assert_eq!(b.velocity_x, 25);
    assert_eq!(b.velocity_y, 5);
}

#[test]
fn wall_flips_vertical_at_top() {
    let mut b = ball_at(100, 0, 25, -5);
    b.handle_wall();
    assert_eq!(b.velocity_y, 5);
    assert_eq!(b.velocity_x, 25);
    assert_eq!(b.get_position(), (100, 0));
}

#[test]
fn wall_never_bounces_at_bottom() {
    // The bottom boundary scores instead of bouncing: a ball far past
    // it keeps its vertical velocity through the wall reaction.
    let mut b = ball_at(100, 900, 25, 5);
    b.handle_wall();
    assert_eq!(b.velocity_y, 5);
    assert_eq!(b.velocity_x, 25);
}

#[test]
fn wall_flips_horizontal_at_left_edge() {
    let mut b = ball_at(0, 100, -25, 5);
    b.handle_wall();
    assert_eq!(b.velocity_x, 25);
    assert_eq!(b.velocity_y, 5);
}

#[test]
fn wall_flips_horizontal_at_right_edge() {
    // The right edge of the collider is x + 50; it reaches the field
    // width of 800 at x = 750.
    let mut b = ball_at(750, 100, 25, 5);
    b.handle_wall();
    assert_eq!(b.velocity_x, -25);
}

#[test]
fn wall_keeps_horizontal_in_the_open() {
    let mut b = ball_at(375, 100, 25, 5);
    b.handle_wall();
    assert_eq!(b.velocity_x, 25);
    assert_eq!(b.velocity_y, 5);
}

#[test]
fn react_hits_at_paddle_top_edge() {
    let paddle = paddle_at(300, 500);
    let mut b = ball_at(310, 500, 25, 5);
    let hit = b.react_object(&paddle);
    assert!(hit);
    assert_eq!(b.velocity_y, -5);
    assert_eq!(b.velocity_x, 25);
    assert_eq!(b.get_position(), (310, 500));
}

#[test]
fn react_hits_with_ball_bottom_edge() {
    // The ball's bottom edge is y + 50, so a ball at y = 450 touches a
    // paddle at y = 500.
    let paddle = paddle_at(300, 500);
    let mut b = ball_at(300, 450, 25, 5);
    let hit = b.react_object(&paddle);
    assert!(hit);
    assert_eq!(b.velocity_y, -5);
}

#[test]
fn react_hits_at_far_end_of_paddle() {
    // x within [paddle.x, paddle.x + width] counts, inclusive.
    let paddle = paddle_at(300, 500);
    let mut b = ball_at(420, 500, 25, 5);
    assert!(b.react_object(&paddle));
}

#[test]
fn react_misses_outside_paddle_extent() {
    let paddle = paddle_at(300, 500);
    let mut left = ball_at(299, 500, 25, 5);
    assert!(!left.react_object(&paddle));
    assert_eq!(left.velocity_y, 5);
    let mut right = ball_at(421, 500, 25, 5);
    assert!(!right.react_object(&paddle));
    assert_eq!(right.velocity_y, 5);
}

#[test]
fn react_misses_at_other_heights() {
    let paddle = paddle_at(300, 500);
    let mut b = ball_at(310, 499, 25, 5);
    assert!(!b.react_object(&paddle));
    assert_eq!(b.velocity_y, 5);
}

#[test]
fn score_awards_second_on_bottom_exit() {
    // Collider bottom edge at or below zero: the second component is
    // awarded and the ball resets.
    let mut b = ball_at(100, -60, 25, 5);
    let mut score = (3u32, 7u32);
    b.handle_score(&mut score);
    assert_eq!(score, (3, 8));
    assert_eq!(b.get_position(), (400, 400));
    assert_eq!(b.border.x, 400);
    assert_eq!(b.border.y, 400);
    assert_eq!(b.velocity_x, 0);
    assert_eq!(b.velocity_y, 0);
}

#[test]
fn score_awards_first_on_top_exit() {
    let mut b = ball_at(100, 800, 25, 5);
    let mut score = (3u32, 7u32);
    b.handle_score(&mut score);
    assert_eq!(score, (4, 7));
    assert_eq!(b.get_position(), (400, 400));
}

#[test]
fn score_leaves_midfield_ball_alone() {
    let mut b = ball_at(100, 300, 25, 5);
    let mut score = (3u32, 7u32);
    b.handle_score(&mut score);
    assert_eq!(score, (3, 7));
    assert_eq!(b.get_position(), (100, 300));
    assert_eq!(b.velocity_x, 25);
}

#[test]
fn reset_centres_and_stops_regardless_of_state() {
    let mut b = ball_at(-1000, 999, 123, -456);
    b.reset();
    assert_eq!(b.rect.x, 400);
    assert_eq!(b.rect.y, 400);
    assert_eq!(b.border.x, 400);
    assert_eq!(b.border.y, 400);
    assert_eq!(b.velocity_x, 0);
    assert_eq!(b.velocity_y, 0);
    assert_eq!(b.rect.w, 50);
    assert_eq!(b.rect.h, 50);
}

#[test]
fn object_right_is_the_paddle_width() {
    let paddle = paddle_at(300, 500);
    assert_eq!(calculate_object_right(&paddle), 120);
    let thin = Block::new(Rect::new(0, 0, 7, 3), 0, 0);
    assert_eq!(calculate_object_right(&thin), 7);
}
