use pong_core::game::Block;
use pong_core::game::Rect;
use pong_core::state::Client;
use pong_core::state::DecodeStage;
use pong_core::state::Game;
use pong_core::state::GateOutcome;
use pong_core::state::InboundEvent;
use pong_core::state::ReaderAction;
use pong_core::state::decode_error_prefix;

fn default_ball() -> Block {
    Block::new(Rect::new(40, 40, 50, 50), 25, 5)
}

fn client(key: u64) -> Client {
    Client {
        key,
        addr: String::from("127.0.0.1:9001"),
        block: Block::new(Rect::new(750, 750, 120, 15), 50, 50),
        sent: false,
        announced: false,
        id: format!("client-{}", key),
    }
}

fn two_player_game() -> Game {
    let mut game = Game::new(default_ball());
    assert!(game.add_client(client(1)));
    assert!(game.add_client(client(2)));
    game
}

#[test]
fn new_game_is_empty_and_unstarted() {
    let game = Game::new(default_ball());
    assert_eq!(game.tick, 0);
    assert_eq!(game.score, (0, 0));
    assert!(game.clients.is_empty());
    assert!(!game.is_started);
    assert!(!game.headers_sent);
}

#[test]
fn add_client_refuses_duplicate_key() {
    let mut game = Game::new(default_ball());
    assert!(game.add_client(client(1)));
    assert!(!game.add_client(client(1)));
    assert_eq!(game.clients.len(), 1);
}

#[test]
fn gate_waits_below_two_players_and_proceeds_at_two() {
    // One client connects: the loop must not run physics, and the
    // process must not exit; once the second arrives, play begins.
    let mut game = Game::new(default_ball());
    assert_eq!(game.gate(), GateOutcome::Wait);
    assert!(game.add_client(client(1)));
    assert_eq!(game.gate(), GateOutcome::Wait);
    assert!(!game.is_started);
    assert!(game.add_client(client(2)));
    assert_eq!(game.gate(), GateOutcome::Proceed);
    assert!(game.is_started);
}

#[test]
fn gate_is_fatal_when_a_player_leaves_after_start() {
    let mut game = two_player_game();
    assert_eq!(game.gate(), GateOutcome::Proceed);
    assert!(game.remove_client(2));
    assert_eq!(game.gate(), GateOutcome::Fatal);
}

#[test]
fn announcement_fires_once_per_connection() {
    let mut game = two_player_game();
    assert!(game.take_announcement(1));
    assert!(game.headers_sent);
    assert!(!game.take_announcement(1));
    // The flag is scoped per connection: the second client still gets
    // its own announcement.
    assert!(game.take_announcement(2));
    assert!(!game.take_announcement(2));
    assert!(!game.take_announcement(99));
}

#[test]
fn tick_advances_exactly_when_every_client_has_sent() {
    let mut game = two_player_game();
    assert!(!game.try_advance_tick());
    assert_eq!(game.tick, 0);
    game.mark_sent(1);
    assert!(!game.try_advance_tick());
    assert_eq!(game.tick, 0);
    game.mark_sent(2);
    assert!(game.try_advance_tick());
    assert_eq!(game.tick, 1);
    // After advancing, every per-round flag is cleared again.
    assert!(game.clients.iter().all(|c| !c.sent));
    assert!(!game.try_advance_tick());
    assert_eq!(game.tick, 1);
}

#[test]
fn tick_advances_vacuously_with_no_clients() {
    // With nobody connected every client has trivially broadcast, so
    // the counter advances each attempt.
    let mut game = Game::new(default_ball());
    assert!(game.try_advance_tick());
    assert!(game.try_advance_tick());
    assert_eq!(game.tick, 2);
}

#[test]
fn physics_step_moves_everything_and_keeps_score() {
    let mut game = two_player_game();
    game.step_physics();
    assert_eq!(game.ball.get_position(), (65, 45));
    assert_eq!(game.ball.border.x, 65);
    assert_eq!(game.ball.border.y, 45);
    for c in &game.clients {
        assert_eq!(c.block.get_position(), (800, 800));
        assert_eq!(c.block.border.x, 800);
    }
    assert_eq!(game.score, (0, 0));
    assert_eq!(game.tick, 0);
}

#[test]
fn physics_step_scores_second_on_bottom_exit() {
    let mut game = Game::new(Block::new(Rect::new(100, -60, 50, 50), 0, 0));
    game.step_physics();
    assert_eq!(game.score, (0, 1));
    assert_eq!(game.ball.get_position(), (400, 400));
    assert_eq!(game.ball.velocity_x, 0);
    assert_eq!(game.ball.velocity_y, 0);
}

#[test]
fn physics_step_scores_first_on_top_exit() {
    let mut game = Game::new(Block::new(Rect::new(100, 800, 50, 50), 0, 0));
    game.step_physics();
    assert_eq!(game.score, (1, 0));
    assert_eq!(game.ball.get_position(), (400, 400));
}

#[test]
fn physics_step_bounces_ball_off_a_paddle() {
    // A paddle with zero velocity sitting where the ball's bottom edge
    // lands: the ball's vertical velocity is reversed before it moves.
    let mut game = Game::new(Block::new(Rect::new(310, 450, 50, 50), 10, 5));
    let mut c = client(1);
    c.block = Block::new(Rect::new(300, 500, 120, 15), 0, 0);
    assert!(game.add_client(c));
    game.step_physics();
    assert_eq!(game.ball.velocity_y, -5);
    assert_eq!(game.ball.get_position(), (320, 445));
}

#[test]
fn reader_update_replaces_only_that_paddle() {
    let mut game = two_player_game();
    let submitted = Block::new(Rect::new(10, 20, 120, 15), -3, 4);
    let action = game.reader_step(1, InboundEvent::Update(submitted));
    assert_eq!(action, ReaderAction::Continue);
    assert_eq!(game.clients[0].block, submitted);
    assert_eq!(game.clients[1].block, client(2).block);
}

#[test]
fn reader_decode_failure_leaves_state_and_asks_for_reply() {
    let mut game = two_player_game();
    let before = game.clients[0].block;
    let action = game.reader_step(1, InboundEvent::Malformed(DecodeStage::Entity));
    assert_eq!(action, ReaderAction::Reply(DecodeStage::Entity));
    assert_eq!(game.clients[0].block, before);
    assert_eq!(game.clients.len(), 2);
    let text = decode_error_prefix(DecodeStage::Entity);
    assert!(text.contains("Error deserializing to Block"));
    let parse_text = decode_error_prefix(DecodeStage::Parse);
    assert!(parse_text.contains("Error parsing JSON"));
}

#[test]
fn reader_close_removes_the_client_and_stops() {
    let mut game = two_player_game();
    let action = game.reader_step(1, InboundEvent::Closed);
    assert_eq!(action, ReaderAction::Stop);
    assert_eq!(game.clients.len(), 1);
    assert_eq!(game.clients[0].key, 2);
}

#[test]
fn reader_hard_failure_leaves_the_client_in_place() {
    let mut game = two_player_game();
    let action = game.reader_step(1, InboundEvent::Failed);
    assert_eq!(action, ReaderAction::Stop);
    assert_eq!(game.clients.len(), 2);
}

#[test]
fn remove_client_reports_absence() {
    let mut game = two_player_game();
    assert!(!game.remove_client(42));
    assert_eq!(game.clients.len(), 2);
    assert!(game.remove_client(1));
    assert!(!game.remove_client(1));
    assert_eq!(game.clients.len(), 1);
}

#[test]
fn full_round_of_two_writers() {
    // One complete round as the two writer tasks drive it: gate,
    // announcements, one physics step, both broadcasts, tick advance.
    let mut game = two_player_game();
    assert_eq!(game.gate(), GateOutcome::Proceed);
    assert!(game.take_announcement(1));
    assert!(game.take_announcement(2));
    game.step_physics();
    game.mark_sent(1);
    assert!(!game.try_advance_tick());
    game.mark_sent(2);
    assert!(game.try_advance_tick());
    assert_eq!(game.tick, 1);
    assert_eq!(game.score, (0, 0));
}
