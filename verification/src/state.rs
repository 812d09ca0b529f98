//! The shared authoritative game state and its bookkeeping.
//!
//! One [`Game`] value is the single source of truth for the whole
//! match: tick counter, score, connected clients, started flag and the
//! ball.  The surrounding tasks own no gameplay data; they acquire the
//! state, call exactly one of the methods here per critical section,
//! and act on the returned decision (wait, broadcast, reply, stop).
//! Clients are identified by a numeric connection key that the
//! connection manager assigns; keys are unique in the client list.

use vstd::prelude::*;
use vstd::string::StringExecFns;

use crate::game::Ball;
use crate::game::Block;
use crate::game::ball_move_safe;
use crate::game::bottom_exit;
use crate::game::move_step;
use crate::game::paddle_react_safe;
use crate::game::react_upto;
use crate::game::score_step;
use crate::game::top_exit;
use crate::game::update_safe;
use crate::game::wall_step;
use crate::game::BLOCK_SIZE;

verus! {

/// One connected client: its connection key, its display address and
/// identifier, its paddle entity, and the per-round / per-connection
/// broadcast flags.
#[derive(Debug, Clone)]
pub struct Client {
    /// Unique key of the connection this client arrived on.
    pub key: u64,
    /// The client's address, kept as an opaque display string.
    pub addr: String,
    /// The paddle governed by this client.
    pub block: Block,
    /// Whether this client's broadcast completed for the current round.
    pub sent: bool,
    /// Whether this connection already received its one-time
    /// announcement.
    pub announced: bool,
    /// Opaque identifier assigned at connection time.
    pub id: String,
}

/// The single authoritative game record.
#[derive(Debug)]
pub struct Game {
    /// Number of completed simulation rounds.
    pub tick: u64,
    /// The score pair.
    pub score: (u32, u32),
    /// The currently connected clients, in connection order.
    pub clients: Vec<Client>,
    /// Whether two clients have been present since the last time the
    /// player count dropped below two.
    pub is_started: bool,
    /// The shared ball entity.
    pub ball: Block,
    /// Whether any connection has received its announcement.
    pub headers_sent: bool,
}

/// The admission decision at the top of a broadcast round.
#[derive(Debug, Clone, Copy, PartialEq, Eq, Structural)]
pub enum GateOutcome {
    /// The game had started and a player left: the process must stop.
    Fatal,
    /// Not enough players yet: sleep one tick period and re-check.
    Wait,
    /// Two players are present: run the round.
    Proceed,
}

/// The decoding stage at which an inbound text payload failed.
#[derive(Debug, Clone, Copy, PartialEq, Eq, Structural)]
pub enum DecodeStage {
    /// The payload was not valid JSON at all.
    Parse,
    /// The JSON did not match the entity shape.
    Entity,
}

/// One observation made by a reader task on its connection, handed to
/// the library as plain values.
#[derive(Debug, Clone, Copy, PartialEq, Eq, Structural)]
pub enum InboundEvent {
    /// A text payload decoded into a complete entity state.
    Update(Block),
    /// A text payload failed to decode at the given stage.
    Malformed(DecodeStage),
    /// The peer closed the connection cleanly.
    Closed,
    /// Reading failed with a hard error (not a clean close).
    Failed,
}

/// What the reader task must do after one observation.
#[derive(Debug, Clone, Copy, PartialEq, Eq, Structural)]
pub enum ReaderAction {
    /// Keep reading.
    Continue,
    /// Send the decode-error text for this stage back to the same
    /// client, then keep reading.
    Reply(DecodeStage),
    /// Terminate the reader task.
    Stop,
}

/// The error text sent back to a client whose payload failed to
/// decode; the transport appends the decoder's own description.
pub fn decode_error_prefix(stage: DecodeStage) -> (s: String)
    ensures
        stage is Parse ==> s@ == "Error parsing JSON: "@,
        stage is Entity ==> s@ == "Error deserializing to Block: "@,
{
    match stage {
        DecodeStage::Parse => String::from_str("Error parsing JSON: "),
        DecodeStage::Entity => String::from_str("Error deserializing to Block: "),
    }
}

/// Some client in `s` carries the connection key `key`.
pub open spec fn has_key(s: Seq<Client>, key: u64) -> bool {
    exists|i: int| 0 <= i < s.len() && (#[trigger] s[i]).key == key
}

/// Every client in `s` has completed its broadcast for this round.
pub open spec fn all_sent(s: Seq<Client>) -> bool {
    forall|i: int| 0 <= i < s.len() ==> (#[trigger] s[i]).sent
}

/// `c` with its per-round broadcast flag set to `sent`.
pub open spec fn with_sent(c: Client, sent: bool) -> Client {
    Client { sent, ..c }
}

/// `c` with its one-time announcement recorded.
pub open spec fn with_announced(c: Client) -> Client {
    Client { announced: true, ..c }
}

/// `c` with its paddle replaced wholesale.
pub open spec fn with_block(c: Client, block: Block) -> Client {
    Client { block, ..c }
}

/// The parts of the state that the client-list operations leave alone.
pub open spec fn same_except_clients(pre: Game, post: Game) -> bool {
    &&& post.tick == pre.tick
    &&& post.score == pre.score
    &&& post.is_started == pre.is_started
    &&& post.ball == pre.ball
    &&& post.headers_sent == pre.headers_sent
}

/// When one simulation round is free of overflow: every paddle can be
/// moved, every moved paddle's edges can be computed, the ball's
/// wall, paddle and scoring reactions stay within machine bounds, and
/// a due score increment does not saturate.
pub open spec fn phys_safe(g: Game) -> bool {
    &&& forall|i: int| 0 <= i < g.clients@.len() ==> update_safe((#[trigger] g.clients@[i]).block)
    &&& forall|i: int|
        0 <= i < g.clients@.len() ==> paddle_react_safe(move_step((#[trigger] g.clients@[i]).block))
    &&& g.ball.velocity_x != i32::MIN
    &&& g.ball.velocity_y != i32::MIN
    &&& g.ball.border.x + (BLOCK_SIZE as int) * 10 <= i32::MAX
    &&& g.ball.border.y + (BLOCK_SIZE as int) * 10 <= i32::MAX
    &&& g.ball.border.h <= i32::MAX
    &&& g.ball.border.y + g.ball.border.h <= i32::MAX
    &&& ball_move_safe(g.ball)
    &&& (bottom_exit(g.ball) ==> g.score.1 < u32::MAX)
    &&& (top_exit(g.ball) ==> g.score.0 < u32::MAX)
}

/// Key uniqueness carries over to a client list whose keys are
/// positionally unchanged.
proof fn lemma_same_keys_unique(pre: Game, post: Game)
    requires
        pre.keys_unique(),
        post.clients@.len() == pre.clients@.len(),
        forall|i: int|
            0 <= i < pre.clients@.len() ==> (#[trigger] post.clients@[i]).key
                == pre.clients@[i].key,
    ensures
        post.keys_unique(),
{
    assert forall|a: int, b: int| 0 <= a < b < post.clients@.len() implies (
    #[trigger] post.clients@[a]).key != (#[trigger] post.clients@[b]).key by {
        assert(post.clients@[a].key == pre.clients@[a].key);
        assert(post.clients@[b].key == pre.clients@[b].key);
    }
}

impl Game {
    /// Connection keys identify at most one client each.
    pub open spec fn keys_unique(self) -> bool {
        forall|i: int, j: int|
            0 <= i < j < self.clients@.len()
                ==> (#[trigger] self.clients@[i]).key != (#[trigger] self.clients@[j]).key
    }

    /// Well-formedness: unique connection keys, and the ball's
    /// collider congruent with its visual rectangle.
    pub open spec fn wf(self) -> bool {
        &&& self.keys_unique()
        &&& self.ball.border == self.ball.rect
    }

    /// The initial state: no rounds played, no score, no clients, not
    /// started, the given ball.
    pub fn new(ball: Block) -> (g: Game)
        ensures
            g.tick == 0,
            g.score == (0u32, 0u32),
            g.clients@.len() == 0,
            !g.is_started,
            g.ball == ball,
            !g.headers_sent,
            g.keys_unique(),
            ball.border == ball.rect ==> g.wf(),
    {
        Game {
            tick: 0,
            score: (0, 0),
            clients: Vec::new(),
            is_started: false,
            ball,
            headers_sent: false,
        }
    }

    /// Decide whether the simulation may progress this iteration.
    ///
    /// Fewer than two clients: fatal if the game had started, else
    /// wait.  Otherwise the game is (now) started and the round runs.
    pub fn gate(&mut self) -> (outcome: GateOutcome)
        ensures
            final(self).clients == old(self).clients,
            final(self).tick == old(self).tick,
            final(self).score == old(self).score,
            final(self).ball == old(self).ball,
            final(self).headers_sent == old(self).headers_sent,
            outcome == (if old(self).clients@.len() < 2 {
                if old(self).is_started {
                    GateOutcome::Fatal
                } else {
                    GateOutcome::Wait
                }
            } else {
                GateOutcome::Proceed
            }),
            final(self).is_started == (old(self).clients@.len() >= 2 || old(self).is_started),
            old(self).wf() ==> final(self).wf(),
    {
        if self.clients.len() < 2 {
            if self.is_started {
                GateOutcome::Fatal
            } else {
                self.is_started = false;
                GateOutcome::Wait
            }
        } else {
            self.is_started = true;
            GateOutcome::Proceed
        }
    }

    /// Record the one-time announcement for the client with `key`.
    ///
    /// Returns true exactly when that client exists and had not been
    /// announced to yet; in that case its flag and the global
    /// `headers_sent` flag are set.
    #[verifier::loop_isolation(false)]
    pub fn take_announcement(&mut self, key: u64) -> (announce: bool)
        requires
            old(self).keys_unique(),
        ensures
            final(self).clients@.len() == old(self).clients@.len(),
            forall|i: int|
                0 <= i < old(self).clients@.len() ==> final(self).clients@[i] == (if (
                #[trigger] old(self).clients@[i]).key == key && !old(self).clients@[i].announced {
                    with_announced(old(self).clients@[i])
                } else {
                    old(self).clients@[i]
                }),
            announce == (exists|i: int|
                0 <= i < old(self).clients@.len() && (#[trigger] old(self).clients@[i]).key == key
                    && !old(self).clients@[i].announced),
            final(self).headers_sent == (old(self).headers_sent || announce),
            final(self).tick == old(self).tick,
            final(self).score == old(self).score,
            final(self).is_started == old(self).is_started,
            final(self).ball == old(self).ball,
            final(self).keys_unique(),
            old(self).wf() ==> final(self).wf(),
    {
        let n = self.clients.len();
        let mut i: usize = 0;
        let mut announce: bool = false;
        while i < n
            invariant
                i <= n,
                n == self.clients@.len(),
                forall|j: int|
                    0 <= j < i ==> self.clients@[j] == (if (
                    #[trigger] old(self).clients@[j]).key == key
                        && !old(self).clients@[j].announced {
                        with_announced(old(self).clients@[j])
                    } else {
                        old(self).clients@[j]
                    }),
                forall|j: int| i <= j < n ==> self.clients@[j] == old(self).clients@[j],
                announce == (exists|j: int|
                    0 <= j < i && (#[trigger] old(self).clients@[j]).key == key
                        && !old(self).clients@[j].announced),
                self.tick == old(self).tick,
                self.score == old(self).score,
                self.is_started == old(self).is_started,
                self.ball == old(self).ball,
                self.headers_sent == old(self).headers_sent,
            decreases n - i,
        {
            if self.clients[i].key == key && !self.clients[i].announced {
                let c = &mut self.clients[i];
                c.announced = true;
                announce = true;
            }
            i += 1;
        }
        if announce {
            self.headers_sent = true;
        }
        proof {
            assert forall|j: int| 0 <= j < old(self).clients@.len() implies (
            #[trigger] self.clients@[j]).key == old(self).clients@[j].key by {
                let c = old(self).clients@[j];
                assert(self.clients@[j].key == c.key);
            }
            lemma_same_keys_unique(*old(self), *self);
        }
        announce
    }

    /// Mark the client with `key` as having completed its broadcast
    /// for the current round.
    #[verifier::loop_isolation(false)]
    pub fn mark_sent(&mut self, key: u64)
        requires
            old(self).keys_unique(),
        ensures
            final(self).clients@.len() == old(self).clients@.len(),
            forall|i: int|
                0 <= i < old(self).clients@.len() ==> final(self).clients@[i] == (if (
                #[trigger] old(self).clients@[i]).key == key {
                    with_sent(old(self).clients@[i], true)
                } else {
                    old(self).clients@[i]
                }),
            same_except_clients(*old(self), *final(self)),
            final(self).keys_unique(),
            old(self).wf() ==> final(self).wf(),
    {
        let n = self.clients.len();
        let mut i: usize = 0;
        while i < n
            invariant
                i <= n,
                n == self.clients@.len(),
                forall|j: int|
                    0 <= j < i ==> self.clients@[j] == (if (
                    #[trigger] old(self).clients@[j]).key == key {
                        with_sent(old(self).clients@[j], true)
                    } else {
                        old(self).clients@[j]
                    }),
                forall|j: int| i <= j < n ==> self.clients@[j] == old(self).clients@[j],
                same_except_clients(*old(self), *self),
            decreases n - i,
        {
            if self.clients[i].key == key {
                let c = &mut self.clients[i];
                c.sent = true;
            }
            i += 1;
        }
        proof {
            assert forall|j: int| 0 <= j < old(self).clients@.len() implies (
            #[trigger] self.clients@[j]).key == old(self).clients@[j].key by {
                let c = old(self).clients@[j];
                assert(self.clients@[j].key == c.key);
            }
            lemma_same_keys_unique(*old(self), *self);
        }
    }

    /// Advance the tick counter if and only if every currently
    /// connected client has completed its broadcast for this round;
    /// after advancing, clear all the per-round flags.
    #[verifier::loop_isolation(false)]
    pub fn try_advance_tick(&mut self) -> (advanced: bool)
        requires
            old(self).tick < u64::MAX,
        ensures
            advanced == all_sent(old(self).clients@),
            final(self).clients@.len() == old(self).clients@.len(),
            advanced ==> final(self).tick == old(self).tick + 1 && forall|i: int|
                0 <= i < old(self).clients@.len()
                    ==> final(self).clients@[i] == with_sent(#[trigger] old(self).clients@[i], false),
            advanced ==> forall|i: int|
                0 <= i < final(self).clients@.len() ==> !(#[trigger] final(self).clients@[i]).sent,
            !advanced ==> final(self).tick == old(self).tick && final(self).clients
                == old(self).clients,
            final(self).score == old(self).score,
            final(self).is_started == old(self).is_started,
            final(self).ball == old(self).ball,
            final(self).headers_sent == old(self).headers_sent,
            old(self).wf() ==> final(self).wf(),
    {
        let n = self.clients.len();
        let mut count: usize = 0;
        let mut i: usize = 0;
        while i < n
            invariant
                i <= n,
                count <= i,
                (count == i) <==> (forall|j: int| 0 <= j < i ==> (#[trigger] self.clients@[j]).sent),
            decreases n - i,
        {
            if self.clients[i].sent {
                count += 1;
            }
            i += 1;
        }
        if count == n {
            self.tick = self.tick + 1;
            let mut k: usize = 0;
            while k < n
                invariant
                    k <= n,
                    n == self.clients@.len(),
                    forall|j: int|
                        0 <= j < k ==> self.clients@[j] == with_sent(
                            #[trigger] old(self).clients@[j],
                            false,
                        ),
                    forall|j: int| k <= j < n ==> self.clients@[j] == old(self).clients@[j],
                    self.tick == old(self).tick + 1,
                    self.score == old(self).score,
                    self.is_started == old(self).is_started,
                    self.ball == old(self).ball,
                    self.headers_sent == old(self).headers_sent,
                decreases n - k,
            {
                let c = &mut self.clients[k];
                c.sent = false;
                k += 1;
            }
            proof {
                assert forall|j: int| 0 <= j < self.clients@.len() implies !(
                #[trigger] self.clients@[j]).sent by {
                    let c = old(self).clients@[j];
                    assert(self.clients@[j] == with_sent(c, false));
                }
                if old(self).keys_unique() {
                    assert forall|j: int| 0 <= j < old(self).clients@.len() implies (
                    #[trigger] self.clients@[j]).key == old(self).clients@[j].key by {
                        let c = old(self).clients@[j];
                        assert(self.clients@[j].key == c.key);
                    }
                    lemma_same_keys_unique(*old(self), *self);
                }
            }
            true
        } else {
            false
        }
    }

    /// Append a newly accepted client, refusing a duplicate key.
    #[verifier::loop_isolation(false)]
    pub fn add_client(&mut self, client: Client) -> (added: bool)
        requires
            old(self).keys_unique(),
        ensures
            added == !has_key(old(self).clients@, client.key),
            added ==> final(self).clients@ == old(self).clients@.push(client),
            !added ==> final(self).clients@ == old(self).clients@,
            same_except_clients(*old(self), *final(self)),
            final(self).keys_unique(),
            old(self).wf() ==> final(self).wf(),
    {
        let n = self.clients.len();
        let mut i: usize = 0;
        while i < n
            invariant
                i <= n,
                n == self.clients@.len(),
                *self == *old(self),
                forall|j: int| 0 <= j < i ==> (#[trigger] old(self).clients@[j]).key != client.key,
            decreases n - i,
        {
            if self.clients[i].key == client.key {
                return false;
            }
            i += 1;
        }
        self.clients.push(client);
        proof {
            let s = self.clients@;
            let ol = old(self).clients@;
            assert forall|a: int, b: int| 0 <= a < b < s.len() implies (#[trigger] s[a]).key != (
            #[trigger] s[b]).key by {
                assert(s[a] == ol[a]);
                if b < s.len() - 1 {
                    assert(s[b] == ol[b]);
                } else {
                    assert(s[b] == client);
                    assert(ol[a].key != client.key);
                }
            }
        }
        true
    }

    /// Remove the client with `key` on its clean disconnect; reports
    /// whether one was present.
    #[verifier::loop_isolation(false)]
    pub fn remove_client(&mut self, key: u64) -> (removed: bool)
        requires
            old(self).keys_unique(),
        ensures
            removed == has_key(old(self).clients@, key),
            removed ==> exists|i: int|
                0 <= i < old(self).clients@.len() && (#[trigger] old(self).clients@[i]).key == key
                    && final(self).clients@ == old(self).clients@.remove(i),
            !removed ==> final(self).clients == old(self).clients,
            same_except_clients(*old(self), *final(self)),
            final(self).keys_unique(),
            old(self).wf() ==> final(self).wf(),
    {
        let n = self.clients.len();
        let mut i: usize = 0;
        while i < n
            invariant
                i <= n,
                n == self.clients@.len(),
                *self == *old(self),
                forall|j: int| 0 <= j < i ==> (#[trigger] old(self).clients@[j]).key != key,
            decreases n - i,
        {
            if self.clients[i].key == key {
                self.clients.remove(i);
                proof {
                    let ol = old(self).clients@;
                    let s = self.clients@;
                    ol.remove_ensures(i as int);
                    assert(s == ol.remove(i as int));
                    assert(ol[i as int].key == key);
                    assert forall|a: int, b: int| 0 <= a < b < s.len() implies (
                    #[trigger] s[a]).key != (#[trigger] s[b]).key by {
                        if b < i as int {
                            assert(s[a] == ol[a]);
                            assert(s[b] == ol[b]);
                        } else if a < i as int {
                            assert(s[a] == ol[a]);
                            assert(s[b] == ol[b + 1]);
                        } else {
                            assert(s[a] == ol[a + 1]);
                            assert(s[b] == ol[b + 1]);
                        }
                    }
                }
                return true;
            }
            i += 1;
        }
        false
    }

    /// Advance the simulation by one tick: move every paddle, then
    /// let the ball react to the walls, to each paddle in connection
    /// order, to the scoring boundaries, and finally move the ball.
    ///
    /// The score sum grows by at most one per round, and only grows
    /// at all when the ball had crossed a scoring boundary.
    #[verifier::loop_isolation(false)]
    pub fn step_physics(&mut self)
        requires
            old(self).wf(),
            phys_safe(*old(self)),
        ensures
            final(self).clients@.len() == old(self).clients@.len(),
            forall|i: int|
                0 <= i < old(self).clients@.len() ==> final(self).clients@[i] == with_block(
                    #[trigger] old(self).clients@[i],
                    move_step(old(self).clients@[i].block),
                ),
            ({
                let moved = Seq::new(
                    old(self).clients@.len(),
                    |i: int| move_step(old(self).clients@[i].block),
                );
                let after_wall = wall_step(old(self).ball);
                let after_react = react_upto(after_wall, moved, moved.len() as int);
                let scored = score_step(after_react, old(self).score);
                final(self).ball == move_step(scored.0) && final(self).score == scored.1
            }),
            final(self).tick == old(self).tick,
            final(self).is_started == old(self).is_started,
            final(self).headers_sent == old(self).headers_sent,
            final(self).score.0 + final(self).score.1 <= old(self).score.0 + old(self).score.1
                + 1,
            final(self).score != old(self).score ==> bottom_exit(old(self).ball) || top_exit(
                old(self).ball,
            ),
            final(self).wf(),
    {
        let ghost moved = Seq::new(
            old(self).clients@.len(),
            |i: int| move_step(old(self).clients@[i].block),
        );
        let n = self.clients.len();
        let mut i: usize = 0;
        while i < n
            invariant
                i <= n,
                n == self.clients@.len(),
                forall|j: int|
                    0 <= j < i ==> self.clients@[j] == with_block(
                        #[trigger] old(self).clients@[j],
                        move_step(old(self).clients@[j].block),
                    ),
                forall|j: int| i <= j < n ==> self.clients@[j] == old(self).clients@[j],
                self.tick == old(self).tick,
                self.score == old(self).score,
                self.is_started == old(self).is_started,
                self.ball == old(self).ball,
                self.headers_sent == old(self).headers_sent,
            decreases n - i,
        {
            proof {
                assert(self.clients@[i as int] == old(self).clients@[i as int]);
            }
            let c = &mut self.clients[i];
            c.block.update_position();
            i += 1;
        }
        self.ball.handle_wall();
        let ghost after_wall = wall_step(old(self).ball);
        let mut k: usize = 0;
        while k < n
            invariant
                k <= n,
                n == self.clients@.len(),
                forall|j: int|
                    0 <= j < n ==> self.clients@[j] == with_block(
                        #[trigger] old(self).clients@[j],
                        move_step(old(self).clients@[j].block),
                    ),
                self.ball == react_upto(after_wall, moved, k as int),
                self.ball.border == old(self).ball.border,
                self.ball.rect == old(self).ball.rect,
                self.ball.velocity_x == after_wall.velocity_x,
                self.ball.velocity_y != i32::MIN,
                self.ball.velocity_y == old(self).ball.velocity_y || self.ball.velocity_y as int
                    == -(old(self).ball.velocity_y as int),
                self.tick == old(self).tick,
                self.score == old(self).score,
                self.is_started == old(self).is_started,
                self.headers_sent == old(self).headers_sent,
            decreases n - k,
        {
            proof {
                assert(self.clients@[k as int] == with_block(
                    old(self).clients@[k as int],
                    move_step(old(self).clients@[k as int].block),
                ));
                assert(moved[k as int] == move_step(old(self).clients@[k as int].block));
                assert(paddle_react_safe(move_step(old(self).clients@[k as int].block)));
            }
            let paddle = self.clients[k].block;
            self.ball.react_object(&paddle);
            k += 1;
        }
        let ghost after_react = react_upto(after_wall, moved, moved.len() as int);
        proof {
            assert(bottom_exit(after_react) == bottom_exit(old(self).ball));
            assert(top_exit(after_react) == top_exit(old(self).ball));
        }
        self.ball.handle_score(&mut self.score);
        let ghost scored = score_step(after_react, old(self).score);
        proof {
            assert(update_safe(self.ball));
        }
        self.ball.update_position();
        proof {
            assert forall|j: int| 0 <= j < old(self).clients@.len() implies (
            #[trigger] self.clients@[j]).key == old(self).clients@[j].key by {
                let c = old(self).clients@[j];
                assert(self.clients@[j].key == c.key);
            }
            lemma_same_keys_unique(*old(self), *self);
        }
    }

    /// Replace the paddle of the client with `key` wholesale with a
    /// client-submitted entity; reports whether that client exists.
    #[verifier::loop_isolation(false)]
    pub fn apply_entity_update(&mut self, key: u64, block: Block) -> (found: bool)
        requires
            old(self).keys_unique(),
        ensures
            final(self).clients@.len() == old(self).clients@.len(),
            forall|i: int|
                0 <= i < old(self).clients@.len() ==> final(self).clients@[i] == (if (
                #[trigger] old(self).clients@[i]).key == key {
                    with_block(old(self).clients@[i], block)
                } else {
                    old(self).clients@[i]
                }),
            found == has_key(old(self).clients@, key),
            same_except_clients(*old(self), *final(self)),
            final(self).keys_unique(),
            old(self).wf() ==> final(self).wf(),
    {
        let n = self.clients.len();
        let mut i: usize = 0;
        let mut found: bool = false;
        while i < n
            invariant
                i <= n,
                n == self.clients@.len(),
                forall|j: int|
                    0 <= j < i ==> self.clients@[j] == (if (
                    #[trigger] old(self).clients@[j]).key == key {
                        with_block(old(self).clients@[j], block)
                    } else {
                        old(self).clients@[j]
                    }),
                forall|j: int| i <= j < n ==> self.clients@[j] == old(self).clients@[j],
                found == (exists|j: int|
                    0 <= j < i && (#[trigger] old(self).clients@[j]).key == key),
                same_except_clients(*old(self), *self),
            decreases n - i,
        {
            if self.clients[i].key == key {
                let c = &mut self.clients[i];
                c.block = block;
                found = true;
            }
            i += 1;
        }
        proof {
            assert forall|j: int| 0 <= j < old(self).clients@.len() implies (
            #[trigger] self.clients@[j]).key == old(self).clients@[j].key by {
                let c = old(self).clients@[j];
                assert(self.clients@[j].key == c.key);
            }
            lemma_same_keys_unique(*old(self), *self);
        }
        found
    }

    /// React to one observation of the reader task owning `key`.
    ///
    /// A decoded entity replaces that client's paddle wholesale; a
    /// decode failure changes nothing and asks for an error reply on
    /// the same connection; a clean close removes the client and stops
    /// the reader; a hard read failure stops the reader but leaves the
    /// client entry in place.
    pub fn reader_step(&mut self, key: u64, event: InboundEvent) -> (action: ReaderAction)
        requires
            old(self).keys_unique(),
        ensures
            event is Update ==> action is Continue && final(self).clients@.len() == old(
                self,
            ).clients@.len() && (forall|i: int|
                0 <= i < old(self).clients@.len() ==> final(self).clients@[i] == (if (
                #[trigger] old(self).clients@[i]).key == key {
                    with_block(old(self).clients@[i], event->Update_0)
                } else {
                    old(self).clients@[i]
                })) && same_except_clients(*old(self), *final(self)),
            event is Malformed ==> *final(self) == *old(self) && action == ReaderAction::Reply(
                event->Malformed_0,
            ),
            event is Closed ==> action is Stop && same_except_clients(*old(self), *final(self))
                && (has_key(old(self).clients@, key) ==> exists|i: int|
                0 <= i < old(self).clients@.len() && (#[trigger] old(self).clients@[i]).key == key
                    && final(self).clients@ == old(self).clients@.remove(i)) && (!has_key(
                old(self).clients@,
                key,
            ) ==> final(self).clients == old(self).clients),
            event is Failed ==> *final(self) == *old(self) && action is Stop,
            final(self).keys_unique(),
            old(self).wf() ==> final(self).wf(),
    {
        match event {
            InboundEvent::Update(block) => {
                self.apply_entity_update(key, block);
                ReaderAction::Continue
            },
            InboundEvent::Malformed(stage) => ReaderAction::Reply(stage),
            InboundEvent::Closed => {
                self.remove_client(key);
                ReaderAction::Stop
            },
            InboundEvent::Failed => ReaderAction::Stop,
        }
    }
}

} // verus!
