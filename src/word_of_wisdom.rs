//! The challenge-response exchange: the messages, the server's per-connection
//! state machine and the client's flow. Both machines take what the outside
//! world supplies (the message received, the time, a random value) as
//! arguments and answer with the action to perform.
use crate::hashcash::{puzzle_valid, same_but_counter, solvable_within, valid_at, Hashcash, WorkError};
use vstd::prelude::*;

verus! {

/// Default difficulty, in leading zero nibbles.
pub const ZERO_COUNT: i32 = 4;

/// Default bound on the solver's counter.
pub const MAX_TRIES: i32 = 1000000;

/// Default maximum age of a puzzle, in seconds.
pub const MAX_DURATION: i32 = 10_000;

/// What a message asks for or carries.
#[derive(PartialEq, Eq, Structural, Debug, Clone, Copy)]
pub enum Command {
    /// The client asks for a puzzle.
    RequestService,
    /// The client submits its solved puzzle.
    Challenge,
    /// The server delivers a puzzle.
    Response,
    /// The server delivers the reward.
    GrantService,
    /// The server rejects the solution.
    InvalidHashcash,
}

/// One message on the wire: a command and a text payload.
#[derive(Debug, Clone)]
pub struct Message {
    pub cmd: Command,
    pub data: String,
}

impl PartialEq for Message {
    fn eq(&self, o: &Message) -> (r: bool) {
        self.cmd == o.cmd && self.data == o.data
    }
}

impl vstd::std_specs::cmp::PartialEqSpecImpl for Message {
    open spec fn obeys_eq_spec() -> bool {
        true
    }

    open spec fn eq_spec(&self, o: &Message) -> bool {
        self.cmd == o.cmd && self.data@ == o.data@
    }
}

// ---------------------------------------------------------------- server

/// What the server is configured with.
pub struct ServerConfig {
    /// Difficulty of the puzzles it issues.
    pub zero_count: i32,
    /// Maximum age of a submitted puzzle, in seconds.
    pub max_duration: i64,
    /// The rewards, one of which is granted per solved puzzle.
    pub rewards: Vec<String>,
}

/// Where a connection stands.
#[derive(PartialEq, Eq, Structural, Debug, Clone, Copy)]
pub enum ServerPhase {
    AwaitingRequest,
    /// A puzzle with this random value was issued.
    AwaitingSolution { nonce: i32 },
    Granted,
    Rejected,
}

/// What happened on the connection, with the outside values the step needs.
pub enum ServerEvent {
    /// `RequestService` arrived at time `now`; `nonce` is freshly drawn.
    Request { now: i64, nonce: i32 },
    /// `Challenge` arrived at time `now`; `puzzle` is its payload read as a
    /// puzzle (`None` if it is not one); `pick` is a uniformly drawn index
    /// into the rewards.
    Solution { puzzle: Option<Hashcash>, now: i64, pick: usize },
    /// Another command arrived.
    Other { cmd: Command },
}

/// What the server does in answer.
pub enum ServerAction {
    /// Send `Response` carrying this puzzle.
    SendPuzzle(Hashcash),
    /// Send `GrantService` carrying this reward, then close.
    Grant(String),
    /// Send `InvalidHashcash`, then close.
    Reject,
    /// The payload of `Challenge` was not a puzzle: close.
    Abort,
    /// Keep waiting.
    Ignore,
}

/// The server's side of one connection.
pub struct Connection {
    pub config: ServerConfig,
    /// Address of the peer.
    pub client_addr: String,
    pub phase: ServerPhase,
}

/// The checks a submitted puzzle must pass: bound to the peer, not older than
/// the maximum age, carrying the random value issued, and solved.
pub open spec fn accepted(
    p: Hashcash,
    client_addr: Seq<char>,
    nonce: i32,
    now: i64,
    max_duration: i64,
) -> bool {
    &&& p.resource@ == client_addr
    &&& now - p.date <= max_duration
    &&& p.rand == nonce
    &&& puzzle_valid(p)
}

/// `h` is the puzzle issued at `now` with `nonce` to `client_addr`.
pub open spec fn issued(h: Hashcash, zero_count: i32, client_addr: Seq<char>, now: i64, nonce: i32) -> bool {
    &&& h.version == 1
    &&& h.zero_count == zero_count
    &&& h.date == now
    &&& h.resource@ == client_addr
    &&& h.ext@ == Seq::<char>::empty()
    &&& h.rand == nonce
    &&& h.counter == 0
}

/// The event is one the connection can take: a reward index is in range.
pub open spec fn event_fits(c: Connection, ev: ServerEvent) -> bool {
    ev matches ServerEvent::Solution { pick, .. } ==> pick < c.config.rewards@.len()
}

/// One step of the server: from `pre`, event `ev` leads to `post` and `act`.
pub open spec fn server_step(pre: Connection, ev: ServerEvent, post: Connection, act: ServerAction) -> bool {
    &&& post.config == pre.config
    &&& post.client_addr == pre.client_addr
    &&& match (pre.phase, ev) {
        (ServerPhase::AwaitingRequest, ServerEvent::Request { now, nonce }) => {
            &&& post.phase == (ServerPhase::AwaitingSolution { nonce })
            &&& act matches ServerAction::SendPuzzle(h) && issued(
                h,
                pre.config.zero_count,
                pre.client_addr@,
                now,
                nonce,
            )
        },
        (ServerPhase::AwaitingSolution { nonce }, ServerEvent::Solution { puzzle, now, pick }) => {
            match puzzle {
                Some(p) => if accepted(p, pre.client_addr@, nonce, now, pre.config.max_duration) {
                    post.phase == ServerPhase::Granted && act == ServerAction::Grant(
                        pre.config.rewards@[pick as int],
                    )
                } else {
                    post.phase == ServerPhase::Rejected && act is Reject
                },
                None => post.phase == ServerPhase::Rejected && act is Abort,
            }
        },
        _ => post.phase == pre.phase && act is Ignore,
    }
}

impl Connection {
    /// A connection from `client_addr`, awaiting a request.
    pub fn new(config: ServerConfig, client_addr: String) -> (r: Connection)
        ensures
            r.config == config,
            r.client_addr == client_addr,
            r.phase == ServerPhase::AwaitingRequest,
    {
        Connection { config, client_addr, phase: ServerPhase::AwaitingRequest }
    }

    /// Whether the connection has ended.
    pub fn is_closed(&self) -> (r: bool)
        ensures
            r == (self.phase is Granted || self.phase is Rejected),
    {
        match self.phase {
            ServerPhase::Granted | ServerPhase::Rejected => true,
            _ => false,
        }
    }

    /// Takes one event and says what to send.
    pub fn step(&mut self, ev: ServerEvent) -> (r: ServerAction)
        requires
            event_fits(*old(self), ev),
        ensures
            server_step(*old(self), ev, *final(self), r),
    {
        match (self.phase, ev) {
            (ServerPhase::AwaitingRequest, ServerEvent::Request { now, nonce }) => {
                let h = Hashcash::issue(
                    self.config.zero_count,
                    self.client_addr.clone(),
                    now,
                    nonce,
                );
                self.phase = ServerPhase::AwaitingSolution { nonce };
                ServerAction::SendPuzzle(h)
            },
            (
                ServerPhase::AwaitingSolution { nonce },
                ServerEvent::Solution { puzzle, now, pick },
            ) => {
                match puzzle {
                    Some(p) => {
                        if self.check(&p, nonce, now) {
                            self.phase = ServerPhase::Granted;
                            ServerAction::Grant(self.config.rewards[pick].clone())
                        } else {
                            self.phase = ServerPhase::Rejected;
                            ServerAction::Reject
                        }
                    },
                    None => {
                        self.phase = ServerPhase::Rejected;
                        ServerAction::Abort
                    },
                }
            },
            _ => ServerAction::Ignore,
        }
    }

    /// Runs the four checks on a submitted puzzle.
    fn check(&self, p: &Hashcash, nonce: i32, now: i64) -> (r: bool)
        ensures
            r == accepted(*p, self.client_addr@, nonce, now, self.config.max_duration),
    {
        if p.resource != self.client_addr {
            return false;
        }
        if (now as i128) - (p.date as i128) > self.config.max_duration as i128 {
            return false;
        }
        if p.rand != nonce {
            return false;
        }
        p.is_valid()
    }
}

/// A puzzle bound to another address is rejected, however well it is solved.
pub proof fn lemma_identity_tamper_rejected(
    pre: Connection,
    ev: ServerEvent,
    post: Connection,
    act: ServerAction,
)
    requires
        pre.phase is AwaitingSolution,
        ev matches ServerEvent::Solution { puzzle: Some(p), .. } && puzzle_valid(p)
            && p.resource@ != pre.client_addr@,
        server_step(pre, ev, post, act),
    ensures
        act is Reject,
        post.phase == ServerPhase::Rejected,
{
}

/// A puzzle older than the maximum age is rejected, however well it is solved.
pub proof fn lemma_stale_rejected(
    pre: Connection,
    ev: ServerEvent,
    post: Connection,
    act: ServerAction,
)
    requires
        pre.phase is AwaitingSolution,
        ev matches ServerEvent::Solution { puzzle: Some(p), now, .. } && puzzle_valid(p) && now
            - p.date > pre.config.max_duration,
        server_step(pre, ev, post, act),
    ensures
        act is Reject,
        post.phase == ServerPhase::Rejected,
{
}

// ---------------------------------------------------------------- client

/// Where the client stands.
#[derive(PartialEq, Eq, Structural, Debug, Clone, Copy)]
pub enum ClientPhase {
    Start,
    AwaitingPuzzle,
    AwaitingVerdict,
    Done,
}

/// Why the client's attempt failed.
#[derive(PartialEq, Eq, Structural, Debug, Clone, Copy)]
pub enum ClientError {
    /// A message came that does not fit the exchange.
    Protocol,
    /// The payload of `Response` was not a puzzle.
    Malformed,
    /// No counter within the budget solves the puzzle.
    WorkExhausted,
    /// The server answered `InvalidHashcash`.
    Rejected,
}

/// What the client does next.
pub enum ClientAction {
    /// Send `RequestService` with an empty payload.
    RequestPuzzle,
    /// Send `Challenge` carrying this solved puzzle.
    Submit(Hashcash),
    /// The exchange ended with this reward; close.
    Finish(String),
    /// The exchange failed; close, sending nothing more.
    Fail(ClientError),
}

/// The client's side of the exchange.
pub struct ClientFlow {
    /// Bound on the solver's counter.
    pub max_tries: i32,
    pub phase: ClientPhase,
}

/// One step of the client on a received message (`puzzle` is the payload
/// read as a puzzle, `None` if it is not one).
pub open spec fn client_step(
    pre: ClientFlow,
    cmd: Command,
    data: Seq<char>,
    puzzle: Option<Hashcash>,
    post: ClientFlow,
    act: ClientAction,
) -> bool {
    &&& post.max_tries == pre.max_tries
    &&& match pre.phase {
        ClientPhase::AwaitingPuzzle => if cmd != Command::Response {
            post.phase == ClientPhase::Done && act == ClientAction::Fail(ClientError::Protocol)
        } else {
            match puzzle {
                None => post.phase == ClientPhase::Done && act == ClientAction::Fail(
                    ClientError::Malformed,
                ),
                Some(p) => if solvable_within(p, pre.max_tries as int) {
                    &&& post.phase == ClientPhase::AwaitingVerdict
                    &&& act matches ClientAction::Submit(s) && same_but_counter(s, p)
                        && puzzle_valid(s) && p.counter < s.counter <= pre.max_tries
                        && forall|c: int|
                        p.counter < c < s.counter ==> !#[trigger] valid_at(p, c)
                } else {
                    post.phase == ClientPhase::Done && act == ClientAction::Fail(
                        ClientError::WorkExhausted,
                    )
                },
            }
        },
        ClientPhase::AwaitingVerdict => {
            &&& post.phase == ClientPhase::Done
            &&& if cmd == Command::GrantService {
                act matches ClientAction::Finish(s) && s@ == data
            } else if cmd == Command::InvalidHashcash {
                act == ClientAction::Fail(ClientError::Rejected)
            } else {
                act == ClientAction::Fail(ClientError::Protocol)
            }
        },
        _ => post.phase == ClientPhase::Done && act == ClientAction::Fail(ClientError::Protocol),
    }
}

impl ClientFlow {
    /// A client that will solve with counters up to `max_tries`.
    pub fn new(max_tries: i32) -> (r: ClientFlow)
        ensures
            r.max_tries == max_tries,
            r.phase == ClientPhase::Start,
    {
        ClientFlow { max_tries, phase: ClientPhase::Start }
    }

    /// Opens the exchange by asking for a puzzle.
    pub fn start(&mut self) -> (r: ClientAction)
        requires
            old(self).phase == ClientPhase::Start,
        ensures
            final(self).max_tries == old(self).max_tries,
            final(self).phase == ClientPhase::AwaitingPuzzle,
            r is RequestPuzzle,
    {
        self.phase = ClientPhase::AwaitingPuzzle;
        ClientAction::RequestPuzzle
    }

    /// Takes one received message and says what to do.
    pub fn receive(&mut self, msg: Message, puzzle: Option<Hashcash>) -> (r: ClientAction)
        requires
            old(self).max_tries < i32::MAX,
        ensures
            client_step(*old(self), msg.cmd, msg.data@, puzzle, *final(self), r),
    {
        match self.phase {
            ClientPhase::AwaitingPuzzle => {
                if msg.cmd != Command::Response {
                    self.phase = ClientPhase::Done;
                    return ClientAction::Fail(ClientError::Protocol);
                }
                match puzzle {
                    None => {
                        self.phase = ClientPhase::Done;
                        ClientAction::Fail(ClientError::Malformed)
                    },
                    Some(p) => {
                        let mut s = p;
                        match s.try_work(self.max_tries) {
                            Ok(()) => {
                                self.phase = ClientPhase::AwaitingVerdict;
                                ClientAction::Submit(s)
                            },
                            Err(WorkError::MaxIterationsExceeded) => {
                                self.phase = ClientPhase::Done;
                                ClientAction::Fail(ClientError::WorkExhausted)
                            },
                        }
                    },
                }
            },
            ClientPhase::AwaitingVerdict => {
                self.phase = ClientPhase::Done;
                if msg.cmd == Command::GrantService {
                    ClientAction::Finish(msg.data)
                } else if msg.cmd == Command::InvalidHashcash {
                    ClientAction::Fail(ClientError::Rejected)
                } else {
                    ClientAction::Fail(ClientError::Protocol)
                }
            },
            _ => {
                self.phase = ClientPhase::Done;
                ClientAction::Fail(ClientError::Protocol)
            },
        }
    }
}

/// With a budget of zero, a fresh puzzle (counter zero) is never solved: the
/// client fails with work exhausted and submits nothing.
pub proof fn lemma_no_budget_exhausted(
    pre: ClientFlow,
    cmd: Command,
    data: Seq<char>,
    p: Hashcash,
    post: ClientFlow,
    act: ClientAction,
)
    requires
        pre.phase == ClientPhase::AwaitingPuzzle,
        pre.max_tries == 0,
        cmd == Command::Response,
        p.counter == 0,
        client_step(pre, cmd, data, Some(p), post, act),
    ensures
        act == ClientAction::Fail(ClientError::WorkExhausted),
        !(act is Submit),
{
    assert(!solvable_within(p, 0));
}

} // verus!
