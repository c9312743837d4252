//! The listener of one subscription, as a state machine: it is told what
//! happened to the stream and answers with what to do next. Opening the
//! stream, waiting and forwarding are left to the caller.

use vstd::prelude::*;
use rand::Rng;
use crate::models::ConnectionState;
use crate::text::same_text;

verus! {

/// The first delay before a new attempt, in milliseconds.
pub const FIRST_DELAY_MS: u64 = 1000;

/// The longest delay before a new attempt, before jitter, in milliseconds.
pub const MAX_DELAY_MS: u64 = 60000;

/// The jitter is drawn from `0..=MAX_JITTER`; a draw of `j` stretches the
/// delay by the factor `(800 + j) / 1000`, from 0.8 to 1.2.
pub const MAX_JITTER: u32 = 400;

/// After this many failures in a row the connection counts as down.
pub const DOWN_AFTER: u32 = 3;

/// How long the server may take to send the first byte, in seconds.
pub const CONNECT_TIMEOUT_SECS: u64 = 15;

/// How long the stream may stay silent before it is torn down, in seconds.
pub const KEEPALIVE_TIMEOUT_SECS: u64 = 300;

/// Where the listener stands.
#[derive(Clone, Copy, Debug, PartialEq, Eq, Structural)]
pub enum ListenerState {
    /// Not started, or shut down.
    Idle,
    /// An attempt to open the stream is under way.
    Connecting,
    /// The stream is open and has delivered an event.
    Open,
    /// The last attempt failed; the next one waits for its time.
    Backoff,
}

/// A command to the listener.
#[derive(Clone, Copy, Debug, PartialEq, Eq, Structural)]
pub enum ListenerCommand {
    Restart,
    Shutdown,
    QueryState,
}

/// The kind of an event that the stream delivered.
#[derive(Clone, Copy, Debug, PartialEq, Eq, Structural)]
pub enum StreamEvent {
    /// The server's greeting.
    Open,
    Keepalive,
    Message,
    PollRequest,
    /// An event of a kind that this client does not know.
    Other,
}

/// What the listener is told.
#[derive(Clone, Copy, Debug, PartialEq, Eq, Structural)]
pub enum ListenerInput {
    /// The listener is to begin.
    Start,
    /// The stream delivered an event of this kind.
    Event(StreamEvent),
    /// The attempt to open the stream failed, or the open stream ended.
    Failed,
    /// The open stream was silent for too long.
    WatchdogExpired,
    /// The time to wait before the next attempt is over.
    TimerElapsed,
    /// The network, which was unavailable, is available again.
    NetworkAvailable,
    Command(ListenerCommand),
}

/// What the caller is to do.
#[derive(Clone, Copy, Debug, PartialEq, Eq, Structural)]
pub enum ListenerEffect {
    /// Open the stream.
    Connect,
    /// Drop the stream, or the attempt to open it.
    Disconnect,
    /// Come back with `TimerElapsed` after so many milliseconds.
    Sleep(u64),
    /// Tell the consumers that the state of the connection has changed.
    Announce(ConnectionState),
    /// Hand the message that was just delivered to the consumers.
    Forward,
    /// Answer `QueryState` with this state.
    Reply(ConnectionState),
}

/// The listener.
#[derive(Clone, Copy, Debug, PartialEq, Eq, Structural)]
pub struct Listener {
    pub state: ListenerState,
    /// How many attempts have failed in a row since the last message or
    /// keepalive.
    pub failures: u32,
    /// How many attempts have failed in a row since the delay was last
    /// reset; the delay doubles with each.
    pub attempt: u32,
    /// The state of the connection as the consumers were last told.
    pub connection: ConnectionState,
}

/// The delay before the attempt that follows `attempt` failures, before
/// jitter: one second after the first, doubled after each further one, and
/// never more than sixty seconds.
pub open spec fn base_delay_ms(attempt: nat) -> nat
    decreases attempt,
{
    if attempt <= 1 {
        FIRST_DELAY_MS as nat
    } else if 2 * base_delay_ms((attempt - 1) as nat) >= MAX_DELAY_MS {
        MAX_DELAY_MS as nat
    } else {
        2 * base_delay_ms((attempt - 1) as nat)
    }
}

/// The delay with jitter: the base delay times `(800 + jitter) / 1000`,
/// where a jitter above the maximum counts as the maximum.
pub open spec fn delay_ms(attempt: nat, jitter: u32) -> nat {
    let j: nat = if jitter > MAX_JITTER {
        MAX_JITTER as nat
    } else {
        jitter as nat
    };
    base_delay_ms(attempt) * (800 + j) / 1000
}

/// `n + 1`, but never more than `u32::MAX`.
pub open spec fn one_more(n: u32) -> u32 {
    if n == u32::MAX {
        n
    } else {
        (n + 1) as u32
    }
}

/// What the consumers are told when the count of failures in a row reaches
/// `failures`: `Degraded` at the first, `Down` at the third, else nothing.
pub open spec fn announced_at(failures: u32) -> Option<ConnectionState> {
    if failures == 1 {
        Some(ConnectionState::Degraded)
    } else if failures == DOWN_AFTER {
        Some(ConnectionState::Down)
    } else {
        None
    }
}

impl Listener {
    /// A listener that has not begun; its connection counts as down.
    pub open spec fn initial() -> Listener {
        Listener {
            state: ListenerState::Idle,
            failures: 0,
            attempt: 0,
            connection: ConnectionState::Down,
        }
    }

    /// The listener after a failure, and what to do: count the failure,
    /// tell the consumers where the count calls for it, and wait before
    /// the next attempt. `drop_stream` says whether the stream is still
    /// held and has to be dropped first.
    pub open spec fn failed(self, jitter: u32, drop_stream: bool) -> (Listener, Seq<ListenerEffect>) {
        let failures = one_more(self.failures);
        let attempt = one_more(self.attempt);
        let told = match announced_at(failures) {
            Some(c) => c,
            None => self.connection,
        };
        let first: Seq<ListenerEffect> = if drop_stream {
            seq![ListenerEffect::Disconnect]
        } else {
            seq![]
        };
        let tell: Seq<ListenerEffect> = match announced_at(failures) {
            Some(c) => seq![ListenerEffect::Announce(c)],
            None => seq![],
        };
        (
            Listener { state: ListenerState::Backoff, failures, attempt, connection: told },
            first + tell + seq![ListenerEffect::Sleep(delay_ms(attempt as nat, jitter) as u64)],
        )
    }

    /// The listener after the stream delivered an event, and what to do. A
    /// message or a keepalive shows that the connection is up: the counts
    /// start over, and the consumers are told unless they know. A message
    /// is forwarded.
    pub open spec fn delivered(self, event: StreamEvent) -> (Listener, Seq<ListenerEffect>) {
        let alive = event == StreamEvent::Message || event == StreamEvent::Keepalive;
        let tell: Seq<ListenerEffect> = if alive && self.connection != ConnectionState::Up {
            seq![ListenerEffect::Announce(ConnectionState::Up)]
        } else {
            seq![]
        };
        let forward: Seq<ListenerEffect> = if event == StreamEvent::Message {
            seq![ListenerEffect::Forward]
        } else {
            seq![]
        };
        (
            if alive {
                Listener {
                    state: ListenerState::Open,
                    failures: 0,
                    attempt: 0,
                    connection: ConnectionState::Up,
                }
            } else {
                Listener { state: ListenerState::Open, ..self }
            },
            tell + forward,
        )
    }

    /// The listener after `input`, and what the caller is to do, in order.
    /// `jitter` is used where the listener has to wait. An input that does
    /// not fit the state changes nothing.
    pub open spec fn next(self, input: ListenerInput, jitter: u32) -> (Listener, Seq<ListenerEffect>) {
        let streaming = self.state == ListenerState::Connecting || self.state == ListenerState::Open;
        match input {
            ListenerInput::Start => if self.state == ListenerState::Idle {
                (Listener { state: ListenerState::Connecting, ..self }, seq![ListenerEffect::Connect])
            } else {
                (self, seq![])
            },
            ListenerInput::Event(event) => if streaming {
                self.delivered(event)
            } else {
                (self, seq![])
            },
            ListenerInput::Failed => if streaming {
                self.failed(jitter, false)
            } else {
                (self, seq![])
            },
            ListenerInput::WatchdogExpired => if streaming {
                self.failed(jitter, true)
            } else {
                (self, seq![])
            },
            ListenerInput::TimerElapsed => if self.state == ListenerState::Backoff {
                (Listener { state: ListenerState::Connecting, ..self }, seq![ListenerEffect::Connect])
            } else {
                (self, seq![])
            },
            ListenerInput::NetworkAvailable => if self.state == ListenerState::Backoff {
                (
                    Listener { state: ListenerState::Connecting, attempt: 0, ..self },
                    seq![ListenerEffect::Connect],
                )
            } else {
                (self, seq![])
            },
            ListenerInput::Command(ListenerCommand::QueryState) => (
                self,
                seq![ListenerEffect::Reply(self.connection)],
            ),
            ListenerInput::Command(ListenerCommand::Shutdown) => (
                Listener { state: ListenerState::Idle, ..self },
                if streaming {
                    seq![ListenerEffect::Disconnect]
                } else {
                    seq![]
                },
            ),
            ListenerInput::Command(ListenerCommand::Restart) => (
                Listener { state: ListenerState::Connecting, attempt: 0, ..self },
                if streaming {
                    seq![ListenerEffect::Disconnect, ListenerEffect::Connect]
                } else {
                    seq![ListenerEffect::Connect]
                },
            ),
        }
    }

    /// A listener that has not begun.
    pub fn new() -> (l: Listener)
        ensures
            l == Listener::initial(),
    {
        Listener {
            state: ListenerState::Idle,
            failures: 0,
            attempt: 0,
            connection: ConnectionState::Down,
        }
    }

    /// The state of the connection as the consumers were last told.
    pub fn state(&self) -> (c: ConnectionState)
        ensures
            c == self.connection,
    {
        self.connection
    }

    fn on_failure(&mut self, jitter: u32, drop_stream: bool) -> (effects: Vec<ListenerEffect>)
        ensures
            *final(self) == old(self).failed(jitter, drop_stream).0,
            effects@ == old(self).failed(jitter, drop_stream).1,
    {
        let failures = if self.failures == u32::MAX {
            self.failures
        } else {
            self.failures + 1
        };
        let attempt = if self.attempt == u32::MAX {
            self.attempt
        } else {
            self.attempt + 1
        };
        let mut effects: Vec<ListenerEffect> = Vec::new();
        if drop_stream {
            effects.push(ListenerEffect::Disconnect);
        }
        let mut told = self.connection;
        if failures == 1 {
            told = ConnectionState::Degraded;
            effects.push(ListenerEffect::Announce(told));
        } else if failures == DOWN_AFTER {
            told = ConnectionState::Down;
            effects.push(ListenerEffect::Announce(told));
        }
        effects.push(ListenerEffect::Sleep(backoff_delay(attempt, jitter)));
        self.state = ListenerState::Backoff;
        self.failures = failures;
        self.attempt = attempt;
        self.connection = told;
        assert(effects@ =~= old(self).failed(jitter, drop_stream).1);
        effects
    }

    fn on_event(&mut self, event: StreamEvent) -> (effects: Vec<ListenerEffect>)
        ensures
            *final(self) == old(self).delivered(event).0,
            effects@ == old(self).delivered(event).1,
    {
        let alive = match event {
            StreamEvent::Message => true,
            StreamEvent::Keepalive => true,
            _ => false,
        };
        let mut effects: Vec<ListenerEffect> = Vec::new();
        if alive {
            match self.connection {
                ConnectionState::Up => {},
                _ => {
                    effects.push(ListenerEffect::Announce(ConnectionState::Up));
                },
            }
            self.failures = 0;
            self.attempt = 0;
            self.connection = ConnectionState::Up;
        }
        match event {
            StreamEvent::Message => {
                effects.push(ListenerEffect::Forward);
            },
            _ => {},
        }
        self.state = ListenerState::Open;
        assert(effects@ =~= old(self).delivered(event).1);
        effects
    }

    /// Takes `input` and says what the caller is to do, in order; `jitter`
    /// is used where the listener has to wait.
    pub fn step_with(&mut self, input: ListenerInput, jitter: u32) -> (effects: Vec<ListenerEffect>)
        ensures
            *final(self) == old(self).next(input, jitter).0,
            effects@ == old(self).next(input, jitter).1,
    {
        let streaming = match self.state {
            ListenerState::Connecting => true,
            ListenerState::Open => true,
            _ => false,
        };
        let waiting = match self.state {
            ListenerState::Backoff => true,
            _ => false,
        };
        let idle = match self.state {
            ListenerState::Idle => true,
            _ => false,
        };
        let mut effects: Vec<ListenerEffect> = Vec::new();
        match input {
            ListenerInput::Start => {
                if idle {
                    self.state = ListenerState::Connecting;
                    effects.push(ListenerEffect::Connect);
                }
            },
            ListenerInput::Event(event) => {
                if streaming {
                    return self.on_event(event);
                }
            },
            ListenerInput::Failed => {
                if streaming {
                    return self.on_failure(jitter, false);
                }
            },
            ListenerInput::WatchdogExpired => {
                if streaming {
                    return self.on_failure(jitter, true);
                }
            },
            ListenerInput::TimerElapsed => {
                if waiting {
                    self.state = ListenerState::Connecting;
                    effects.push(ListenerEffect::Connect);
                }
            },
            ListenerInput::NetworkAvailable => {
                if waiting {
                    self.state = ListenerState::Connecting;
                    self.attempt = 0;
                    effects.push(ListenerEffect::Connect);
                }
            },
            ListenerInput::Command(ListenerCommand::QueryState) => {
                effects.push(ListenerEffect::Reply(self.connection));
            },
            ListenerInput::Command(ListenerCommand::Shutdown) => {
                self.state = ListenerState::Idle;
                if streaming {
                    effects.push(ListenerEffect::Disconnect);
                }
            },
            ListenerInput::Command(ListenerCommand::Restart) => {
                self.state = ListenerState::Connecting;
                self.attempt = 0;
                if streaming {
                    effects.push(ListenerEffect::Disconnect);
                }
                effects.push(ListenerEffect::Connect);
            },
        }
        assert(effects@ =~= old(self).next(input, jitter).1);
        effects
    }

    /// Takes `input` and says what the caller is to do, in order; where
    /// the listener has to wait, the jitter is drawn afresh.
    pub fn step(&mut self, input: ListenerInput) -> (effects: Vec<ListenerEffect>)
        ensures
            exists|jitter: u32|
                jitter <= MAX_JITTER && *final(self) == (#[trigger] old(self).next(input, jitter)).0
                    && effects@ == old(self).next(input, jitter).1,
    {
        let jitter = random_up_to(MAX_JITTER);
        self.step_with(input, jitter)
    }
}

/// Draws a number from `0..=max` with `rand::thread_rng().gen_range`.
/// Nothing is claimed of the number but its range.
#[verifier::external_body]
pub(crate) fn random_up_to(max: u32) -> (r: u32)
    ensures
        r <= max,
{
    rand::thread_rng().gen_range(0..=max)
}

/// The delay starts at one second, never exceeds sixty before jitter, and
/// with jitter stays within a fifth of the base delay on either side.
pub proof fn lemma_delay_within_a_fifth(attempt: nat, jitter: u32)
    ensures
        FIRST_DELAY_MS <= base_delay_ms(attempt) <= MAX_DELAY_MS,
        attempt <= 1 ==> base_delay_ms(attempt) == FIRST_DELAY_MS,
        attempt > 1 && 2 * base_delay_ms((attempt - 1) as nat) < MAX_DELAY_MS ==> base_delay_ms(
            attempt,
        ) == 2 * base_delay_ms((attempt - 1) as nat),
        (base_delay_ms(attempt) * 8) / 10 <= delay_ms(attempt, jitter) <= (base_delay_ms(attempt)
            * 12) / 10,
    decreases attempt,
{
    if attempt > 1 {
        lemma_delay_within_a_fifth((attempt - 1) as nat, jitter);
    }
    let base = base_delay_ms(attempt);
    let j: nat = if jitter > MAX_JITTER {
        MAX_JITTER as nat
    } else {
        jitter as nat
    };
    assert(base * 800 <= base * (800 + j) <= base * 1200) by (nonlinear_arith)
        requires
            0 <= j <= 400,
            base >= 0,
    ;
}

/// The third failure in a row brings the connection down: a listener that
/// is streaming after two failures and fails again tells the consumers
/// `Down`, waits, and counts the connection as down.
pub proof fn lemma_third_failure_brings_down(l: Listener, jitter: u32)
    requires
        l.state == ListenerState::Connecting || l.state == ListenerState::Open,
        l.failures == 2,
    ensures
        l.next(ListenerInput::Failed, jitter).0.state == ListenerState::Backoff,
        l.next(ListenerInput::Failed, jitter).0.connection == ConnectionState::Down,
        l.next(ListenerInput::Failed, jitter).1 == seq![
            ListenerEffect::Announce(ConnectionState::Down),
            ListenerEffect::Sleep(delay_ms(one_more(l.attempt) as nat, jitter) as u64),
        ],
{
    assert(l.next(ListenerInput::Failed, jitter).1 =~= seq![
        ListenerEffect::Announce(ConnectionState::Down),
        ListenerEffect::Sleep(delay_ms(one_more(l.attempt) as nat, jitter) as u64),
    ]);
}

/// One network-up edge is enough: a listener that waits retries at once,
/// with its delay reset; and the first message or keepalive of the new
/// stream tells the consumers `Up`, unless they know, and clears the count
/// of failures.
pub proof fn lemma_network_edge_recovers(l: Listener, jitter: u32, event: StreamEvent)
    requires
        l.state == ListenerState::Backoff,
        event == StreamEvent::Message || event == StreamEvent::Keepalive,
    ensures
        l.next(ListenerInput::NetworkAvailable, jitter).0.state == ListenerState::Connecting,
        l.next(ListenerInput::NetworkAvailable, jitter).0.attempt == 0,
        l.next(ListenerInput::NetworkAvailable, jitter).1 == seq![ListenerEffect::Connect],
        l.next(ListenerInput::NetworkAvailable, jitter).0.next(
            ListenerInput::Event(event),
            jitter,
        ).0 == (Listener {
            state: ListenerState::Open,
            failures: 0,
            attempt: 0,
            connection: ConnectionState::Up,
        }),
        l.connection != ConnectionState::Up ==> l.next(ListenerInput::NetworkAvailable, jitter).0.next(
            ListenerInput::Event(event),
            jitter,
        ).1.contains(ListenerEffect::Announce(ConnectionState::Up)),
{
    let retry = l.next(ListenerInput::NetworkAvailable, jitter).0;
    let effects = retry.next(ListenerInput::Event(event), jitter).1;
    if l.connection != ConnectionState::Up {
        assert(effects[0] == ListenerEffect::Announce(ConnectionState::Up));
    }
}

proof fn lemma_base_delay_stays_capped(from: nat, to: nat)
    requires
        1 <= from <= to,
        base_delay_ms(from) == MAX_DELAY_MS,
    ensures
        base_delay_ms(to) == MAX_DELAY_MS,
    decreases to - from,
{
    if from < to {
        lemma_base_delay_stays_capped(from, (to - 1) as nat);
    }
}

/// The delay before the attempt that follows `attempt` failures, with
/// `jitter`, in milliseconds.
pub fn backoff_delay(attempt: u32, jitter: u32) -> (ms: u64)
    ensures
        ms == delay_ms(attempt as nat, jitter),
        attempt >= 1 ==> 800 <= ms <= 72000,
{
    let mut base: u64 = FIRST_DELAY_MS;
    let mut k: u32 = 1;
    while k < attempt && base < MAX_DELAY_MS
        invariant
            1 <= k,
            k <= attempt || attempt == 0,
            attempt == 0 ==> k == 1,
            base == base_delay_ms(k as nat),
            FIRST_DELAY_MS <= base <= MAX_DELAY_MS,
        decreases attempt - k,
    {
        base = if 2 * base >= MAX_DELAY_MS {
            MAX_DELAY_MS
        } else {
            2 * base
        };
        k = k + 1;
    }
    proof {
        if k < attempt {
            lemma_base_delay_stays_capped(k as nat, attempt as nat);
        }
        assert(base == base_delay_ms(attempt as nat));
    }
    let j: u64 = if jitter > MAX_JITTER {
        MAX_JITTER as u64
    } else {
        jitter as u64
    };
    assert(base * (800 + j) <= 60000 * 1200) by (nonlinear_arith)
        requires
            base <= 60000,
            j <= 400,
    ;
    assert(base * (800 + j) >= 1000 * 800) by (nonlinear_arith)
        requires
            base >= 1000,
            j >= 0,
    ;
    base * (800 + j) / 1000
}

/// The kind of the event that the server calls `name`.
pub fn classify_event(name: &str) -> (kind: StreamEvent)
    ensures
        kind == event_kind(name@),
{
    if same_text(name, "message") {
        StreamEvent::Message
    } else if same_text(name, "keepalive") {
        StreamEvent::Keepalive
    } else if same_text(name, "open") {
        StreamEvent::Open
    } else if same_text(name, "poll_request") {
        StreamEvent::PollRequest
    } else {
        StreamEvent::Other
    }
}

/// The kind of the event that the server calls `name`.
pub open spec fn event_kind(name: Seq<char>) -> StreamEvent {
    if name == "message"@ {
        StreamEvent::Message
    } else if name == "keepalive"@ {
        StreamEvent::Keepalive
    } else if name == "open"@ {
        StreamEvent::Open
    } else if name == "poll_request"@ {
        StreamEvent::PollRequest
    } else {
        StreamEvent::Other
    }
}

} // verus!
