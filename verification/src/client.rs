//! The decisions of a client that keeps a connection to a server: what to
//! report after each attempt to connect and whether to try again.

use vstd::prelude::*;

verus! {

/// What a client reports about its connection.
#[derive(Copy, Clone, Debug, PartialEq, Eq, Hash, Structural)]
pub enum ClientState {
    /// The connection stands.
    Connected,
    /// Connecting failed.
    ConnectError,
    /// Connecting took too long.
    ConnectTimeout,
    /// The connection is gone.
    Disconnected,
    /// Connecting failed and another attempt follows.
    TryReconnect,
}

impl ClientState {
    /// The number of a state as handed across a C interface: its position in
    /// the declaration.
    pub open spec fn spec_code(self) -> u32 {
        match self {
            ClientState::Connected => 0,
            ClientState::ConnectError => 1,
            ClientState::ConnectTimeout => 2,
            ClientState::Disconnected => 3,
            ClientState::TryReconnect => 4,
        }
    }

    /// The number of this state as handed across a C interface.
    pub fn code(self) -> (r: u32)
        ensures
            r == self.spec_code(),
    {
        match self {
            ClientState::Connected => 0,
            ClientState::ConnectError => 1,
            ClientState::ConnectTimeout => 2,
            ClientState::Disconnected => 3,
            ClientState::TryReconnect => 4,
        }
    }
}

/// How an attempt to connect ended.
#[derive(Copy, Clone, Debug, PartialEq, Eq, Structural)]
pub enum ConnectOutcome {
    /// The connection was made; it has since been used and has ended.
    Connected,
    /// The peer refused or the network failed.
    Failed,
    /// No answer came in time.
    TimedOut,
}

/// What the client does after an attempt.
#[derive(Copy, Clone, Debug, PartialEq, Eq, Structural)]
pub enum NextStep {
    /// Wait this many milliseconds, then connect again.
    Retry(u64),
    /// Give up.
    Stop,
}

/// The states a client reports for an attempt that ended with `outcome`,
/// given whether it reconnects on its own: a connection that was made is
/// reported as made and then as gone; a failure is reported as an error (or a
/// timeout) when the client does not reconnect, else as a coming retry.
pub open spec fn reports_for(outcome: ConnectOutcome, auto_reconnect: bool) -> Seq<ClientState> {
    match outcome {
        ConnectOutcome::Connected => seq![ClientState::Connected, ClientState::Disconnected],
        ConnectOutcome::Failed => if auto_reconnect {
            seq![ClientState::TryReconnect]
        } else {
            seq![ClientState::ConnectError]
        },
        ConnectOutcome::TimedOut => if auto_reconnect {
            seq![ClientState::TryReconnect]
        } else {
            seq![ClientState::ConnectTimeout]
        },
    }
}

/// The states to report for an attempt that ended with `outcome`.
pub fn attempt_reports(outcome: ConnectOutcome, auto_reconnect: bool) -> (r: Vec<ClientState>)
    ensures
        r@ == reports_for(outcome, auto_reconnect),
{
    let mut r: Vec<ClientState> = Vec::new();
    match outcome {
        ConnectOutcome::Connected => {
            r.push(ClientState::Connected);
            r.push(ClientState::Disconnected);
        },
        ConnectOutcome::Failed => {
            if auto_reconnect {
                r.push(ClientState::TryReconnect);
            } else {
                r.push(ClientState::ConnectError);
            }
        },
        ConnectOutcome::TimedOut => {
            if auto_reconnect {
                r.push(ClientState::TryReconnect);
            } else {
                r.push(ClientState::ConnectTimeout);
            }
        },
    }
    proof {
        assert(r@ =~= reports_for(outcome, auto_reconnect));
    }
    r
}

/// What follows an attempt: another one after `delay_ms` while the client
/// reconnects on its own, else the end.  `auto_reconnect` is the setting as
/// read after the attempt was reported.
pub fn next_step(auto_reconnect: bool, delay_ms: u64) -> (r: NextStep)
    ensures
        r == (if auto_reconnect {
            NextStep::Retry(delay_ms)
        } else {
            NextStep::Stop
        }),
{
    if auto_reconnect {
        NextStep::Retry(delay_ms)
    } else {
        NextStep::Stop
    }
}

/// Whether a peer silent for `elapsed_ns` nanoseconds counts as gone, with
/// the timeout `timeout_ms` milliseconds: only strictly longer silence does.
pub fn peer_inactive(elapsed_ns: u128, timeout_ms: u64) -> (r: bool)
    ensures
        r == (elapsed_ns > timeout_ms * 1_000_000),
{
    elapsed_ns > timeout_ms as u128 * 1_000_000
}

/// The settings of a client: whether it reconnects on its own, how long it
/// waits before that, and how long a peer may stay silent.
#[derive(Copy, Clone, Debug, PartialEq, Eq, Structural)]
pub struct ClientSettings {
    pub auto_reconnect: bool,
    pub reconnect_delay_ms: u64,
    pub timeout_ms: u64,
}

impl ClientSettings {
    /// Reconnecting on its own after one second, a peer silent for three
    /// seconds counting as gone.
    pub fn new() -> (s: Self)
        ensures
            s == (ClientSettings { auto_reconnect: true, reconnect_delay_ms: 1000, timeout_ms: 3000 }),
    {
        ClientSettings { auto_reconnect: true, reconnect_delay_ms: 1000, timeout_ms: 3000 }
    }
}

/// What is reported for each attempt, whatever the reconnect setting: a
/// connection that was made is reported as made and then as gone; a failure
/// or a timeout is reported as a coming retry when the client reconnects on
/// its own, and otherwise as an error or a timeout.
pub proof fn lemma_reports_table(auto_reconnect: bool)
    ensures
        reports_for(ConnectOutcome::Connected, auto_reconnect) == seq![
            ClientState::Connected,
            ClientState::Disconnected,
        ],
        reports_for(ConnectOutcome::Failed, auto_reconnect) == (if auto_reconnect {
            seq![ClientState::TryReconnect]
        } else {
            seq![ClientState::ConnectError]
        }),
        reports_for(ConnectOutcome::TimedOut, auto_reconnect) == (if auto_reconnect {
            seq![ClientState::TryReconnect]
        } else {
            seq![ClientState::ConnectTimeout]
        }),
        reports_for(ConnectOutcome::Connected, true) == reports_for(
            ConnectOutcome::Connected,
            false,
        ),
{
}

/// A client that does not reconnect stops after any attempt; one that does
/// never stops by itself, and reports a failed attempt only as a retry.
pub proof fn lemma_reconnect_policy(outcome: ConnectOutcome)
    ensures
        reports_for(outcome, true).len() >= 1,
        outcome != ConnectOutcome::Connected ==> reports_for(outcome, true) == seq![
            ClientState::TryReconnect,
        ],
        outcome != ConnectOutcome::Connected ==> !reports_for(outcome, false).contains(
            ClientState::TryReconnect,
        ),
{
    if outcome != ConnectOutcome::Connected {
        let s = reports_for(outcome, false);
        assert(s.len() == 1);
        assert(s[0] != ClientState::TryReconnect);
    }
}

} // verus!
