//! Wifi start-up as a state machine: connect, poll once per second for a
//! bounded time, retry a bounded number of times.
//!
//! The machine decides; whoever drives it performs each action and reports
//! what came of it as the next event.

use vstd::prelude::*;

verus! {

/// The two bounds of the start-up.
#[derive(Clone, Copy, Debug, PartialEq, Eq, Structural)]
pub struct WifiSettings {
    /// How many seconds one attempt waits for the connection.
    pub timeout_wait_seconds: u16,
    /// How many attempts are made before giving up.
    pub connection_attempts: u16,
}

/// What an attempt is waiting for.
#[derive(Clone, Copy, Debug, PartialEq, Eq, Structural)]
pub enum ConnectStep {
    /// The connect command to be issued.
    Command,
    /// The outcome of a status poll.
    Poll,
    /// One second to pass.
    Wait,
}

#[derive(Clone, Copy, Debug, PartialEq, Eq, Structural)]
pub enum WifiState {
    Idle,
    /// Attempt number `attempt`, counted from one, `waited` seconds into
    /// its wait.
    Connecting { attempt: u16, waited: u16, step: ConnectStep },
    Connected,
    Failed,
}

/// What the driver reports.
#[derive(Clone, Copy, Debug, PartialEq, Eq, Structural)]
pub enum WifiEvent {
    /// Start-up is to begin.
    Begin,
    /// The connect command was issued.
    Commanded,
    /// A status poll came back.
    Status { connected: bool },
    /// One second has passed.
    Waited,
    /// The command or the poll failed.
    Fault,
}

/// What the driver is to do next.
#[derive(Clone, Copy, Debug, PartialEq, Eq, Structural)]
pub enum WifiAction {
    /// Issue the connect command, then report `Commanded` or `Fault`.
    Connect,
    /// Poll the connection status, then report `Status` or `Fault`.
    Poll,
    /// Sleep for one second, then report `Waited`.
    Wait,
    /// Show that the connection stands. Start-up is over.
    SignalSuccess,
    /// Show that start-up failed. Nothing more is to be started.
    SignalFailure,
    /// The event does not belong to the state; nothing is to be done.
    Nothing,
}

/// Where the machine goes when attempt `attempt` has failed: to the next
/// attempt while one is left, else to `Failed`.
pub open spec fn after_failed_attempt(settings: WifiSettings, attempt: u16) -> (
    WifiState,
    WifiAction,
) {
    if attempt < settings.connection_attempts {
        (
            WifiState::Connecting {
                attempt: (attempt + 1) as u16,
                waited: 0,
                step: ConnectStep::Command,
            },
            WifiAction::Connect,
        )
    } else {
        (WifiState::Failed, WifiAction::SignalFailure)
    }
}

/// The transition function: the next state and the action to perform.
pub open spec fn wifi_next(settings: WifiSettings, state: WifiState, event: WifiEvent) -> (
    WifiState,
    WifiAction,
) {
    match (state, event) {
        (WifiState::Idle, WifiEvent::Begin) => after_failed_attempt(settings, 0),
        (
            WifiState::Connecting { attempt, waited, step: ConnectStep::Command },
            WifiEvent::Commanded,
        ) => if settings.timeout_wait_seconds > 0 {
            (
                WifiState::Connecting { attempt, waited: 0, step: ConnectStep::Poll },
                WifiAction::Poll,
            )
        } else {
            after_failed_attempt(settings, attempt)
        },
        (
            WifiState::Connecting { attempt, waited, step: ConnectStep::Poll },
            WifiEvent::Status { connected },
        ) => if connected {
            (WifiState::Connected, WifiAction::SignalSuccess)
        } else {
            (
                WifiState::Connecting { attempt, waited, step: ConnectStep::Wait },
                WifiAction::Wait,
            )
        },
        (
            WifiState::Connecting { attempt, waited, step: ConnectStep::Wait },
            WifiEvent::Waited,
        ) => if waited + 1 < settings.timeout_wait_seconds {
            (
                WifiState::Connecting {
                    attempt,
                    waited: (waited + 1) as u16,
                    step: ConnectStep::Poll,
                },
                WifiAction::Poll,
            )
        } else {
            after_failed_attempt(settings, attempt)
        },
        (WifiState::Connecting { attempt, waited, step: ConnectStep::Command }, WifiEvent::Fault) => {
            after_failed_attempt(settings, attempt)
        },
        (WifiState::Connecting { attempt, waited, step: ConnectStep::Poll }, WifiEvent::Fault) => {
            after_failed_attempt(settings, attempt)
        },
        _ => (state, WifiAction::Nothing),
    }
}

/// Whether a state can occur under the settings: attempts are counted from
/// one up to the bound, and an attempt never waits longer than its timeout.
pub open spec fn reachable_shape(settings: WifiSettings, state: WifiState) -> bool {
    match state {
        WifiState::Connecting { attempt, waited, step } => {
            &&& 1 <= attempt <= settings.connection_attempts
            &&& match step {
                ConnectStep::Command => waited == 0,
                _ => waited < settings.timeout_wait_seconds,
            }
        },
        _ => true,
    }
}

/// A bound on the number of actions that are still to come.
pub open spec fn remaining_actions(settings: WifiSettings, state: WifiState) -> int {
    let timeout = settings.timeout_wait_seconds as int;
    let attempts = settings.connection_attempts as int;
    match state {
        WifiState::Idle => attempts * (2 * timeout + 2) + 1,
        WifiState::Connecting { attempt, waited, step } => (attempts - attempt) * (2 * timeout + 2)
            + match step {
            ConnectStep::Command => 2 * timeout + 1,
            ConnectStep::Poll => 2 * (timeout - waited),
            ConnectStep::Wait => 2 * (timeout - waited) - 1,
        },
        _ => 0,
    }
}

fn fail_attempt(settings: &WifiSettings, attempt: u16) -> (res: (WifiState, WifiAction))
    ensures
        res == after_failed_attempt(*settings, attempt),
{
    if attempt < settings.connection_attempts {
        (
            WifiState::Connecting { attempt: attempt + 1, waited: 0, step: ConnectStep::Command },
            WifiAction::Connect,
        )
    } else {
        (WifiState::Failed, WifiAction::SignalFailure)
    }
}

/// One step of the start-up: the next state, and the action to perform.
pub fn wifi_step(settings: &WifiSettings, state: WifiState, event: WifiEvent) -> (res: (
    WifiState,
    WifiAction,
))
    ensures
        res == wifi_next(*settings, state, event),
{
    match state {
        WifiState::Idle => match event {
            WifiEvent::Begin => fail_attempt(settings, 0),
            _ => (state, WifiAction::Nothing),
        },
        WifiState::Connecting { attempt, waited, step } => match step {
            ConnectStep::Command => match event {
                WifiEvent::Commanded => if settings.timeout_wait_seconds > 0 {
                    (
                        WifiState::Connecting { attempt, waited: 0, step: ConnectStep::Poll },
                        WifiAction::Poll,
                    )
                } else {
                    fail_attempt(settings, attempt)
                },
                WifiEvent::Fault => fail_attempt(settings, attempt),
                _ => (state, WifiAction::Nothing),
            },
            ConnectStep::Poll => match event {
                WifiEvent::Status { connected } => if connected {
                    (WifiState::Connected, WifiAction::SignalSuccess)
                } else {
                    (
                        WifiState::Connecting { attempt, waited, step: ConnectStep::Wait },
                        WifiAction::Wait,
                    )
                },
                WifiEvent::Fault => fail_attempt(settings, attempt),
                _ => (state, WifiAction::Nothing),
            },
            ConnectStep::Wait => match event {
                WifiEvent::Waited => if waited < settings.timeout_wait_seconds && waited + 1
                    < settings.timeout_wait_seconds {
                    (
                        WifiState::Connecting {
                            attempt,
                            waited: waited + 1,
                            step: ConnectStep::Poll,
                        },
                        WifiAction::Poll,
                    )
                } else {
                    fail_attempt(settings, attempt)
                },
                _ => (state, WifiAction::Nothing),
            },
        },
        _ => (state, WifiAction::Nothing),
    }
}

/// Start-up is bounded: every step that asks for an action brings the
/// machine strictly closer to its end, and keeps it within its bounds.
pub proof fn lemma_every_action_makes_progress(
    settings: WifiSettings,
    state: WifiState,
    event: WifiEvent,
)
    requires
        reachable_shape(settings, state),
    ensures
        reachable_shape(settings, wifi_next(settings, state, event).0),
        remaining_actions(settings, state) >= 0,
        wifi_next(settings, state, event).1 != WifiAction::Nothing ==> remaining_actions(
            settings,
            wifi_next(settings, state, event).0,
        ) < remaining_actions(settings, state),
        wifi_next(settings, state, event).1 == WifiAction::Nothing ==> wifi_next(
            settings,
            state,
            event,
        ).0 == state,
{
    let timeout = settings.timeout_wait_seconds as int;
    let attempts = settings.connection_attempts as int;
    let per = 2 * timeout + 2;
    match state {
        WifiState::Connecting { attempt, waited, step } => {
            assert((attempts - attempt) * per >= 0) by (nonlinear_arith)
                requires
                    attempts - attempt >= 0,
                    per >= 0,
            ;
            assert((attempts - attempt - 1) * per == (attempts - attempt) * per - per)
                by (nonlinear_arith);
        },
        _ => {
            assert(attempts * per >= 0) by (nonlinear_arith)
                requires
                    attempts >= 0,
                    per >= 0,
            ;
            assert((attempts - 1) * per == attempts * per - per) by (nonlinear_arith);
        },
    }
}

/// The two ends are final, and each is reached in one way only: `Connected`
/// by a poll that found the connection, `Failed` by the failure of the last
/// attempt that the settings allow.
pub proof fn lemma_ends_of_start_up(settings: WifiSettings, state: WifiState, event: WifiEvent)
    requires
        reachable_shape(settings, state),
    ensures
        state == WifiState::Connected || state == WifiState::Failed ==> wifi_next(
            settings,
            state,
            event,
        ) == (state, WifiAction::Nothing),
        state != WifiState::Connected && wifi_next(settings, state, event).0
            == WifiState::Connected ==> event == (WifiEvent::Status { connected: true })
            && wifi_next(settings, state, event).1 == WifiAction::SignalSuccess,
        state != WifiState::Failed && wifi_next(settings, state, event).0 == WifiState::Failed ==> {
            &&& wifi_next(settings, state, event).1 == WifiAction::SignalFailure
            &&& match state {
                WifiState::Connecting { attempt, waited, step } => attempt
                    == settings.connection_attempts,
                _ => settings.connection_attempts == 0,
            }
        },
{
}

} // verus!
