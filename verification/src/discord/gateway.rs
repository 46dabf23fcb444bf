//! What the daemon's gateway loop does with each thing that wakes it up.
//! The loop itself (the shard, the signal handler, the timers) runs outside
//! the library; it hands each wake-up here and performs the action it gets.

use vstd::prelude::*;
use vstd::string::*;
use crate::discord::error::{plain_error, AppError, ErrorKind};

verus! {

/// Days of resolved-ask history the retention pass keeps.
pub const RETENTION_DAYS: u32 = 30;

/// One wake-up of the gateway loop.
#[derive(Clone, Copy, Debug, PartialEq, Eq, Structural)]
pub enum GatewayEvent {
    /// SIGTERM arrived.
    Terminate,
    /// The expire timer fired.
    ExpireTick,
    /// The retention timer fired.
    CleanupTick,
    /// The shard delivered an `INTERACTION_CREATE`.
    Interaction,
    /// The shard delivered some other event.
    OtherEvent,
    /// The shard reported a receive error; it reconnects on its own.
    ReceiveError,
    /// The shard's stream ended, which it does only on a fatal close.
    StreamEnded,
}

/// What the loop does next.
#[derive(Clone, Copy, Debug, PartialEq, Eq, Structural)]
pub enum GatewayAction {
    /// Return `Ok`: a graceful stop.
    Stop,
    /// Run the expire pass; a failure is logged and the loop goes on.
    ExpirePass,
    /// Drop resolved asks older than `retention_days`; a failure is logged.
    Cleanup { retention_days: u32 },
    /// Hand the interaction to the interaction rules; a failure is logged.
    Dispatch,
    /// Nothing to do.
    Ignore,
    /// Log the receive error and keep serving.
    LogReceiveError,
    /// Return the fatal-close error: the daemon does not retry.
    Fail,
}

/// Whether the loop keeps running after `action`.
pub open spec fn continues(action: GatewayAction) -> bool {
    !(action is Stop) && !(action is Fail)
}

/// The action for each wake-up.
pub open spec fn action_for(event: GatewayEvent) -> GatewayAction {
    match event {
        GatewayEvent::Terminate => GatewayAction::Stop,
        GatewayEvent::ExpireTick => GatewayAction::ExpirePass,
        GatewayEvent::CleanupTick => GatewayAction::Cleanup { retention_days: RETENTION_DAYS },
        GatewayEvent::Interaction => GatewayAction::Dispatch,
        GatewayEvent::OtherEvent => GatewayAction::Ignore,
        GatewayEvent::ReceiveError => GatewayAction::LogReceiveError,
        GatewayEvent::StreamEnded => GatewayAction::Fail,
    }
}

/// One step of the gateway loop. Only a terminate signal and the end of
/// the stream leave the loop; a failed pass, a failed interaction or a
/// receive error never does.
pub fn gateway_step(event: GatewayEvent) -> (action: GatewayAction)
    ensures
        action == action_for(event),
        continues(action) <==> !(event is Terminate || event is StreamEnded),
{
    match event {
        GatewayEvent::Terminate => GatewayAction::Stop,
        GatewayEvent::ExpireTick => GatewayAction::ExpirePass,
        GatewayEvent::CleanupTick => GatewayAction::Cleanup { retention_days: RETENTION_DAYS },
        GatewayEvent::Interaction => GatewayAction::Dispatch,
        GatewayEvent::OtherEvent => GatewayAction::Ignore,
        GatewayEvent::ReceiveError => GatewayAction::LogReceiveError,
        GatewayEvent::StreamEnded => GatewayAction::Fail,
    }
}

pub open spec fn fatal_close_message() -> Seq<char> {
    "gateway fatally closed (authentication failed or invalid intents); daemon will not retry"@
}

pub open spec fn unexpected_end_message(state: Seq<char>) -> Seq<char> {
    "gateway stream ended unexpectedly (state: "@ + state + ")"@
}

/// The error the daemon stops with once the shard's stream has ended. A
/// fatal close (authentication failed, intents refused) is an `auth` error;
/// any other end is a `network` error naming the shard's state, given as
/// its debug text.
pub fn fatal_close_error(fatally_closed: bool, state: &str) -> (e: AppError)
    ensures
        fatally_closed ==> plain_error(ErrorKind::Auth, fatal_close_message(), e),
        !fatally_closed ==> plain_error(ErrorKind::Network, unexpected_end_message(state@), e),
{
    if fatally_closed {
        AppError::new(
            ErrorKind::Auth,
            "gateway fatally closed (authentication failed or invalid intents); daemon will not retry",
        )
    } else {
        let mut message = String::new();
        message.append("gateway stream ended unexpectedly (state: ");
        message.append(state);
        message.append(")");
        AppError::with_message(ErrorKind::Network, message)
    }
}

} // verus!
