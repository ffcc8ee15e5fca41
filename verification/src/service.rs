//! The collaborator contracts around the engine: handlers, their
//! factories, the control surface, and the platform connector.

use vstd::prelude::*;

use crate::launch_arg::LaunchArg;
use crate::structs::TextChannel;
use crate::structs::TextMessage;

verus! {

/// Errors from constructing or running a platform connector.
#[derive(Debug)]
pub enum ClientError {
    InitializeClientError(String),
    StartingClientError(String),
}

/// The narrow capability surface handlers act on. The platform connector
/// implements it; sending can only target a text-capable channel, and a
/// transport failure is surfaced as an opaque string.
pub trait Controller {
    fn send_message(&self, channel: &TextChannel, content: &str) -> Result<TextMessage, String>;
}

/// A handler instance, constructed for one fired condition and run once
/// against the control surface. A returned error is logged by the caller
/// and isolated from other matches.
pub trait Service<C: Controller> {
    fn launch(&self, controller: &C) -> Result<(), String>;
}

/// A handler-construction value: bound to a launch condition by the
/// builder, and asked for a handler instance each time the condition
/// fires. Factories shipped here pair this with an `info` function that
/// assembles the service's descriptor.
pub trait ServiceFactory<C: Controller>: Sized {
    type Handler: Service<C>;

    fn make(&self, arg: LaunchArg) -> Self::Handler;
}

/// A platform connector: once started, it produces the event stream the
/// engine consumes and implements the control surface it announces.
pub trait Client {
    type Controller: Controller;

    fn start(&mut self) -> Result<(), ClientError>;
}

/// The only two events a connector may emit. Exactly one `OnReady` must
/// precede any `OnMessage` the engine is expected to act on.
pub enum ClientEvent<C> {
    OnReady(C),
    OnMessage(TextMessage),
}

} // verus!
