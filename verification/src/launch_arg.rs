//! The typed invocation payload handed to a handler-construction
//! callback.

use vstd::prelude::*;

use crate::service_info::ArgResult;
use crate::structs::TextMessage;

verus! {

/// The materialized invocation payload for one fired condition: which
/// trigger fired, the message that fired it, and optionally the resolved
/// argument values, one per descriptor of the condition.
pub enum LaunchArg {
    OnMessageMatch { matches_to: String, message: TextMessage, args: Option<Vec<ArgResult>> },
    OnCommandCall { command_name: String, message: TextMessage, args: Option<Vec<ArgResult>> },
}

impl LaunchArg {
    /// The message that fired the condition, whichever kind it was.
    pub open spec fn spec_message(self) -> TextMessage {
        match self {
            LaunchArg::OnMessageMatch { message, .. } => message,
            LaunchArg::OnCommandCall { message, .. } => message,
        }
    }

    /// The message that fired the condition.
    pub fn message(&self) -> (r: &TextMessage)
        ensures
            *r == self.spec_message(),
    {
        match self {
            LaunchArg::OnMessageMatch { message, .. } => message,
            LaunchArg::OnCommandCall { message, .. } => message,
        }
    }
}

} // verus!
