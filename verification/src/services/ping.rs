//! A minimal service: answers the `ping` command with `pong!`.

use vstd::prelude::*;

use crate::launch_arg::LaunchArg;
use crate::launch_type::LaunchTiming;
use crate::launch_type::OnCommandCall;
use crate::service::Controller;
use crate::service::Service;
use crate::service::ServiceFactory;
use crate::service_info::ServiceInfo;
use crate::service_info::ServiceInfoBuilder;
use crate::structs::TextChannel;

verus! {

/// Builds the ping service's descriptor and its handlers.
pub struct PingServiceFactory;

/// A handler that answers in the channel the triggering message came
/// from.
#[derive(Debug)]
pub struct PingService {
    pub channel: TextChannel,
}

impl PingServiceFactory {
    /// The ping service: one condition, firing on the `ping` command,
    /// with no argument descriptors. The descriptor always builds.
    pub fn info() -> (r: Option<ServiceInfo<PingServiceFactory>>)
        ensures
            r matches Some(info) && {
                &&& info.name@ == "PingService"@
                &&& info.initial_timings@.len() == 1
                &&& info.initial_timings@[0] matches LaunchTiming::OnCommandCall {
                    command_name,
                    args,
                    ..
                } && command_name@ == "ping"@ && args@.len() == 0
            },
    {
        let builder = OnCommandCall::new("ping").callback(PingServiceFactory);
        let timing = match builder.build() {
            Ok(t) => t,
            Err(_) => {
                return None;
            },
        };
        let info = match ServiceInfoBuilder::new().name("PingService").description(
            "Answers the ping command with pong; meant for testing the bot.",
        ).timing(timing).build() {
            Ok(info) => info,
            Err(_) => {
                return None;
            },
        };
        Some(info)
    }
}

impl<C: Controller> ServiceFactory<C> for PingServiceFactory {
    type Handler = PingService;

    fn make(&self, arg: LaunchArg) -> PingService {
        PingService { channel: arg.message().channel() }
    }
}

impl<C: Controller> Service<C> for PingService {
    fn launch(&self, t: &C) -> Result<(), String> {
        match t.send_message(&self.channel, "pong!") {
            Ok(_) => Ok(()),
            Err(e) => Err(e),
        }
    }
}

} // verus!
