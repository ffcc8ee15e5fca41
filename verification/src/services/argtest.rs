//! A service demonstrating argument descriptors: a `role` command with
//! two required inputs and an optional, pattern-constrained color code.

use vstd::prelude::*;

use crate::launch_arg::LaunchArg;
use crate::launch_type::args_ordered;
use crate::launch_type::LaunchTiming;
use crate::launch_type::OnCommandCall;
use crate::pattern::compile_pattern;
use crate::pattern::regex_ok;
use crate::service::Controller;
use crate::service::Service;
use crate::service::ServiceFactory;
use crate::service_info::ArgType;
use crate::service_info::ServiceInfo;
use crate::service_info::ServiceInfoBuilder;
use crate::structs::TextChannel;

verus! {

/// Builds the role service's descriptor and its handlers.
pub struct ArgtestFactory;

/// A handler that answers in the channel the triggering message came
/// from.
#[derive(Debug)]
pub struct ArgTest {
    pub channel: TextChannel,
}

impl ArgtestFactory {
    /// The role service: one condition, firing on the `role` command,
    /// declaring two required descriptors and one optional descriptor
    /// whose value is constrained by a color-code pattern. The descriptor
    /// builds exactly when that pattern compiles.
    pub fn info() -> (r: Option<ServiceInfo<ArgtestFactory>>)
        ensures
            r is Some <==> regex_ok("^#(?:[0-9a-fA-F]{3}){1,2}$"@),
            r matches Some(info) ==> {
                &&& info.name@ == "role"@
                &&& info.initial_timings@.len() == 1
                &&& info.initial_timings@[0] matches LaunchTiming::OnCommandCall {
                    command_name,
                    args,
                    ..
                } && {
                    &&& command_name@ == "role"@
                    &&& args@.len() == 3
                    &&& !args@[0].is_optional
                    &&& !args@[1].is_optional
                    &&& args@[2].is_optional
                    &&& args@[2].arg_type matches ArgType::RegexMatch(_)
                }
            },
    {
        let regex = match compile_pattern("^#(?:[0-9a-fA-F]{3}){1,2}$") {
            Some(re) => re,
            None => {
                return None;
            },
        };
        let builder = OnCommandCall::new("role").arg(
            "role name",
            "name of the role to create",
            ArgType::String,
        ).arg("member", "who the created role is assigned to", ArgType::User).optional_arg(
            "color code",
            "an optional color for the role",
            ArgType::RegexMatch(regex),
        ).callback(ArgtestFactory);
        proof {
            let a = builder.args@;
            assert(a.len() == 3);
            assert(a[2].is_optional);
            assert(a.drop_last()[1] == a[1]);
            assert(a.drop_last()[0] == a[0]);
            assert(a.drop_last().drop_last()[0] == a.drop_last()[0]);
            assert(!a[1].is_optional);
            assert(!a[0].is_optional);
            assert(args_ordered(a));
        }
        let timing = match builder.build() {
            Ok(t) => t,
            Err(_) => {
                return None;
            },
        };
        let info = match ServiceInfoBuilder::new().name("role").description(
            "Creates a role and assigns it to the given member.",
        ).timing(timing).build() {
            Ok(info) => info,
            Err(_) => {
                return None;
            },
        };
        Some(info)
    }
}

impl<C: Controller> ServiceFactory<C> for ArgtestFactory {
    type Handler = ArgTest;

    fn make(&self, arg: LaunchArg) -> ArgTest {
        ArgTest { channel: arg.message().channel() }
    }
}

impl<C: Controller> Service<C> for ArgTest {
    fn launch(&self, t: &C) -> Result<(), String> {
        match t.send_message(&self.channel, "pong!") {
            Ok(_) => Ok(()),
            Err(e) => Err(e),
        }
    }
}

} // verus!
