//! Launch conditions and the fluent builder that validates them.

use vstd::prelude::*;

use crate::service_info::ArgEntry;
use crate::service_info::ArgType;

verus! {

/// When a service activates: on an exact command call or on an exact
/// message-content match. `H` is the handler-construction value the
/// condition carries; a fired condition hands it the built launch
/// argument.
#[derive(Debug)]
pub enum LaunchTiming<H> {
    OnMessageMatch { target_content: String, args: Vec<ArgEntry>, generator: H },
    OnCommandCall { command_name: String, args: Vec<ArgEntry>, generator: H },
}

/// Why a launch condition could not be built.
#[derive(Clone, Copy, PartialEq, Eq, Structural, Debug)]
pub enum BuildLaunchTimingError {
    /// No handler-construction callback was bound.
    MissingCallback,
    /// A required descriptor follows an optional one.
    InvalidArgOrder,
}

/// The trigger a condition under construction is aimed at.
#[derive(Debug)]
pub enum TimingTarget {
    MessageMatch { target_content: String },
    CommandCall { command_name: String },
}

/// A descriptor list is well ordered when no required entry follows an
/// optional one.
pub open spec fn args_ordered(args: Seq<ArgEntry>) -> bool {
    forall|i: int, j: int|
        0 <= i < j < args.len() && #[trigger] args[i].is_optional ==> #[trigger] args[j].is_optional
}

/// What `build` produces from a builder on success: the timing whose kind
/// and payload come from the target, whose descriptor list is the
/// accumulated one, and whose generator is the bound callback.
pub open spec fn built_from<H>(b: LaunchTimingBuilder<H>, t: LaunchTiming<H>) -> bool {
    match b.target {
        TimingTarget::MessageMatch { target_content } => {
            &&& t matches LaunchTiming::OnMessageMatch {
                target_content: tc,
                args,
                generator,
            }
            &&& tc == target_content
            &&& args == b.args
            &&& b.callback == Some(generator)
        },
        TimingTarget::CommandCall { command_name } => {
            &&& t matches LaunchTiming::OnCommandCall { command_name: cn, args, generator }
            &&& cn == command_name
            &&& args == b.args
            &&& b.callback == Some(generator)
        },
    }
}

/// Entry point for a condition that fires on exact message content.
pub struct OnMessageMatch;

impl OnMessageMatch {
    /// A builder aimed at messages whose raw content equals
    /// `target_content`.
    pub fn new<H>(target_content: &str) -> (r: LaunchTimingBuilder<H>)
        ensures
            r.target matches TimingTarget::MessageMatch { target_content: tc } && tc@
                == target_content@,
            r.args@.len() == 0,
            r.callback is None,
    {
        LaunchTimingBuilder::new(
            TimingTarget::MessageMatch { target_content: target_content.to_owned() },
        )
    }
}

/// Entry point for a condition that fires on a command call.
pub struct OnCommandCall;

impl OnCommandCall {
    /// A builder aimed at calls of the command named `command_name`.
    pub fn new<H>(command_name: &str) -> (r: LaunchTimingBuilder<H>)
        ensures
            r.target matches TimingTarget::CommandCall { command_name: cn } && cn@
                == command_name@,
            r.args@.len() == 0,
            r.callback is None,
    {
        LaunchTimingBuilder::new(TimingTarget::CommandCall { command_name: command_name.to_owned() })
    }
}

/// Accumulates argument descriptors and a handler-construction callback
/// for one launch condition; `build` validates the declaration.
pub struct LaunchTimingBuilder<H> {
    pub target: TimingTarget,
    pub args: Vec<ArgEntry>,
    pub callback: Option<H>,
}

impl<H> LaunchTimingBuilder<H> {
    /// An empty builder for the given trigger.
    pub fn new(target: TimingTarget) -> (r: Self)
        ensures
            r.target == target,
            r.args@.len() == 0,
            r.callback is None,
    {
        LaunchTimingBuilder { target, args: Vec::new(), callback: None }
    }

    /// Appends a required argument descriptor.
    pub fn arg(self, name: &str, description: &str, arg_type: ArgType) -> (r: Self)
        ensures
            r.target == self.target,
            r.callback == self.callback,
            r.args@.len() == self.args@.len() + 1,
            r.args@.drop_last() == self.args@,
            r.args@.last().name@ == name@,
            r.args@.last().description@ == description@,
            r.args@.last().arg_type == arg_type,
            !r.args@.last().is_optional,
    {
        self.push_arg(
            ArgEntry {
                name: name.to_owned(),
                description: description.to_owned(),
                arg_type,
                is_optional: false,
            },
        )
    }

    /// Appends an optional argument descriptor.
    pub fn optional_arg(self, name: &str, description: &str, arg_type: ArgType) -> (r: Self)
        ensures
            r.target == self.target,
            r.callback == self.callback,
            r.args@.len() == self.args@.len() + 1,
            r.args@.drop_last() == self.args@,
            r.args@.last().name@ == name@,
            r.args@.last().description@ == description@,
            r.args@.last().arg_type == arg_type,
            r.args@.last().is_optional,
    {
        self.push_arg(
            ArgEntry {
                name: name.to_owned(),
                description: description.to_owned(),
                arg_type,
                is_optional: true,
            },
        )
    }

    /// Appends one descriptor, keeping target and callback.
    fn push_arg(self, entry: ArgEntry) -> (r: Self)
        ensures
            r.target == self.target,
            r.callback == self.callback,
            r.args@ == self.args@.push(entry),
    {
        let mut args = self.args;
        args.push(entry);
        LaunchTimingBuilder { target: self.target, args, callback: self.callback }
    }

    /// Binds the handler-construction callback; a later call overwrites an
    /// earlier one.
    pub fn callback(self, callback: H) -> (r: Self)
        ensures
            r.target == self.target,
            r.args == self.args,
            r.callback == Some(callback),
    {
        LaunchTimingBuilder { target: self.target, args: self.args, callback: Some(callback) }
    }

    /// Builds the condition. Fails with `InvalidArgOrder` if a required
    /// descriptor follows an optional one, else with `MissingCallback` if
    /// no callback was bound; otherwise the built condition carries the
    /// accumulated declaration unchanged.
    pub fn build(self) -> (r: Result<LaunchTiming<H>, BuildLaunchTimingError>)
        ensures
            r is Ok <==> (args_ordered(self.args@) && self.callback is Some),
            !args_ordered(self.args@) ==> r == Err::<LaunchTiming<H>, _>(
                BuildLaunchTimingError::InvalidArgOrder,
            ),
            args_ordered(self.args@) && self.callback is None ==> r == Err::<LaunchTiming<H>, _>(
                BuildLaunchTimingError::MissingCallback,
            ),
            r matches Ok(t) ==> built_from(self, t),
    {
        let n = self.args.len();
        let mut entered_optional = false;
        let mut i: usize = 0;
        while i < n
            invariant
                i <= n,
                n == self.args@.len(),
                entered_optional <==> exists|k: int|
                    0 <= k < i && #[trigger] self.args@[k].is_optional,
                forall|p: int, q: int|
                    0 <= p < q < i && #[trigger] self.args@[p].is_optional
                        ==> #[trigger] self.args@[q].is_optional,
            decreases n - i,
        {
            if self.args[i].is_optional {
                entered_optional = true;
            } else {
                if entered_optional {
                    proof {
                        let k = choose|k: int| 0 <= k < i && #[trigger] self.args@[k].is_optional;
                        assert(!args_ordered(self.args@)) by {
                            assert(self.args@[k].is_optional && !self.args@[i as int].is_optional);
                        }
                    }
                    return Err(BuildLaunchTimingError::InvalidArgOrder);
                }
            }
            i += 1;
        }
        let callback = match self.callback {
            Some(c) => c,
            None => {
                return Err(BuildLaunchTimingError::MissingCallback);
            },
        };
        match self.target {
            TimingTarget::MessageMatch { target_content } => Ok(
                LaunchTiming::OnMessageMatch { target_content, args: self.args, generator: callback },
            ),
            TimingTarget::CommandCall { command_name } => Ok(
                LaunchTiming::OnCommandCall { command_name, args: self.args, generator: callback },
            ),
        }
    }
}

} // verus!
