//! Service descriptors: what a service is called, what it does, and the
//! argument lists its launch conditions declare.

use vstd::prelude::*;

use crate::launch_type::LaunchTiming;
use crate::structs::TextChannel;
use crate::structs::User;
use crate::structs::VoiceChannel;

verus! {

/// The type an argument descriptor expects of one handler input.
#[derive(Debug)]
pub enum ArgType {
    /// Any text.
    String,
    /// An integer.
    Int,
    /// A decimal number.
    Double,
    /// A reference to a platform user.
    User,
    /// A reference to a text-capable channel.
    TextChannel,
    /// A reference to a voice channel.
    VoiceChannel,
    /// Text accepted by a compiled regular expression.
    RegexMatch(regex::Regex),
    /// Text accepted by a predicate enforced outside the engine; the
    /// payload names that predicate.
    Custom(String),
}

/// One resolved handler input, matching its descriptor's `ArgType`.
#[derive(Debug)]
pub enum ArgResult {
    String(String),
    Int(i128),
    /// The decimal literal as delivered; the engine keeps no
    /// floating-point values.
    Double(String),
    User(User),
    TextChannel(TextChannel),
    VoiceChannel(VoiceChannel),
    RegexMatch(regex::Regex, String),
    Custom(String),
}

/// One named, described, typed input a handler expects.
#[derive(Debug)]
pub struct ArgEntry {
    pub name: String,
    pub description: String,
    pub arg_type: ArgType,
    pub is_optional: bool,
}

/// A named, described unit of functionality together with the launch
/// conditions that trigger it. `H` is the handler-construction value bound
/// to each condition.
#[derive(Debug)]
pub struct ServiceInfo<H> {
    pub name: String,
    pub description: String,
    pub initial_timings: Vec<LaunchTiming<H>>,
}

/// Why a service descriptor could not be built.
#[derive(Clone, Copy, PartialEq, Eq, Structural, Debug)]
pub enum BuildServiceInfoError {
    /// No name was set.
    MissingName,
    /// No description was set.
    MissingDescription,
    /// No launch condition was added: the service could never be
    /// triggered.
    NoTimings,
}

/// Accumulates the parts of a `ServiceInfo`; `build` validates that every
/// required part was set.
pub struct ServiceInfoBuilder<H> {
    pub name: Option<String>,
    pub description: Option<String>,
    pub initial_timings: Vec<LaunchTiming<H>>,
}

impl<H> ServiceInfoBuilder<H> {
    /// An empty builder: nothing set, no conditions added.
    pub fn new() -> (r: Self)
        ensures
            r.name is None,
            r.description is None,
            r.initial_timings@.len() == 0,
    {
        ServiceInfoBuilder { name: None, description: None, initial_timings: Vec::new() }
    }

    /// Sets the service name; a later call overwrites an earlier one.
    pub fn name(self, name: &str) -> (r: Self)
        ensures
            r.name matches Some(n) && n@ == name@,
            r.description == self.description,
            r.initial_timings == self.initial_timings,
    {
        ServiceInfoBuilder {
            name: Some(name.to_owned()),
            description: self.description,
            initial_timings: self.initial_timings,
        }
    }

    /// Sets the service description; a later call overwrites an earlier
    /// one.
    pub fn description(self, description: &str) -> (r: Self)
        ensures
            r.description matches Some(d) && d@ == description@,
            r.name == self.name,
            r.initial_timings == self.initial_timings,
    {
        ServiceInfoBuilder {
            name: self.name,
            description: Some(description.to_owned()),
            initial_timings: self.initial_timings,
        }
    }

    /// Appends one built launch condition; a service may bind several.
    pub fn timing(self, timing: LaunchTiming<H>) -> (r: Self)
        ensures
            r.name == self.name,
            r.description == self.description,
            r.initial_timings@ == self.initial_timings@.push(timing),
    {
        let mut timings = self.initial_timings;
        timings.push(timing);
        ServiceInfoBuilder { name: self.name, description: self.description, initial_timings: timings }
    }

    /// Builds the descriptor. Succeeds exactly when a name and a
    /// description were set and at least one condition was added; the
    /// first missing part (name, then description, then conditions) names
    /// the error.
    pub fn build(self) -> (r: Result<ServiceInfo<H>, BuildServiceInfoError>)
        ensures
            r is Ok <==> (self.name is Some && self.description is Some
                && self.initial_timings@.len() > 0),
            self.name is None ==> r == Err::<ServiceInfo<H>, _>(BuildServiceInfoError::MissingName),
            self.name is Some && self.description is None
                ==> r == Err::<ServiceInfo<H>, _>(BuildServiceInfoError::MissingDescription),
            self.name is Some && self.description is Some && self.initial_timings@.len() == 0
                ==> r == Err::<ServiceInfo<H>, _>(BuildServiceInfoError::NoTimings),
            r matches Ok(info) ==> {
                &&& self.name matches Some(n) && info.name == n
                &&& self.description matches Some(d) && info.description == d
                &&& info.initial_timings == self.initial_timings
            },
    {
        let name = match self.name {
            Some(n) => n,
            None => {
                return Err(BuildServiceInfoError::MissingName);
            },
        };
        let description = match self.description {
            Some(d) => d,
            None => {
                return Err(BuildServiceInfoError::MissingDescription);
            },
        };
        if self.initial_timings.len() == 0 {
            return Err(BuildServiceInfoError::NoTimings);
        }
        Ok(ServiceInfo { name, description, initial_timings: self.initial_timings })
    }
}

} // verus!
