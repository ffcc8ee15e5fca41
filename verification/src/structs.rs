//! The platform value types: channels, users and messages.

use vstd::prelude::*;

verus! {

/// A channel whose capabilities are unknown: only its platform identifier
/// is carried.
#[derive(Clone, Copy, PartialEq, Eq, Structural, Debug)]
pub struct Channel {
    pub id: u64,
}

/// A channel known to accept text messages; the only kind of channel the
/// control surface can send to.
#[derive(Clone, Copy, PartialEq, Eq, Structural, Debug)]
pub struct TextChannel {
    pub id: u64,
}

/// A channel known to carry voice; no message can be sent to it.
#[derive(Clone, Copy, PartialEq, Eq, Structural, Debug)]
pub struct VoiceChannel {
    pub id: u64,
}

/// A platform user, carried by its identifier.
#[derive(Clone, Copy, PartialEq, Eq, Structural, Debug)]
pub struct User {
    pub id: u64,
}

/// A message as delivered by the platform, before its channel is known to
/// be text-capable.
#[derive(Debug)]
pub struct Message {
    pub content: String,
    pub id: u64,
    pub channel: Channel,
}

impl Clone for Message {
    fn clone(&self) -> (r: Self)
        ensures
            r == *self,
    {
        Message { content: self.content.clone(), id: self.id, channel: self.channel }
    }
}

/// A message that arrived in a text-capable channel: what the dispatch
/// engine matches and hands to handlers.
#[derive(Debug)]
pub struct TextMessage {
    pub content: String,
    pub id: u64,
    pub channel: TextChannel,
}

impl TextMessage {
    /// The textual content, as the platform delivered it.
    pub fn content(&self) -> (r: &str)
        ensures
            r@ == self.content@,
    {
        self.content.as_str()
    }

    /// The channel the message arrived in.
    pub fn channel(&self) -> (r: TextChannel)
        ensures
            r == self.channel,
    {
        self.channel
    }
}

impl Clone for TextMessage {
    fn clone(&self) -> (r: Self)
        ensures
            r == *self,
    {
        TextMessage { content: self.content.clone(), id: self.id, channel: self.channel }
    }
}

} // verus!
