//! What travels over the bus: a line of text and where it came from.

use vstd::prelude::*;
use vstd::string::*;
use crate::identity::Identity;

verus! {

/// A line of text tagged with the identity of the connection it came from.
#[derive(Debug, PartialEq, Eq)]
pub struct BroadcastMessage {
    pub text: String,
    pub origin: Identity,
}

/// The mathematical value of a [`BroadcastMessage`].
pub ghost struct MessageView {
    pub text: Seq<char>,
    pub origin: Identity,
}

impl View for BroadcastMessage {
    type V = MessageView;

    open spec fn view(&self) -> MessageView {
        MessageView { text: self.text@, origin: self.origin }
    }
}

impl Clone for BroadcastMessage {
    fn clone(&self) -> (copy: Self)
        ensures
            copy@ == self@,
    {
        BroadcastMessage { text: self.text.clone(), origin: self.origin }
    }
}

/// The text that announces that `username` has arrived.
pub open spec fn joined_text(username: Seq<char>) -> Seq<char> {
    "System: User '"@ + username + "' joined the chat"@
}

/// The text that announces that `username` has gone.
pub open spec fn left_text(username: Seq<char>) -> Seq<char> {
    "System: User '"@ + username + "' left the chat"@
}

impl BroadcastMessage {
    /// A message with the given text and origin.
    pub fn new(text: String, origin: Identity) -> (message: BroadcastMessage)
        ensures
            message@ == (MessageView { text: text@, origin }),
    {
        BroadcastMessage { text, origin }
    }

    /// The announcement that `username` has arrived, sent in the name of `origin`.
    pub fn joined(username: &str, origin: Identity) -> (message: BroadcastMessage)
        ensures
            message@ == (MessageView { text: joined_text(username@), origin }),
    {
        let mut text = String::from_str("System: User '");
        text.append(username);
        text.append("' joined the chat");
        BroadcastMessage { text, origin }
    }

    /// The announcement that `username` has gone, sent in the name of `origin`.
    pub fn left(username: &str, origin: Identity) -> (message: BroadcastMessage)
        ensures
            message@ == (MessageView { text: left_text(username@), origin }),
    {
        let mut text = String::from_str("System: User '");
        text.append(username);
        text.append("' left the chat");
        BroadcastMessage { text, origin }
    }

    /// Whether this message came from the connection `identity`.
    pub fn is_from(&self, identity: Identity) -> (own: bool)
        ensures
            own == (self@.origin == identity),
    {
        self.origin == identity
    }
}

} // verus!
