//! The client's side of a conversation: what it sends for what is typed, and
//! how it shows what the server sends.
//!
//! Like a session, a client does no input or output of its own. Its driver
//! reads the keyboard and the socket, hands each happening to
//! [`Client::step`], and carries out what comes back.

use vstd::prelude::*;
use vstd::string::*;
use crate::text::{contains, contains_text, mention_of, same_text, trim, trimmed};
use crate::transport::{Line, LineView};

verus! {

/// Something that happened at the keyboard or on the client's socket.
#[derive(Debug, PartialEq, Eq)]
pub enum ClientEvent {
    /// The user typed a line.
    Typed(String),
    /// The keyboard will deliver no more lines.
    InputEnded,
    /// The server sent a line.
    Received(String),
    /// The server closed the connection.
    ServerEnded,
    /// Reading from the server failed.
    ServerFailed,
    /// Writing to the server failed.
    SendFailed,
}

/// Something the client tells its user about the connection.
#[derive(Clone, Copy, Debug, PartialEq, Eq, Structural)]
pub enum Notice {
    /// The server closed the connection.
    ServerClosed,
    /// The client is closing the connection because the user asked for it.
    Closing,
    /// A message could not be sent.
    SendError,
}

/// What the driver of a client has to do after a step.
#[derive(Debug, PartialEq, Eq)]
pub enum ClientAction {
    /// Nothing.
    Idle,
    /// Send this text to the server as one line.
    Send(String),
    /// Show this line to the user; `highlighted` says whether to set it off
    /// from the others.
    Show { text: String, highlighted: bool },
    /// Tell the user this.
    Notify(Notice),
}

/// The mathematical value of a [`ClientEvent`].
pub ghost enum ClientEventView {
    Typed(Seq<char>),
    InputEnded,
    Received(Seq<char>),
    ServerEnded,
    ServerFailed,
    SendFailed,
}

/// The mathematical value of a [`ClientAction`].
pub ghost enum ClientActionView {
    Idle,
    Send(Seq<char>),
    Show { text: Seq<char>, highlighted: bool },
    Notify(Notice),
}

impl View for ClientEvent {
    type V = ClientEventView;

    open spec fn view(&self) -> ClientEventView {
        match self {
            ClientEvent::Typed(line) => ClientEventView::Typed(line@),
            ClientEvent::InputEnded => ClientEventView::InputEnded,
            ClientEvent::Received(line) => ClientEventView::Received(line@),
            ClientEvent::ServerEnded => ClientEventView::ServerEnded,
            ClientEvent::ServerFailed => ClientEventView::ServerFailed,
            ClientEvent::SendFailed => ClientEventView::SendFailed,
        }
    }
}

impl View for ClientAction {
    type V = ClientActionView;

    open spec fn view(&self) -> ClientActionView {
        match self {
            ClientAction::Idle => ClientActionView::Idle,
            ClientAction::Send(text) => ClientActionView::Send(text@),
            ClientAction::Show { text, highlighted } => ClientActionView::Show {
                text: text@,
                highlighted: *highlighted,
            },
            ClientAction::Notify(notice) => ClientActionView::Notify(*notice),
        }
    }
}

/// The line that ends the client's session when the user types it.
pub open spec fn stop_command() -> Seq<char> {
    "/stop"@
}

/// The line that carries `content` to the others: the sender's name, a colon,
/// a space, and the content.
pub open spec fn outgoing_text(username: Seq<char>, content: Seq<char>) -> Seq<char> {
    username + ": "@ + content
}

/// The client of one user.
#[derive(Debug)]
pub struct Client {
    username: String,
    running: bool,
    listening: bool,
}

/// The mathematical value of a [`Client`]: the user's name, whether the
/// client still takes input, and whether it still listens to the server.
pub ghost struct ClientView {
    pub username: Seq<char>,
    pub running: bool,
    pub listening: bool,
}

/// The client as it is after `event`.
///
/// The stop command, the end of the keyboard's input and a failed send end
/// the client. The end of the server's stream, or a failure to read it, ends
/// the listening and leaves the rest. A client that has ended stays as it is.
pub open spec fn client_after(client: ClientView, event: ClientEventView) -> ClientView {
    if !client.running {
        client
    } else {
        match event {
            ClientEventView::Typed(line) => ClientView {
                running: trimmed(line) != stop_command(),
                ..client
            },
            ClientEventView::InputEnded | ClientEventView::SendFailed => ClientView {
                running: false,
                ..client
            },
            ClientEventView::Received(_) => client,
            ClientEventView::ServerEnded | ClientEventView::ServerFailed => ClientView {
                listening: false,
                ..client
            },
        }
    }
}

/// What `event` asks of the driver of `client`.
///
/// A typed line counts without the white space at its ends: the stop command
/// is announced and sends nothing, an empty line is passed over, and anything
/// else goes out behind the user's name. A line from the server is shown
/// without the white space at its ends, highlighted when it mentions the
/// user. The user is told when the server closes the connection and when a
/// send fails. A client that has ended asks for nothing, and one that no
/// longer listens shows nothing.
pub open spec fn client_action(client: ClientView, event: ClientEventView) -> ClientActionView {
    if !client.running {
        ClientActionView::Idle
    } else {
        match event {
            ClientEventView::Typed(line) => if trimmed(line) == stop_command() {
                ClientActionView::Notify(Notice::Closing)
            } else if trimmed(line).len() > 0 {
                ClientActionView::Send(outgoing_text(client.username, trimmed(line)))
            } else {
                ClientActionView::Idle
            },
            ClientEventView::InputEnded => ClientActionView::Idle,
            ClientEventView::SendFailed => ClientActionView::Notify(Notice::SendError),
            ClientEventView::Received(line) => if client.listening {
                ClientActionView::Show {
                    text: trimmed(line),
                    highlighted: contains_text(trimmed(line), mention_of(client.username)),
                }
            } else {
                ClientActionView::Idle
            },
            ClientEventView::ServerEnded => if client.listening {
                ClientActionView::Notify(Notice::ServerClosed)
            } else {
                ClientActionView::Idle
            },
            ClientEventView::ServerFailed => ClientActionView::Idle,
        }
    }
}

/// The event that a line from the keyboard stands for; input that is no text
/// ends the input.
pub open spec fn typed_event(line: LineView) -> ClientEventView {
    match line {
        LineView::Text(text) => ClientEventView::Typed(text),
        LineView::Malformed => ClientEventView::InputEnded,
    }
}

/// The event that a line from the server stands for; a line that is no text
/// counts as a failed read.
pub open spec fn received_event(line: LineView) -> ClientEventView {
    match line {
        LineView::Text(text) => ClientEventView::Received(text),
        LineView::Malformed => ClientEventView::ServerFailed,
    }
}

impl ClientEvent {
    /// The event that a line from the keyboard stands for.
    pub fn typed(line: Line) -> (event: ClientEvent)
        ensures
            event@ == typed_event(line@),
    {
        match line {
            Line::Text(text) => ClientEvent::Typed(text),
            Line::Malformed => ClientEvent::InputEnded,
        }
    }

    /// The event that a line from the server stands for.
    pub fn received(line: Line) -> (event: ClientEvent)
        ensures
            event@ == received_event(line@),
    {
        match line {
            Line::Text(text) => ClientEvent::Received(text),
            Line::Malformed => ClientEvent::ServerFailed,
        }
    }
}

impl Notice {
    /// The words in which the user is told.
    pub open spec fn spec_text(self) -> Seq<char> {
        match self {
            Notice::ServerClosed => "Server closed connection."@,
            Notice::Closing => "Closing connection..."@,
            Notice::SendError => "Error sending message"@,
        }
    }

    /// The words in which the user is told.
    pub fn text(self) -> (words: &'static str)
        ensures
            words@ == self.spec_text(),
    {
        match self {
            Notice::ServerClosed => "Server closed connection.",
            Notice::Closing => "Closing connection...",
            Notice::SendError => "Error sending message",
        }
    }
}

impl View for Client {
    type V = ClientView;

    closed spec fn view(&self) -> ClientView {
        ClientView {
            username: self.username@,
            running: self.running,
            listening: self.listening,
        }
    }
}

impl Client {
    /// The client of the user `username`, connected and running.
    pub fn new(username: String) -> (client: Client)
        ensures
            client@ == (ClientView { username: username@, running: true, listening: true }),
    {
        Client { username, running: true, listening: true }
    }

    /// The user's name, which is also the line that opens the conversation
    /// with the server.
    pub fn username(&self) -> (name: &str)
        ensures
            name@ == self@.username,
    {
        self.username.as_str()
    }

    /// Whether the client still takes input.
    pub fn is_running(&self) -> (running: bool)
        ensures
            running == self@.running,
    {
        self.running
    }

    /// Whether the client still listens to the server.
    pub fn is_listening(&self) -> (listening: bool)
        ensures
            listening == self@.listening,
    {
        self.listening
    }

    /// Takes one event, moves the client on and says what is to be done.
    pub fn step(&mut self, event: ClientEvent) -> (action: ClientAction)
        ensures
            final(self)@ == client_after(old(self)@, event@),
            action@ == client_action(old(self)@, event@),
    {
        if !self.running {
            return ClientAction::Idle;
        }
        match event {
            ClientEvent::Typed(line) => {
                let content = trim(line.as_str());
                if same_text(content, "/stop") {
                    self.running = false;
                    ClientAction::Notify(Notice::Closing)
                } else if !content.is_empty() {
                    let mut text = String::from_str(self.username.as_str());
                    text.append(": ");
                    text.append(content);
                    ClientAction::Send(text)
                } else {
                    ClientAction::Idle
                }
            },
            ClientEvent::InputEnded => {
                self.running = false;
                ClientAction::Idle
            },
            ClientEvent::SendFailed => {
                self.running = false;
                ClientAction::Notify(Notice::SendError)
            },
            ClientEvent::Received(line) => {
                if self.listening {
                    let shown = trim(line.as_str());
                    let mut mention = String::from_str("@");
                    mention.append(self.username.as_str());
                    proof {
                        reveal_strlit("@");
                        assert("@"@ =~= seq!['@']);
                    }
                    let highlighted = contains(shown, mention.as_str());
                    ClientAction::Show { text: String::from_str(shown), highlighted }
                } else {
                    ClientAction::Idle
                }
            },
            ClientEvent::ServerEnded => {
                if self.listening {
                    self.listening = false;
                    ClientAction::Notify(Notice::ServerClosed)
                } else {
                    ClientAction::Idle
                }
            },
            ClientEvent::ServerFailed => {
                self.listening = false;
                ClientAction::Idle
            },
        }
    }
}

} // verus!
