//! The server's front door: where it listens and what it does with each
//! attempt to connect.

use vstd::prelude::*;
use vstd::string::*;
use crate::identity::Identity;
use crate::session::{fresh, Session};

verus! {

/// The port a server listens on when none is given.
pub const DEFAULT_PORT: u16 = 8080;

/// The address a client connects to when none is given.
pub open spec fn default_server_address() -> Seq<char> {
    "127.0.0.1:8080"@
}

/// The character that stands for a digit.
pub open spec fn digit(d: nat) -> char {
    if d == 0 {
        '0'
    } else if d == 1 {
        '1'
    } else if d == 2 {
        '2'
    } else if d == 3 {
        '3'
    } else if d == 4 {
        '4'
    } else if d == 5 {
        '5'
    } else if d == 6 {
        '6'
    } else if d == 7 {
        '7'
    } else if d == 8 {
        '8'
    } else {
        '9'
    }
}

/// A number in decimal: its digits, the highest first, with no zero in front.
pub open spec fn decimal(n: nat) -> Seq<char>
    decreases n,
{
    if n < 10 {
        seq![digit(n)]
    } else {
        decimal(n / 10).push(digit(n % 10))
    }
}

/// The address on which a server for `port` listens: every interface of the
/// machine, and the port.
pub open spec fn listen_address_of(port: u16) -> Seq<char> {
    "0.0.0.0:"@ + decimal(port as nat)
}

/// The text of one digit.
fn digit_text(d: u16) -> (text: &'static str)
    requires
        d < 10,
    ensures
        text@ == seq![digit(d as nat)],
{
    proof {
        reveal_strlit("0");
        reveal_strlit("1");
        reveal_strlit("2");
        reveal_strlit("3");
        reveal_strlit("4");
        reveal_strlit("5");
        reveal_strlit("6");
        reveal_strlit("7");
        reveal_strlit("8");
        reveal_strlit("9");
    }
    let text = if d == 0 {
        "0"
    } else if d == 1 {
        "1"
    } else if d == 2 {
        "2"
    } else if d == 3 {
        "3"
    } else if d == 4 {
        "4"
    } else if d == 5 {
        "5"
    } else if d == 6 {
        "6"
    } else if d == 7 {
        "7"
    } else if d == 8 {
        "8"
    } else {
        "9"
    };
    assert(text@ =~= seq![digit(d as nat)]);
    text
}

/// Writes `n` in decimal at the end of `text`.
fn append_decimal(text: &mut String, n: u16)
    ensures
        final(text)@ == old(text)@ + decimal(n as nat),
    decreases n,
{
    if n >= 10 {
        append_decimal(text, n / 10);
    }
    text.append(digit_text(n % 10));
    assert(text@ =~= old(text)@ + decimal(n as nat));
}

/// The address on which a server for `port` listens.
pub fn listen_address(port: u16) -> (address: String)
    ensures
        address@ == listen_address_of(port),
{
    let mut address = String::from_str("0.0.0.0:");
    append_decimal(&mut address, port);
    address
}

/// The address a client connects to when none is given.
pub fn default_address() -> (address: String)
    ensures
        address@ == default_server_address(),
{
    String::from_str("127.0.0.1:8080")
}

/// How an attempt to accept a connection ended.
#[derive(Clone, Copy, Debug, PartialEq, Eq, Structural)]
pub enum Accepted {
    /// A peer connected from this address.
    Connection(Identity),
    /// The attempt failed.
    Failed,
}

/// What the server does after an attempt to accept a connection.
#[derive(Debug)]
pub enum AcceptorAction {
    /// Serve the new connection with this session, beside all the others.
    Serve(Session),
    /// Go on accepting; nobody connected.
    Resume,
}

impl AcceptorAction {
    /// The session to serve, if there is one.
    pub open spec fn session(self) -> Option<Session> {
        match self {
            AcceptorAction::Serve(session) => Some(session),
            AcceptorAction::Resume => None,
        }
    }
}

/// Decides what follows an attempt to accept a connection: every peer that
/// connects gets a session of its own, which starts in the handshake, and a
/// failed attempt changes nothing.
pub fn on_accept(outcome: Accepted) -> (action: AcceptorAction)
    ensures
        match outcome {
            Accepted::Connection(identity) => action.session() matches Some(session)
                && session@ == fresh(identity),
            Accepted::Failed => action is Resume,
        },
{
    match outcome {
        Accepted::Connection(identity) => AcceptorAction::Serve(Session::new(identity)),
        Accepted::Failed => AcceptorAction::Resume,
    }
}

} // verus!
