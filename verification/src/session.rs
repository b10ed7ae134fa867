//! The server side of one connection: handshake, relay, departure.
//!
//! A session does no input or output of its own. Whoever drives it reads the
//! socket and the bus, hands each happening to [`Session::step`] as a
//! [`SessionEvent`], and carries out the [`SessionAction`] that comes back.

use vstd::prelude::*;
use vstd::string::*;
use crate::identity::Identity;
use crate::message::{joined_text, left_text, BroadcastMessage, MessageView};
use crate::transport::{
    framed, lemma_framed_line_reads_back, receiving, Line, LineBuffer, LineBufferView, LineView,
};

verus! {

/// Where a session stands in its life.
#[derive(Clone, Copy, Debug, PartialEq, Eq, Structural)]
pub enum Phase {
    /// Waiting for the first line, which names the user.
    Handshaking,
    /// Relaying lines to the bus and bus messages to the socket.
    Active,
    /// Finished; nothing more is sent or published.
    Closed,
}

/// Something that happened on a session's socket or on its bus subscription.
#[derive(Debug, PartialEq, Eq)]
pub enum SessionEvent {
    /// The socket delivered a line; the terminator is not part of it.
    Line(String),
    /// The peer closed the socket.
    EndOfStream,
    /// Reading from the socket failed.
    ReadFailed,
    /// The bus delivered a message.
    Delivery(BroadcastMessage),
    /// The subscription fell behind and the bus dropped this many of its
    /// oldest pending messages.
    Lagged(u64),
    /// The bus is gone for good.
    BusClosed,
    /// Writing to the socket failed.
    WriteFailed,
}

/// What the driver of a session has to do after a step.
#[derive(Debug, PartialEq, Eq)]
pub enum SessionAction {
    /// Nothing.
    Idle,
    /// Subscribe to the bus, then publish this arrival announcement.
    Join(BroadcastMessage),
    /// Publish this line of the client's.
    Relay(BroadcastMessage),
    /// Publish this departure announcement, as far as that is still possible,
    /// then release the socket and the subscription.
    Leave(BroadcastMessage),
    /// Write this text to the socket as one line.
    Deliver(String),
}

/// The mathematical value of a [`SessionEvent`].
pub ghost enum EventView {
    Line(Seq<char>),
    EndOfStream,
    ReadFailed,
    Delivery(MessageView),
    Lagged(u64),
    BusClosed,
    WriteFailed,
}

/// The mathematical value of a [`SessionAction`].
pub ghost enum ActionView {
    Idle,
    Join(MessageView),
    Relay(MessageView),
    Leave(MessageView),
    Deliver(Seq<char>),
}

impl View for SessionEvent {
    type V = EventView;

    open spec fn view(&self) -> EventView {
        match self {
            SessionEvent::Line(text) => EventView::Line(text@),
            SessionEvent::EndOfStream => EventView::EndOfStream,
            SessionEvent::ReadFailed => EventView::ReadFailed,
            SessionEvent::Delivery(message) => EventView::Delivery(message@),
            SessionEvent::Lagged(skipped) => EventView::Lagged(*skipped),
            SessionEvent::BusClosed => EventView::BusClosed,
            SessionEvent::WriteFailed => EventView::WriteFailed,
        }
    }
}

impl View for SessionAction {
    type V = ActionView;

    open spec fn view(&self) -> ActionView {
        match self {
            SessionAction::Idle => ActionView::Idle,
            SessionAction::Join(message) => ActionView::Join(message@),
            SessionAction::Relay(message) => ActionView::Relay(message@),
            SessionAction::Leave(message) => ActionView::Leave(message@),
            SessionAction::Deliver(text) => ActionView::Deliver(text@),
        }
    }
}

impl EventView {
    /// Whether the event ends an active session: the socket or the bus is
    /// lost, in either direction.
    pub open spec fn is_terminal(self) -> bool {
        self is EndOfStream || self is ReadFailed || self is BusClosed || self is WriteFailed
    }
}

impl ActionView {
    /// Whether the action puts anything on the bus.
    pub open spec fn publishes(self) -> bool {
        self is Join || self is Relay || self is Leave
    }
}

/// The event that a line off the socket stands for: a line of text, or a
/// failed read where the bytes are no text.
pub open spec fn event_of_line(line: LineView) -> EventView {
    match line {
        LineView::Text(text) => EventView::Line(text),
        LineView::Malformed => EventView::ReadFailed,
    }
}

/// The events that a socket's buffer holds: one for each line, and the end of
/// the stream after them if the stream has ended.
pub open spec fn inbound_events(buffer: LineBufferView) -> Seq<EventView> {
    buffer.lines().map_values(|line: LineView| event_of_line(line)) + if buffer.ended {
        seq![EventView::EndOfStream]
    } else {
        Seq::<EventView>::empty()
    }
}

/// The values of a list of actions.
pub open spec fn action_views(actions: Seq<SessionAction>) -> Seq<ActionView> {
    actions.map_values(|action: SessionAction| action@)
}

impl SessionEvent {
    /// The event that a line off the socket stands for.
    pub fn from_line(line: Line) -> (event: SessionEvent)
        ensures
            event@ == event_of_line(line@),
    {
        match line {
            Line::Text(text) => SessionEvent::Line(text),
            Line::Malformed => SessionEvent::ReadFailed,
        }
    }
}

/// The server's side of one client connection.
#[derive(Debug)]
pub struct Session {
    identity: Identity,
    username: String,
    phase: Phase,
}

/// The mathematical value of a [`Session`]: whose connection it is, the name
/// received in the handshake (empty before it), and the phase.
pub ghost struct SessionView {
    pub identity: Identity,
    pub username: Seq<char>,
    pub phase: Phase,
}

/// The session as it is after `event`.
///
/// The first line names the user and makes the session active. A handshake
/// that ends without that line, and the loss of socket or bus while active,
/// close the session. Everything else leaves the session as it was, and a
/// closed session stays closed.
pub open spec fn next_state(session: SessionView, event: EventView) -> SessionView {
    match session.phase {
        Phase::Handshaking => match event {
            EventView::Line(name) => SessionView {
                identity: session.identity,
                username: name,
                phase: Phase::Active,
            },
            EventView::EndOfStream | EventView::ReadFailed => SessionView {
                phase: Phase::Closed,
                ..session
            },
            _ => session,
        },
        Phase::Active => if event.is_terminal() {
            SessionView { phase: Phase::Closed, ..session }
        } else {
            session
        },
        Phase::Closed => session,
    }
}

/// What `event` asks of the driver of `session`.
///
/// The handshake line is answered with the arrival announcement. An active
/// session relays each line under its own identity, hands on each delivery
/// that another connection published and drops its own, says nothing of a lag,
/// and announces its departure when socket or bus is lost. A handshake that
/// fails is abandoned in silence, and a closed session asks for nothing.
pub open spec fn action_of(session: SessionView, event: EventView) -> ActionView {
    match session.phase {
        Phase::Handshaking => match event {
            EventView::Line(name) => ActionView::Join(
                MessageView { text: joined_text(name), origin: session.identity },
            ),
            _ => ActionView::Idle,
        },
        Phase::Active => match event {
            EventView::Line(text) => ActionView::Relay(
                MessageView { text, origin: session.identity },
            ),
            EventView::Delivery(message) => if message.origin == session.identity {
                ActionView::Idle
            } else {
                ActionView::Deliver(message.text)
            },
            EventView::Lagged(_) => ActionView::Idle,
            EventView::EndOfStream
            | EventView::ReadFailed
            | EventView::BusClosed
            | EventView::WriteFailed => ActionView::Leave(
                MessageView { text: left_text(session.username), origin: session.identity },
            ),
        },
        Phase::Closed => ActionView::Idle,
    }
}

impl View for Session {
    type V = SessionView;

    closed spec fn view(&self) -> SessionView {
        SessionView { identity: self.identity, username: self.username@, phase: self.phase }
    }
}

impl Session {
    /// The session of a connection that was just accepted from `identity`.
    pub fn new(identity: Identity) -> (session: Session)
        ensures
            session@ == (SessionView {
                identity,
                username: Seq::<char>::empty(),
                phase: Phase::Handshaking,
            }),
    {
        Session { identity, username: String::new(), phase: Phase::Handshaking }
    }

    /// The identity of the connection.
    pub fn identity(&self) -> (identity: Identity)
        ensures
            identity == self@.identity,
    {
        self.identity
    }

    /// The name received in the handshake; empty before it.
    pub fn username(&self) -> (name: &str)
        ensures
            name@ == self@.username,
    {
        self.username.as_str()
    }

    /// The phase the session is in.
    pub fn phase(&self) -> (phase: Phase)
        ensures
            phase == self@.phase,
    {
        self.phase
    }

    /// Whether the session has ended.
    pub fn is_closed(&self) -> (closed: bool)
        ensures
            closed == (self@.phase == Phase::Closed),
    {
        self.phase == Phase::Closed
    }

    /// Takes one event, moves the session on and says what is to be done.
    pub fn step(&mut self, event: SessionEvent) -> (action: SessionAction)
        ensures
            final(self)@ == next_state(old(self)@, event@),
            action@ == action_of(old(self)@, event@),
    {
        match self.phase {
            Phase::Handshaking => match event {
                SessionEvent::Line(name) => {
                    let announcement = BroadcastMessage::joined(name.as_str(), self.identity);
                    self.username = name;
                    self.phase = Phase::Active;
                    SessionAction::Join(announcement)
                },
                SessionEvent::EndOfStream | SessionEvent::ReadFailed => {
                    self.phase = Phase::Closed;
                    SessionAction::Idle
                },
                _ => SessionAction::Idle,
            },
            Phase::Active => match event {
                SessionEvent::Line(text) => SessionAction::Relay(
                    BroadcastMessage::new(text, self.identity),
                ),
                SessionEvent::Delivery(message) => {
                    if message.is_from(self.identity) {
                        SessionAction::Idle
                    } else {
                        SessionAction::Deliver(message.text)
                    }
                },
                SessionEvent::Lagged(_) => SessionAction::Idle,
                SessionEvent::EndOfStream
                | SessionEvent::ReadFailed
                | SessionEvent::BusClosed
                | SessionEvent::WriteFailed => {
                    self.phase = Phase::Closed;
                    SessionAction::Leave(
                        BroadcastMessage::left(self.username.as_str(), self.identity),
                    )
                },
            },
            Phase::Closed => SessionAction::Idle,
        }
    }
}

impl Session {
    /// Takes every line that the socket's buffer holds, and the end of the
    /// stream if it has come, and steps through them in order. Returns what
    /// each step asked for.
    pub fn take_input(&mut self, buffer: &mut LineBuffer) -> (actions: Vec<SessionAction>)
        ensures
            final(self)@ == state_after(old(self)@, inbound_events(old(buffer)@)),
            action_views(actions@) == actions_of(old(self)@, inbound_events(old(buffer)@)),
            final(buffer)@ == old(buffer)@.unread(),
    {
        let mut actions: Vec<SessionAction> = Vec::new();
        let ghost all = inbound_events(buffer@);
        let ghost start = self@;
        let ghost ended = buffer@.ended;
        assert(action_views(actions@) =~= Seq::<ActionView>::empty());
        loop
            invariant
                buffer@.ended == ended,
                buffer@.unread() == old(buffer)@.unread(),
                state_after(self@, inbound_events(buffer@)) == state_after(start, all),
                action_views(actions@) + actions_of(self@, inbound_events(buffer@)) == actions_of(
                    start,
                    all,
                ),
            ensures
                buffer@.first_line() is None,
            decreases buffer@.pending.len(),
        {
            let ghost before = buffer@;
            let ghost session = self@;
            let ghost done = action_views(actions@);
            match buffer.next_text() {
                Some(line) => {
                    let event = SessionEvent::from_line(line);
                    proof {
                        let rest = inbound_events(buffer@);
                        assert(inbound_events(before) =~= seq![event@] + rest);
                        assert(inbound_events(before).drop_first() =~= rest);
                    }
                    let action = self.step(event);
                    actions.push(action);
                    proof {
                        assert(action_views(actions@) =~= done.push(action@));
                        assert(done.push(action@) + actions_of(self@, inbound_events(buffer@))
                            =~= done + actions_of(session, inbound_events(before)));
                    }
                },
                None => {
                    assert(buffer@.pending =~= before.pending);
                    break ;
                },
            }
        }
        if buffer.has_ended() {
            proof {
                assert(inbound_events(buffer@) =~= seq![EventView::EndOfStream]);
                assert(inbound_events(buffer@).drop_first() =~= Seq::<EventView>::empty());
            }
            let ghost done = action_views(actions@);
            let ghost session = self@;
            let action = self.step(SessionEvent::EndOfStream);
            actions.push(action);
            proof {
                let rest = Seq::<EventView>::empty();
                assert(state_after(self@, rest) == self@);
                assert(actions_of(self@, rest) =~= Seq::<ActionView>::empty());
                assert(actions_of(session, seq![EventView::EndOfStream]) =~= seq![action@]);
                assert(action_views(actions@) =~= done.push(action@));
                assert(action_views(actions@) =~= actions_of(start, all));
            }
        } else {
            assert(inbound_events(buffer@) =~= Seq::<EventView>::empty());
            assert(action_views(actions@) =~= actions_of(start, all));
        }
        actions
    }
}

/// The session as it is after a run of events, taken in order.
pub open spec fn state_after(session: SessionView, events: Seq<EventView>) -> SessionView
    decreases events.len(),
{
    if events.len() == 0 {
        session
    } else {
        state_after(next_state(session, events[0]), events.drop_first())
    }
}

/// The actions that a run of events asks for, one for each event.
pub open spec fn actions_of(session: SessionView, events: Seq<EventView>) -> Seq<ActionView>
    decreases events.len(),
{
    if events.len() == 0 {
        Seq::<ActionView>::empty()
    } else {
        seq![action_of(session, events[0])] + actions_of(
            next_state(session, events[0]),
            events.drop_first(),
        )
    }
}

/// How many of `actions` are departure announcements.
pub open spec fn departures(actions: Seq<ActionView>) -> nat
    decreases actions.len(),
{
    if actions.len() == 0 {
        0
    } else if actions[0] is Leave {
        1 + departures(actions.drop_first())
    } else {
        departures(actions.drop_first())
    }
}

/// A run asks for exactly one action for each event.
pub proof fn lemma_one_action_per_event(session: SessionView, events: Seq<EventView>)
    ensures
        actions_of(session, events).len() == events.len(),
    decreases events.len(),
{
    if events.len() > 0 {
        lemma_one_action_per_event(next_state(session, events[0]), events.drop_first());
    }
}

/// A message on the bus reaches the socket of every active session but the
/// one it came from, with its text unchanged, and moves no session to another
/// state. Sessions that are not active take nothing from the bus.
pub proof fn lemma_delivery_skips_origin(sessions: Seq<SessionView>, message: MessageView)
    ensures
        forall|i: int|
            0 <= i < sessions.len() ==> next_state(
                #[trigger] sessions[i],
                EventView::Delivery(message),
            ) == sessions[i],
        forall|i: int|
            0 <= i < sessions.len() ==> #[trigger] action_of(
                sessions[i],
                EventView::Delivery(message),
            ) == if sessions[i].phase == Phase::Active && sessions[i].identity != message.origin {
                ActionView::Deliver(message.text)
            } else {
                ActionView::Idle
            },
{
}

/// A line that one active session takes from its socket is written, exactly
/// as it was read, to the socket of any active session with another identity.
pub proof fn lemma_relay_preserves_text(
    sender: SessionView,
    receiver: SessionView,
    text: Seq<char>,
)
    requires
        sender.phase == Phase::Active,
        receiver.phase == Phase::Active,
        sender.identity != receiver.identity,
    ensures
        action_of(sender, EventView::Line(text)) matches ActionView::Relay(message)
            && message.origin == sender.identity
            && action_of(receiver, EventView::Delivery(message)) == ActionView::Deliver(text),
{
}

/// A lag on the bus is never reported: it leaves the session as it was and
/// asks for nothing, so the client does not learn what it missed.
pub proof fn lemma_lag_is_silent(session: SessionView, skipped: u64)
    ensures
        next_state(session, EventView::Lagged(skipped)) == session,
        action_of(session, EventView::Lagged(skipped)) == ActionView::Idle,
{
}

/// A line keeps its text all the way from one client's socket to another's.
/// Framed and sent to an active session, it comes off that socket as one line
/// with the same text; the session relays it unchanged under its own
/// identity; any other active session hands it on unchanged; and framed again
/// it reads back as the same text at the far end. This holds of every text
/// that has no line feed in it and no carriage return at its end.
pub proof fn lemma_payload_is_preserved(
    sender: SessionView,
    receiver: SessionView,
    text: Seq<char>,
)
    requires
        sender.phase == Phase::Active,
        receiver.phase == Phase::Active,
        sender.identity != receiver.identity,
        !text.contains('\n'),
        text.len() == 0 || text.last() != '\r',
    ensures
        receiving(framed(text)).lines() == seq![LineView::Text(text)],
        inbound_events(receiving(framed(text))) == seq![EventView::Line(text)],
        actions_of(sender, inbound_events(receiving(framed(text)))) == seq![
            ActionView::Relay(MessageView { text, origin: sender.identity }),
        ],
        action_of(
            receiver,
            EventView::Delivery(MessageView { text, origin: sender.identity }),
        ) == ActionView::Deliver(text),
{
    lemma_framed_line_reads_back(text, false);
    let wire = receiving(framed(text));
    let empty = receiving(Seq::<u8>::empty());
    assert(wire.after_first_line() == empty);
    assert(empty.first_line() is None);
    assert(empty.lines() =~= Seq::<LineView>::empty());
    assert(wire.lines() =~= seq![LineView::Text(text)]);
    let events = inbound_events(wire);
    assert(events =~= seq![EventView::Line(text)]);
    assert(events.drop_first() =~= Seq::<EventView>::empty());
    assert(actions_of(sender, events.drop_first()) =~= Seq::<ActionView>::empty());
    assert(actions_of(sender, events) =~= seq![
        ActionView::Relay(MessageView { text, origin: sender.identity }),
    ]);
}

/// A closed session stays closed and asks for nothing, whatever happens.
pub proof fn lemma_closed_is_final(session: SessionView, events: Seq<EventView>)
    requires
        session.phase == Phase::Closed,
    ensures
        state_after(session, events) == session,
        forall|i: int|
            0 <= i < events.len() ==> #[trigger] actions_of(session, events)[i]
                == ActionView::Idle,
    decreases events.len(),
{
    lemma_one_action_per_event(session, events);
    if events.len() > 0 {
        lemma_closed_is_final(session, events.drop_first());
        let rest = actions_of(session, events.drop_first());
        assert forall|i: int| 0 <= i < events.len() implies #[trigger] actions_of(
            session,
            events,
        )[i] == ActionView::Idle by {
            if i > 0 {
                assert(actions_of(session, events)[i] == rest[i - 1]);
            }
        }
    }
}

/// A session whose client never sends a line puts nothing on the bus: no
/// arrival, no departure, no message. If the socket closes or fails during
/// the handshake, the session ends there.
pub proof fn lemma_silent_without_handshake(identity: Identity, events: Seq<EventView>)
    requires
        forall|i: int| 0 <= i < events.len() ==> !(#[trigger] events[i] is Line),
    ensures
        forall|i: int|
            0 <= i < events.len() ==> !(#[trigger] actions_of(
                fresh(identity),
                events,
            )[i]).publishes(),
        events.len() > 0 && (events[0] is EndOfStream || events[0] is ReadFailed) ==> state_after(
            fresh(identity),
            events,
        ).phase == Phase::Closed,
{
    lemma_silent_until_line(fresh(identity), events);
    if events.len() > 0 && (events[0] is EndOfStream || events[0] is ReadFailed) {
        lemma_closed_is_final(next_state(fresh(identity), events[0]), events.drop_first());
    }
}

/// The value of a session that was just accepted from `identity`.
pub open spec fn fresh(identity: Identity) -> SessionView {
    SessionView { identity, username: Seq::<char>::empty(), phase: Phase::Handshaking }
}

proof fn lemma_silent_until_line(session: SessionView, events: Seq<EventView>)
    requires
        session.phase != Phase::Active,
        forall|i: int| 0 <= i < events.len() ==> !(#[trigger] events[i] is Line),
    ensures
        forall|i: int|
            0 <= i < events.len() ==> !(#[trigger] actions_of(session, events)[i]).publishes(),
    decreases events.len(),
{
    lemma_one_action_per_event(session, events);
    if events.len() > 0 {
        let rest = events.drop_first();
        assert forall|i: int| 0 <= i < rest.len() implies !(#[trigger] rest[i] is Line) by {
            assert(rest[i] == events[i + 1]);
        }
        lemma_silent_until_line(next_state(session, events[0]), rest);
        let tail = actions_of(next_state(session, events[0]), rest);
        assert forall|i: int| 0 <= i < events.len() implies !(#[trigger] actions_of(
            session,
            events,
        )[i]).publishes() by {
            if i > 0 {
                assert(actions_of(session, events)[i] == tail[i - 1]);
            } else {
                assert(!(events[0] is Line));
            }
        }
    }
}

/// When an active session loses its socket or its bus, it closes and asks for
/// the departure announcement that carries its user's name and its identity.
pub proof fn lemma_loss_announces_departure(session: SessionView, event: EventView)
    requires
        session.phase == Phase::Active,
        event.is_terminal(),
    ensures
        next_state(session, event).phase == Phase::Closed,
        action_of(session, event) == ActionView::Leave(
            MessageView { text: left_text(session.username), origin: session.identity },
        ),
{
}

/// No run of events, from any state, makes a session announce its departure
/// more than once. A closed session never does. An active session does so
/// exactly once if the run holds an event that loses the socket or the bus,
/// and not at all if it holds none.
pub proof fn lemma_departure_at_most_once(session: SessionView, events: Seq<EventView>)
    ensures
        departures(actions_of(session, events)) <= 1,
        session.phase == Phase::Closed ==> departures(actions_of(session, events)) == 0,
        session.phase == Phase::Active ==> (departures(actions_of(session, events)) == 1
            <==> exists|i: int| 0 <= i < events.len() && (#[trigger] events[i]).is_terminal()),
    decreases events.len(),
{
    if events.len() > 0 {
        let rest = events.drop_first();
        let next = next_state(session, events[0]);
        lemma_departure_at_most_once(next, rest);
        let all = actions_of(session, events);
        assert(all.drop_first() =~= actions_of(next, rest));
        assert(all[0] == action_of(session, events[0]));
        if session.phase == Phase::Active {
            if events[0].is_terminal() {
                assert(departures(all) == 1);
            } else {
                assert(departures(all) == departures(actions_of(next, rest)));
                if exists|i: int| 0 <= i < events.len() && (#[trigger] events[i]).is_terminal() {
                    let i = choose|i: int|
                        0 <= i < events.len() && (#[trigger] events[i]).is_terminal();
                    assert(rest[i - 1] == events[i]);
                    assert(rest[i - 1].is_terminal());
                }
                if exists|i: int| 0 <= i < rest.len() && (#[trigger] rest[i]).is_terminal() {
                    let i = choose|i: int|
                        0 <= i < rest.len() && (#[trigger] rest[i]).is_terminal();
                    assert(events[i + 1] == rest[i]);
                    assert(events[i + 1].is_terminal());
                }
            }
        }
    }
}

} // verus!
