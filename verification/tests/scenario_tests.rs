use chat_app::acceptor::{on_accept, Accepted, AcceptorAction};
use chat_app::bus::{Bus, Effect};
use chat_app::client::{Client, ClientAction, ClientEvent};
use chat_app::identity::Identity;
use chat_app::message::BroadcastMessage;
use chat_app::session::{Session, SessionAction, SessionEvent};
use chat_app::transport::{frame_line, LineBuffer};
use tokio::sync::broadcast::error::TryRecvError;
use tokio::sync::broadcast::Receiver;

/// One connected user: the client, the server's session for it, and the wire
/// between the two, all driven by hand.
struct Peer {
    client: Client,
    session: Session,
    subscription: Option<Receiver<BroadcastMessage>>,
    to_server: LineBuffer,
    to_client: LineBuffer,
    screen: Vec<(String, bool)>,
}

fn connect(name: &str, port: u16, bus: &Bus, log: &mut Vec<String>) -> Peer {
    let identity = Identity::v4(0x7f00_0001, port);
    let session = match on_accept(Accepted::Connection(identity)) {
        AcceptorAction::Serve(session) => session,
        AcceptorAction::Resume => panic!("not accepted"),
    };
    let client = Client::new(name.to_string());
    let mut peer = Peer {
        client,
        session,
        subscription: None,
        to_server: LineBuffer::new(),
        to_client: LineBuffer::new(),
        screen: Vec::new(),
    };
    let hello = frame_line(peer.client.username());
    peer.to_server.push(&hello);
    serve_input(&mut peer, bus, log);
    peer
}

fn perform(peer: &mut Peer, action: SessionAction, bus: &Bus, log: &mut Vec<String>) {
    match &action {
        SessionAction::Join(message) | SessionAction::Leave(message) => {
            log.push(message.text.clone())
        }
        _ => {}
    }
    match bus.carry_out(action) {
        Effect::Nothing => {}
        Effect::Subscribed(subscription) => peer.subscription = Some(subscription),
        Effect::Write(text) => peer.to_client.push(&frame_line(&text)),
        Effect::Released => peer.subscription = None,
    }
}

fn serve_input(peer: &mut Peer, bus: &Bus, log: &mut Vec<String>) {
    for action in peer.session.take_input(&mut peer.to_server) {
        perform(peer, action, bus, log);
    }
}

fn serve_bus(peer: &mut Peer, bus: &Bus, log: &mut Vec<String>) {
    loop {
        let event = match peer.subscription.as_mut() {
            None => return,
            Some(subscription) => match subscription.try_recv() {
                Ok(message) => SessionEvent::Delivery(message),
                Err(TryRecvError::Lagged(skipped)) => SessionEvent::Lagged(skipped),
                Err(TryRecvError::Closed) => SessionEvent::BusClosed,
                Err(TryRecvError::Empty) => return,
            },
        };
        let action = peer.session.step(event);
        perform(peer, action, bus, log);
    }
}

fn show_received(peer: &mut Peer) {
    while let Some(line) = peer.to_client.next_text() {
        if let ClientAction::Show { text, highlighted } =
            peer.client.step(ClientEvent::received(line))
        {
            peer.screen.push((text, highlighted));
        }
    }
}

fn type_line(peer: &mut Peer, line: &str, bus: &Bus, log: &mut Vec<String>) {
    if let ClientAction::Send(text) = peer.client.step(ClientEvent::Typed(line.to_string())) {
        peer.to_server.push(&frame_line(&text));
    }
    serve_input(peer, bus, log);
}

fn settle(peers: &mut [&mut Peer], bus: &Bus, log: &mut Vec<String>) {
    for peer in peers.iter_mut() {
        serve_bus(peer, bus, log);
        show_received(peer);
    }
}

fn shown(peer: &Peer) -> Vec<(&str, bool)> {
    peer.screen.iter().map(|(text, highlighted)| (text.as_str(), *highlighted)).collect()
}

#[test]
fn hello_reaches_the_other_client() {
    let (bus, _keep) = Bus::open(100);
    let mut log = Vec::new();
    let mut a = connect("alice", 50001, &bus, &mut log);
    let mut b = connect("bob", 50002, &bus, &mut log);
    type_line(&mut a, "hello", &bus, &mut log);
    settle(&mut [&mut a, &mut b], &bus, &mut log);
    assert_eq!(
        log,
        vec!["System: User 'alice' joined the chat", "System: User 'bob' joined the chat"]
    );
    assert_eq!(shown(&b), vec![("alice: hello", false)]);
    assert_eq!(
        shown(&a),
        vec![("System: User 'bob' joined the chat", false)]
    );
}

#[test]
fn a_mention_is_highlighted_and_not_echoed() {
    let (bus, _keep) = Bus::open(100);
    let mut log = Vec::new();
    let mut a = connect("alice", 50001, &bus, &mut log);
    let mut b = connect("bob", 50002, &bus, &mut log);
    settle(&mut [&mut a, &mut b], &bus, &mut log);
    a.screen.clear();
    b.screen.clear();
    type_line(&mut a, "hi @bob", &bus, &mut log);
    settle(&mut [&mut a, &mut b], &bus, &mut log);
    assert_eq!(shown(&b), vec![("alice: hi @bob", true)]);
    assert_eq!(shown(&a), Vec::<(&str, bool)>::new());
}

#[test]
fn an_abrupt_disconnect_is_announced_to_the_others() {
    let (bus, _keep) = Bus::open(100);
    let mut log = Vec::new();
    let mut a = connect("alice", 50001, &bus, &mut log);
    let mut b = connect("bob", 50002, &bus, &mut log);
    settle(&mut [&mut a, &mut b], &bus, &mut log);
    a.screen.clear();
    let action = b.session.step(SessionEvent::ReadFailed);
    perform(&mut b, action, &bus, &mut log);
    assert!(b.session.is_closed());
    assert!(b.subscription.is_none());
    settle(&mut [&mut a], &bus, &mut log);
    assert_eq!(shown(&a), vec![("System: User 'bob' left the chat", false)]);
    assert_eq!(log.last().map(String::as_str), Some("System: User 'bob' left the chat"));
    assert_eq!(log.iter().filter(|line| line.ends_with("left the chat")).count(), 1);
}

#[test]
fn a_message_reaches_every_session_but_its_own() {
    let (bus, _keep) = Bus::open(100);
    let mut log = Vec::new();
    let names = ["ann", "ben", "cat", "dan", "eve"];
    let mut peers: Vec<Peer> = names
        .iter()
        .enumerate()
        .map(|(i, name)| connect(name, 40000 + i as u16, &bus, &mut log))
        .collect();
    for peer in peers.iter_mut() {
        serve_bus(peer, &bus, &mut log);
        show_received(peer);
        peer.screen.clear();
    }
    for sender in 0..names.len() {
        let line = format!("from {}", names[sender]);
        type_line(&mut peers[sender], &line, &bus, &mut log);
        for (i, peer) in peers.iter_mut().enumerate() {
            serve_bus(peer, &bus, &mut log);
            show_received(peer);
            let expected = format!("{}: from {}", names[sender], names[sender]);
            if i == sender {
                assert!(peer.screen.is_empty());
            } else {
                assert_eq!(shown(peer), vec![(expected.as_str(), false)]);
            }
            peer.screen.clear();
        }
    }
}

#[test]
fn a_client_that_connects_and_leaves_without_a_word_is_never_announced() {
    let (bus, mut watcher) = Bus::open(100);
    let mut log = Vec::new();
    let mut session = Session::new(Identity::v4(0x7f00_0001, 50009));
    let mut wire = LineBuffer::new();
    wire.end();
    let actions = session.take_input(&mut wire);
    assert_eq!(actions, vec![SessionAction::Idle]);
    let mut ghost = Peer {
        client: Client::new(String::new()),
        session,
        subscription: None,
        to_server: wire,
        to_client: LineBuffer::new(),
        screen: Vec::new(),
    };
    for action in actions {
        perform(&mut ghost, action, &bus, &mut log);
    }
    assert!(ghost.session.is_closed());
    assert!(log.is_empty());
    assert_eq!(watcher.try_recv(), Err(TryRecvError::Empty));
}

#[test]
fn a_slow_subscriber_loses_the_oldest_and_keeps_the_newest() {
    let (bus, _keep) = Bus::open(2);
    let mut log = Vec::new();
    let mut slow = connect("slow", 50001, &bus, &mut log);
    let mut fast = connect("fast", 50002, &bus, &mut log);
    settle(&mut [&mut slow, &mut fast], &bus, &mut log);
    slow.screen.clear();
    for line in ["one", "two", "three", "four", "five"] {
        type_line(&mut fast, line, &bus, &mut log);
    }
    assert!(fast.client.is_running());
    settle(&mut [&mut slow], &bus, &mut log);
    assert!(!slow.session.is_closed());
    assert_eq!(shown(&slow), vec![("fast: four", false), ("fast: five", false)]);
}

#[test]
fn the_payload_arrives_byte_for_byte() {
    let (bus, _keep) = Bus::open(100);
    let mut log = Vec::new();
    let mut a = connect("alice", 50001, &bus, &mut log);
    let mut b = connect("bob", 50002, &bus, &mut log);
    settle(&mut [&mut a, &mut b], &bus, &mut log);
    let payload = "alice:   tabs\tand  \u{1f980} \u{e9}\u{4e16}  <- kept as typed";
    a.to_server.push(&frame_line(payload));
    serve_input(&mut a, &bus, &mut log);
    serve_bus(&mut b, &bus, &mut log);
    let mut expected = payload.as_bytes().to_vec();
    expected.push(b'\n');
    let mut wire = Vec::new();
    while let Some(line) = b.to_client.next_line() {
        wire.extend(line);
        wire.push(b'\n');
    }
    assert_eq!(wire, expected);
}
