use peer_chat::{Action, Coordinator, Event, Notice, PeerIdentity, ACKNOWLEDGMENT};

struct Token(u64);

fn id(bytes: &[u8]) -> PeerIdentity {
    PeerIdentity::new(bytes.to_vec())
}

fn line(text: &str) -> Event<u32> {
    Event::Line(text.to_string())
}

fn sending(peer: &[u8], text: &str) -> Action<u32> {
    Action::Notify(Notice::Sending { peer: id(peer), text: text.to_string() })
}

fn request(peer: &[u8], text: &str) -> Action<u32> {
    Action::SendRequest { peer: id(peer), text: text.to_string() }
}

fn requests(actions: &[Action<u32>]) -> Vec<(PeerIdentity, String)> {
    let mut out = Vec::new();
    for action in actions {
        if let Action::SendRequest { peer, text } = action {
            out.push((peer.clone(), text.clone()));
        }
    }
    out
}

#[test]
fn acknowledgment_is_alive() {
    assert_eq!(ACKNOWLEDGMENT, "alive");
}

#[test]
fn new_node_knows_no_peer() {
    let node = Coordinator::new();
    assert!(node.peers().is_empty());
}

#[test]
fn line_without_peers_is_dropped() {
    let mut node = Coordinator::new();
    let actions = node.handle(line("hello"));
    assert_eq!(actions, vec![Action::Notify(Notice::NoPeers)]);
    assert!(requests(&actions).is_empty());
    assert!(node.peers().is_empty());
}

#[test]
fn dropped_line_is_not_sent_later() {
    let mut node = Coordinator::new();
    node.handle(line("lost"));
    let actions = node.handle(Event::<u32>::Discovered(vec![id(&[1])]));
    assert_eq!(actions, vec![Action::Notify(Notice::Discovered { peer: id(&[1]) })]);
    let actions = node.handle(line("kept"));
    assert_eq!(actions, vec![sending(&[1], "kept"), request(&[1], "kept")]);
}

#[test]
fn line_goes_to_every_peer() {
    let mut node = Coordinator::new();
    node.handle(Event::<u32>::Discovered(vec![id(&[1]), id(&[2]), id(&[3])]));
    let actions = node.handle(line("hi all"));
    assert_eq!(
        actions,
        vec![
            sending(&[1], "hi all"),
            request(&[1], "hi all"),
            sending(&[2], "hi all"),
            request(&[2], "hi all"),
            sending(&[3], "hi all"),
            request(&[3], "hi all"),
        ]
    );
    assert_eq!(requests(&actions).len(), node.peers().len());
    assert_eq!(node.peers().len(), 3);
}

#[test]
fn discovery_notes_every_report_and_adds_each_peer_once() {
    let mut node = Coordinator::new();
    let actions = node.handle(Event::<u32>::Discovered(vec![id(&[1]), id(&[2]), id(&[1])]));
    assert_eq!(
        actions,
        vec![
            Action::Notify(Notice::Discovered { peer: id(&[1]) }),
            Action::Notify(Notice::Discovered { peer: id(&[2]) }),
            Action::Notify(Notice::Discovered { peer: id(&[1]) }),
        ]
    );
    assert_eq!(node.peers().snapshot(), vec![id(&[1]), id(&[2])]);
}

#[test]
fn expiry_notes_every_report_and_removes_the_peers() {
    let mut node = Coordinator::new();
    node.handle(Event::<u32>::Discovered(vec![id(&[1]), id(&[2]), id(&[3])]));
    let actions = node.handle(Event::<u32>::Expired(vec![id(&[3]), id(&[9]), id(&[1])]));
    assert_eq!(
        actions,
        vec![
            Action::Notify(Notice::Expired { peer: id(&[3]) }),
            Action::Notify(Notice::Expired { peer: id(&[9]) }),
            Action::Notify(Notice::Expired { peer: id(&[1]) }),
        ]
    );
    assert_eq!(node.peers().snapshot(), vec![id(&[2])]);
}

#[test]
fn empty_discovery_reports_change_nothing() {
    let mut node = Coordinator::new();
    node.handle(Event::<u32>::Discovered(vec![id(&[1])]));
    assert_eq!(node.handle(Event::<u32>::Discovered(Vec::new())), Vec::new());
    assert_eq!(node.handle(Event::<u32>::Expired(Vec::new())), Vec::new());
    assert_eq!(node.peers().snapshot(), vec![id(&[1])]);
}

#[test]
fn request_is_acknowledged_once_on_its_channel() {
    let mut node = Coordinator::new();
    let actions = node.handle(Event::Request { text: String::from("ping \u{1f600}"), channel: 17u32 });
    assert_eq!(
        actions,
        vec![
            Action::Notify(Notice::Request { text: String::from("ping \u{1f600}") }),
            Action::SendResponse { channel: 17u32, text: String::from("alive") },
        ]
    );
    assert!(node.peers().is_empty());
}

#[test]
fn request_is_acknowledged_whatever_the_peers() {
    let mut node = Coordinator::new();
    node.handle(Event::<u8>::Discovered(vec![id(&[1])]));
    let actions = node.handle(Event::Request { text: String::new(), channel: 3u8 });
    assert_eq!(
        actions,
        vec![
            Action::Notify(Notice::Request { text: String::new() }),
            Action::SendResponse { channel: 3u8, text: String::from("alive") },
        ]
    );
    assert_eq!(node.peers().snapshot(), vec![id(&[1])]);
}

#[test]
fn channel_is_handed_on_not_copied() {
    // a channel that cannot be cloned: it leaves the event and arrives in the action
    let mut node = Coordinator::new();
    let mut actions = node.handle(Event::Request { text: String::from("x"), channel: Token(5) });
    assert_eq!(actions.len(), 2);
    match actions.pop() {
        Some(Action::SendResponse { channel, text }) => {
            assert_eq!(channel.0, 5);
            assert_eq!(text, "alive");
        }
        _ => panic!("the last action answers the request"),
    }
}

#[test]
fn response_is_noted_only() {
    let mut node = Coordinator::new();
    let actions = node.handle(Event::<u32>::Response(String::from("alive")));
    assert_eq!(actions, vec![Action::Notify(Notice::Response { text: String::from("alive") })]);
}

#[test]
fn undelivered_response_is_noted_only() {
    let mut node = Coordinator::new();
    let actions = node.handle(Event::<u32>::ResponseUndelivered(String::from("alive")));
    assert_eq!(
        actions,
        vec![Action::Notify(Notice::ResponseUndelivered { text: String::from("alive") })]
    );
}

#[test]
fn listening_address_is_noted_only() {
    let mut node = Coordinator::new();
    let actions = node.handle(Event::<u32>::Listening(String::from("/ip4/127.0.0.1/tcp/4001")));
    assert_eq!(
        actions,
        vec![Action::Notify(Notice::Listening { address: String::from("/ip4/127.0.0.1/tcp/4001") })]
    );
    assert!(node.peers().is_empty());
}

#[test]
fn other_events_do_nothing() {
    let mut node = Coordinator::new();
    node.handle(Event::<u32>::Discovered(vec![id(&[4])]));
    assert_eq!(node.handle(Event::<u32>::Other), Vec::new());
    assert_eq!(node.peers().snapshot(), vec![id(&[4])]);
}

#[test]
fn scenario_two_peers_then_one() {
    let a: &[u8] = &[0xa];
    let b: &[u8] = &[0xb];
    let mut node = Coordinator::new();
    assert!(node.peers().is_empty());

    node.handle(Event::<u32>::Discovered(vec![id(a)]));
    node.handle(Event::<u32>::Discovered(vec![id(b)]));
    assert_eq!(node.peers().len(), 2);
    assert!(node.peers().contains(&id(a)));
    assert!(node.peers().contains(&id(b)));

    let actions = node.handle(line("hello"));
    assert_eq!(
        requests(&actions),
        vec![(id(a), String::from("hello")), (id(b), String::from("hello"))]
    );

    node.handle(Event::<u32>::Expired(vec![id(a)]));
    assert_eq!(node.peers().snapshot(), vec![id(b)]);

    let actions = node.handle(line("again"));
    assert_eq!(requests(&actions), vec![(id(b), String::from("again"))]);
    assert_eq!(actions, vec![sending(b, "again"), request(b, "again")]);
}
