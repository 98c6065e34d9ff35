use rusty_snow::protocol::{parse_topic, topic_string, StreamError, Topic};
use rusty_snow::session::{reply_frames, split_routed, ClientSession, ClientState, HostAction, HostSessions};

fn s(x: &str) -> String {
    String::from(x)
}

#[test]
fn handshake_reaches_active() {
    let mut host = HostSessions::new();
    let mut client = ClientSession::new(s("alice"));
    assert_eq!(client.state, ClientState::Init);

    let syn = client.start().unwrap();
    assert_eq!(syn, vec![s("SYN")]);
    assert_eq!(client.state, ClientState::AwaitAck);

    let action = host.handle_request(&s("peer-1"), &syn).unwrap();
    assert_eq!(action, HostAction::Reply(Topic::Ack));
    let reply = reply_frames(b"peer-1".to_vec(), Topic::Ack);
    assert_eq!(reply, vec![b"peer-1".to_vec(), vec![], b"ACK".to_vec()]);

    let name = client.on_reply(&String::from_utf8(reply[2].clone()).unwrap()).unwrap();
    assert_eq!(name, vec![s("NAME"), s("alice")]);
    assert_eq!(client.state, ClientState::AwaitNameOk);
    assert!(!host.contains(&s("peer-1")));

    let action = host.handle_request(&s("peer-1"), &name).unwrap();
    assert_eq!(action, HostAction::Reply(Topic::NameOk));
    assert!(host.contains(&s("peer-1")));

    let rest = client.on_reply(&s("NAME_OK")).unwrap();
    assert!(rest.is_empty());
    assert_eq!(client.state, ClientState::Active);
}

#[test]
fn unexpected_reply_to_syn_is_violation() {
    let mut client = ClientSession::new(s("bob"));
    client.start().unwrap();
    assert_eq!(client.on_reply(&s("NAME_OK")), Err(StreamError::ProtocolViolation));
    assert_eq!(client.on_reply(&s("hello")), Err(StreamError::ProtocolViolation));
    assert_eq!(client.state, ClientState::AwaitAck);
}

#[test]
fn unexpected_reply_to_name_is_violation() {
    let mut client = ClientSession::new(s("bob"));
    client.start().unwrap();
    client.on_reply(&s("ACK")).unwrap();
    assert_eq!(client.on_reply(&s("ACK")), Err(StreamError::ProtocolViolation));
    assert_eq!(client.on_reply(&s("")), Err(StreamError::ProtocolViolation));
    assert_eq!(client.state, ClientState::AwaitNameOk);
}

#[test]
fn dc_disconnects_client() {
    let mut client = ClientSession::new(s("carol"));
    client.start().unwrap();
    client.on_reply(&s("ACK")).unwrap();
    assert!(client.on_reply(&s("DC")).unwrap().is_empty());
    assert_eq!(client.state, ClientState::Disconnected);

}

#[test]
fn dc_in_reply_to_syn_is_violation() {
    let mut early = ClientSession::new(s("dave"));
    early.start().unwrap();
    assert_eq!(early.on_reply(&s("DC")), Err(StreamError::ProtocolViolation));
    assert_eq!(early.state, ClientState::AwaitAck);
}

#[test]
fn reply_frames_for_each_tag() {
    assert_eq!(reply_frames(vec![0, 1], Topic::NameOk), vec![vec![0, 1], vec![], b"NAME_OK".to_vec()]);
    assert_eq!(reply_frames(vec![], Topic::Dc), vec![vec![], vec![], b"DC".to_vec()]);
}

#[test]
fn start_twice_is_violation() {
    let mut client = ClientSession::new(s("erin"));
    client.start().unwrap();
    assert_eq!(client.start(), Err(StreamError::ProtocolViolation));
    assert_eq!(client.state, ClientState::AwaitAck);
}

#[test]
fn host_drops_unknown_topics() {
    let mut host = HostSessions::new();
    let r = host.handle_request(&s("p"), &vec![s("input"), s("x")]).unwrap();
    assert_eq!(r, HostAction::Drop);
    assert_eq!(host.handle_request(&s("p"), &vec![]).unwrap(), HostAction::Drop);
    assert!(!host.contains(&s("p")));
}

#[test]
fn host_name_without_identity_is_violation() {
    let mut host = HostSessions::new();
    assert_eq!(host.handle_request(&s("p"), &vec![s("NAME")]), Err(StreamError::ProtocolViolation));
    assert!(!host.contains(&s("p")));
}

#[test]
fn host_last_name_wins_and_evicts() {
    let mut host = HostSessions::new();
    host.handle_request(&s("p"), &vec![s("NAME"), s("alice")]).unwrap();
    host.handle_request(&s("q"), &vec![s("NAME"), s("bob")]).unwrap();
    host.handle_request(&s("p"), &vec![s("NAME"), s("alice2")]).unwrap();
    assert!(host.contains(&s("p")));
    assert!(host.contains(&s("q")));
    assert!(host.evict(&s("p")));
    assert!(!host.contains(&s("p")));
    assert!(host.contains(&s("q")));
    assert!(!host.evict(&s("p")));
}

#[test]
fn topics_read_back() {
    for t in [Topic::Syn, Topic::Ack, Topic::Name, Topic::NameOk, Topic::Dc, Topic::Frame, Topic::Key] {
        assert_eq!(parse_topic(&topic_string(t)), Some(t));
    }
    assert_eq!(topic_string(Topic::NameOk), "NAME_OK");
    assert_eq!(topic_string(Topic::Frame), "frame");
    assert_eq!(parse_topic(&s("syn")), None);
}

#[test]
fn routed_request_split() {
    let m = vec![b"peer".to_vec(), vec![], b"NAME".to_vec(), b"alice".to_vec()];
    let (id, parts) = split_routed(m).unwrap();
    assert_eq!(id, b"peer".to_vec());
    assert_eq!(parts, vec![b"NAME".to_vec(), b"alice".to_vec()]);
    assert!(split_routed(vec![b"peer".to_vec()]).is_none());
    assert!(split_routed(vec![b"peer".to_vec(), b"x".to_vec(), b"SYN".to_vec()]).is_none());
    let (_, empty) = split_routed(vec![b"peer".to_vec(), vec![]]).unwrap();
    assert!(empty.is_empty());
}
