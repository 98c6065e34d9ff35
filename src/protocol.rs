//! The closed set of message tags spoken on the protocol's channels, and the
//! error taxonomy of the engine.
use vstd::prelude::*;

verus! {

/// The errors of the engine.
#[derive(PartialEq, Eq, Structural, Clone, Copy, Debug)]
pub enum StreamError {
    /// A transport endpoint could not be bound or connected.
    ConnectionRefused,
    /// An unexpected message during the handshake.
    ProtocolViolation,
    /// A frame whose payload cannot be decoded, or whose size is wrong.
    FrameDecodeFailure,
    /// An input message that cannot be parsed.
    MalformedInputEvent,
    /// The peer vanished.
    TransportDisconnected,
}

/// The tag that opens each protocol message.
#[derive(PartialEq, Eq, Structural, Clone, Copy, Debug)]
pub enum Topic {
    Syn,
    Ack,
    Name,
    NameOk,
    Dc,
    Frame,
    Key,
}

/// The text of a tag on the wire.
pub open spec fn topic_text(t: Topic) -> Seq<char> {
    match t {
        Topic::Syn => "SYN"@,
        Topic::Ack => "ACK"@,
        Topic::Name => "NAME"@,
        Topic::NameOk => "NAME_OK"@,
        Topic::Dc => "DC"@,
        Topic::Frame => "frame"@,
        Topic::Key => "KEY"@,
    }
}

/// The tag whose text is `s`, if any.
pub open spec fn spec_parse_topic(s: Seq<char>) -> Option<Topic> {
    if s == topic_text(Topic::Syn) {
        Some(Topic::Syn)
    } else if s == topic_text(Topic::Ack) {
        Some(Topic::Ack)
    } else if s == topic_text(Topic::Name) {
        Some(Topic::Name)
    } else if s == topic_text(Topic::NameOk) {
        Some(Topic::NameOk)
    } else if s == topic_text(Topic::Dc) {
        Some(Topic::Dc)
    } else if s == topic_text(Topic::Frame) {
        Some(Topic::Frame)
    } else if s == topic_text(Topic::Key) {
        Some(Topic::Key)
    } else {
        None
    }
}

/// The wire text of a tag.
pub fn topic_string(t: Topic) -> (r: String)
    ensures
        r@ == topic_text(t),
{
    match t {
        Topic::Syn => String::from_str("SYN"),
        Topic::Ack => String::from_str("ACK"),
        Topic::Name => String::from_str("NAME"),
        Topic::NameOk => String::from_str("NAME_OK"),
        Topic::Dc => String::from_str("DC"),
        Topic::Frame => String::from_str("frame"),
        Topic::Key => String::from_str("KEY"),
    }
}

/// The ASCII bytes of a tag's wire text.
pub open spec fn topic_ascii(t: Topic) -> Seq<u8> {
    match t {
        Topic::Syn => seq![0x53u8, 0x59, 0x4e],
        Topic::Ack => seq![0x41u8, 0x43, 0x4b],
        Topic::Name => seq![0x4eu8, 0x41, 0x4d, 0x45],
        Topic::NameOk => seq![0x4eu8, 0x41, 0x4d, 0x45, 0x5f, 0x4f, 0x4b],
        Topic::Dc => seq![0x44u8, 0x43],
        Topic::Frame => seq![0x66u8, 0x72, 0x61, 0x6d, 0x65],
        Topic::Key => seq![0x4bu8, 0x45, 0x59],
    }
}

/// The ASCII bytes spell the tag's wire text, character by character.
pub proof fn lemma_topic_ascii(t: Topic)
    ensures
        topic_ascii(t).len() == topic_text(t).len(),
        forall|i: int| 0 <= i < topic_ascii(t).len() ==> (#[trigger] topic_ascii(t)[i]) as char == topic_text(t)[i],
{
    reveal_strlit("SYN");
    reveal_strlit("ACK");
    reveal_strlit("NAME");
    reveal_strlit("NAME_OK");
    reveal_strlit("DC");
    reveal_strlit("frame");
    reveal_strlit("KEY");
}

/// The wire bytes of a tag.
pub fn topic_bytes(t: Topic) -> (r: Vec<u8>)
    ensures
        r@ == topic_ascii(t),
{
    let r = match t {
        Topic::Syn => vec![0x53u8, 0x59, 0x4e],
        Topic::Ack => vec![0x41u8, 0x43, 0x4b],
        Topic::Name => vec![0x4eu8, 0x41, 0x4d, 0x45],
        Topic::NameOk => vec![0x4eu8, 0x41, 0x4d, 0x45, 0x5f, 0x4f, 0x4b],
        Topic::Dc => vec![0x44u8, 0x43],
        Topic::Frame => vec![0x66u8, 0x72, 0x61, 0x6d, 0x65],
        Topic::Key => vec![0x4bu8, 0x45, 0x59],
    };
    proof {
        assert(r@ =~= topic_ascii(t));
    }
    r
}

/// Reads a tag from its wire text.
pub fn parse_topic(s: &String) -> (r: Option<Topic>)
    ensures
        r == spec_parse_topic(s@),
{
    if *s == topic_string(Topic::Syn) {
        Some(Topic::Syn)
    } else if *s == topic_string(Topic::Ack) {
        Some(Topic::Ack)
    } else if *s == topic_string(Topic::Name) {
        Some(Topic::Name)
    } else if *s == topic_string(Topic::NameOk) {
        Some(Topic::NameOk)
    } else if *s == topic_string(Topic::Dc) {
        Some(Topic::Dc)
    } else if *s == topic_string(Topic::Frame) {
        Some(Topic::Frame)
    } else if *s == topic_string(Topic::Key) {
        Some(Topic::Key)
    } else {
        None
    }
}

/// Each tag reads back from its own text.
pub proof fn lemma_parse_topic_text(t: Topic)
    ensures
        spec_parse_topic(topic_text(t)) == Some(t),
{
    reveal_strlit("SYN");
    reveal_strlit("ACK");
    reveal_strlit("NAME");
    reveal_strlit("NAME_OK");
    reveal_strlit("DC");
    reveal_strlit("frame");
    reveal_strlit("KEY");
    assert(topic_text(Topic::Syn).len() == 3 && topic_text(Topic::Syn)[0] == 'S');
    assert(topic_text(Topic::Ack).len() == 3 && topic_text(Topic::Ack)[0] == 'A');
    assert(topic_text(Topic::Key).len() == 3 && topic_text(Topic::Key)[0] == 'K');
    assert(topic_text(Topic::Name).len() == 4);
    assert(topic_text(Topic::NameOk).len() == 7);
    assert(topic_text(Topic::Dc).len() == 2);
    assert(topic_text(Topic::Frame).len() == 5);
}

/// The wire texts of a message's parts.
pub open spec fn texts(v: Seq<String>) -> Seq<Seq<char>> {
    v.map_values(|s: String| s@)
}

} // verus!
