//! The identity-addressed handshake: the viewer's state machine and the
//! host's table of admitted sessions.
use vstd::prelude::*;
use crate::protocol::{
    StreamError, Topic, topic_text, topic_ascii, topic_bytes, spec_parse_topic, topic_string, parse_topic, texts,
    lemma_parse_topic_text,
};

verus! {

/// Where a viewer stands in the handshake.
#[derive(PartialEq, Eq, Structural, Clone, Copy, Debug)]
pub enum ClientState {
    /// Nothing sent yet.
    Init,
    /// `SYN` sent; waiting for `ACK`.
    AwaitAck,
    /// `NAME` sent; waiting for `NAME_OK`.
    AwaitNameOk,
    /// Admitted by the host.
    Active,
    /// Refused or evicted by the host.
    Disconnected,
}

/// Opening the handshake: only a fresh session may send `SYN`.
pub open spec fn start_step(state: ClientState) -> Result<ClientState, StreamError> {
    if state == ClientState::Init {
        Ok(ClientState::AwaitAck)
    } else {
        Err(StreamError::ProtocolViolation)
    }
}

/// The viewer's transition on a reply from the host.
pub open spec fn reply_step(state: ClientState, reply: Seq<char>) -> Result<ClientState, StreamError> {
    match (state, spec_parse_topic(reply)) {
        (ClientState::AwaitAck, Some(Topic::Ack)) => Ok(ClientState::AwaitNameOk),
        (ClientState::AwaitNameOk, Some(Topic::NameOk)) => Ok(ClientState::Active),
        (ClientState::AwaitNameOk, Some(Topic::Dc)) => Ok(ClientState::Disconnected),
        _ => Err(StreamError::ProtocolViolation),
    }
}

/// What the viewer sends on entering `state`: its name right after `ACK`,
/// nothing otherwise.
pub open spec fn request_after(state: ClientState, identity: Seq<char>) -> Seq<Seq<char>> {
    if state == ClientState::AwaitNameOk {
        seq![topic_text(Topic::Name), identity]
    } else {
        Seq::empty()
    }
}

/// A viewer's side of the handshake.
pub struct ClientSession {
    pub identity: String,
    pub state: ClientState,
}

impl ClientSession {
    pub fn new(identity: String) -> (r: ClientSession)
        ensures
            r.identity == identity,
            r.state == ClientState::Init,
    {
        ClientSession { identity, state: ClientState::Init }
    }

    /// Opens the handshake; returns the message to send, `SYN`.
    pub fn start(&mut self) -> (r: Result<Vec<String>, StreamError>)
        ensures
            final(self).identity == old(self).identity,
            match start_step(old(self).state) {
                Ok(s) => r is Ok && final(self).state == s
                    && texts(r->Ok_0@) == seq![topic_text(Topic::Syn)],
                Err(e) => r == Err::<Vec<String>, StreamError>(e) && final(self).state == old(self).state,
            },
    {
        if self.state == ClientState::Init {
            self.state = ClientState::AwaitAck;
            let mut v: Vec<String> = Vec::new();
            v.push(topic_string(Topic::Syn));
            proof {
                assert(texts(v@) =~= seq![topic_text(Topic::Syn)]);
            }
            Ok(v)
        } else {
            Err(StreamError::ProtocolViolation)
        }
    }

    /// Takes the host's reply; returns what to send next (the name after
    /// `ACK`, nothing otherwise). An unexpected reply leaves the session as
    /// it was and fails with `ProtocolViolation`.
    pub fn on_reply(&mut self, reply: &String) -> (r: Result<Vec<String>, StreamError>)
        ensures
            final(self).identity == old(self).identity,
            match reply_step(old(self).state, reply@) {
                Ok(s) => r is Ok && final(self).state == s
                    && texts(r->Ok_0@) == request_after(s, old(self).identity@),
                Err(e) => r == Err::<Vec<String>, StreamError>(e) && final(self).state == old(self).state,
            },
    {
        let t = parse_topic(reply);
        let next = match (self.state, t) {
            (ClientState::AwaitAck, Some(Topic::Ack)) => ClientState::AwaitNameOk,
            (ClientState::AwaitNameOk, Some(Topic::NameOk)) => ClientState::Active,
            (ClientState::AwaitNameOk, Some(Topic::Dc)) => ClientState::Disconnected,
            _ => {
                return Err(StreamError::ProtocolViolation);
            },
        };
        self.state = next;
        let mut v: Vec<String> = Vec::new();
        if next == ClientState::AwaitNameOk {
            v.push(topic_string(Topic::Name));
            v.push(self.identity.clone());
        }
        proof {
            assert(texts(v@) =~= request_after(next, self.identity@));
        }
        Ok(v)
    }
}

/// What the host does with a request.
#[derive(PartialEq, Eq, Structural, Clone, Copy, Debug)]
pub enum HostAction {
    /// Send this tag back to the sender.
    Reply(Topic),
    /// Send nothing.
    Drop,
}

/// The host's handling of a request from `sender`, whose parts are `frames`,
/// on the table `table` (sender identity to claimed identity): the new table
/// and the action.
pub open spec fn host_step(
    table: Map<Seq<char>, Seq<char>>,
    sender: Seq<char>,
    frames: Seq<Seq<char>>,
) -> (Map<Seq<char>, Seq<char>>, Result<HostAction, StreamError>) {
    if frames.len() == 0 {
        (table, Ok(HostAction::Drop))
    } else {
        match spec_parse_topic(frames[0]) {
            Some(Topic::Syn) => (table, Ok(HostAction::Reply(Topic::Ack))),
            Some(Topic::Name) => if frames.len() >= 2 {
                (table.insert(sender, frames[1]), Ok(HostAction::Reply(Topic::NameOk)))
            } else {
                (table, Err(StreamError::ProtocolViolation))
            },
            _ => (table, Ok(HostAction::Drop)),
        }
    }
}

/// The map that a list of (sender, claimed identity) entries denotes.
pub open spec fn entries_map(s: Seq<(String, String)>) -> Map<Seq<char>, Seq<char>>
    decreases s.len(),
{
    if s.len() == 0 {
        Map::empty()
    } else {
        entries_map(s.drop_last()).insert(s.last().0@, s.last().1@)
    }
}

pub open spec fn keys_unique(s: Seq<(String, String)>) -> bool {
    forall|i: int, j: int| 0 <= i < j < s.len() ==> (#[trigger] s[i]).0@ != (#[trigger] s[j]).0@
}

proof fn lemma_entries_dom(s: Seq<(String, String)>, k: Seq<char>)
    ensures
        entries_map(s).dom().contains(k) <==> exists|i: int| 0 <= i < s.len() && (#[trigger] s[i]).0@ == k,
    decreases s.len(),
{
    if s.len() > 0 {
        lemma_entries_dom(s.drop_last(), k);
        if entries_map(s).dom().contains(k) {
            if k != s.last().0@ {
                let i = choose|i: int| 0 <= i < s.len() - 1 && (#[trigger] s.drop_last()[i]).0@ == k;
                assert(s[i] == s.drop_last()[i]);
            } else {
                assert(s[s.len() - 1].0@ == k);
            }
        }
        if exists|i: int| 0 <= i < s.len() && (#[trigger] s[i]).0@ == k {
            let i = choose|i: int| 0 <= i < s.len() && (#[trigger] s[i]).0@ == k;
            if i < s.len() - 1 {
                assert(s.drop_last()[i] == s[i]);
            }
        }
    }
}

proof fn lemma_entries_remove(s: Seq<(String, String)>, i: int)
    requires
        keys_unique(s),
        0 <= i < s.len(),
    ensures
        keys_unique(s.remove(i)),
        entries_map(s.remove(i)) == entries_map(s).remove(s[i].0@),
    decreases s.len(),
{
    let k = s[i].0@;
    let r = s.remove(i);
    assert(keys_unique(r)) by {
        assert forall|a: int, b: int| 0 <= a < b < r.len() implies (#[trigger] r[a]).0@ != (#[trigger] r[b]).0@ by {
            let a2 = if a < i { a } else { a + 1 };
            let b2 = if b < i { b } else { b + 1 };
            assert(r[a] == s[a2] && r[b] == s[b2]);
        }
    }
    let p = s.drop_last();
    assert(keys_unique(p));
    if i == s.len() - 1 {
        assert(r =~= p);
        assert(!entries_map(p).dom().contains(k)) by {
            lemma_entries_dom(p, k);
            if exists|j: int| 0 <= j < p.len() && (#[trigger] p[j]).0@ == k {
                let j = choose|j: int| 0 <= j < p.len() && (#[trigger] p[j]).0@ == k;
                assert(s[j] == p[j]);
            }
        }
        assert(entries_map(s).remove(k) =~= entries_map(p));
    } else {
        lemma_entries_remove(p, i);
        assert(r.drop_last() =~= p.remove(i));
        assert(r.last() == s.last());
        assert(s.last().0@ != k) by {
            assert(s[s.len() - 1] == s.last());
        }
        assert(entries_map(r) =~= entries_map(s).remove(k));
    }
}

/// The host's table of admitted sessions: for each sender identity, the
/// identity it claimed with `NAME`. At most one entry per sender.
pub struct HostSessions {
    entries: Vec<(String, String)>,
}

impl View for HostSessions {
    type V = Map<Seq<char>, Seq<char>>;

    closed spec fn view(&self) -> Map<Seq<char>, Seq<char>> {
        entries_map(self.entries@)
    }
}

impl HostSessions {
    /// At most one entry per sender.
    pub closed spec fn wf(&self) -> bool {
        keys_unique(self.entries@)
    }

    /// No session admitted.
    pub fn new() -> (r: HostSessions)
        ensures
            r.wf(),
            r@ == Map::<Seq<char>, Seq<char>>::empty(),
    {
        HostSessions { entries: Vec::new() }
    }

    fn find(&self, sender: &String) -> (r: Option<usize>)
        ensures
            match r {
                Some(i) => i < self.entries@.len() && self.entries@[i as int].0@ == sender@,
                None => !self@.dom().contains(sender@),
            },
    {
        let mut i: usize = 0;
        while i < self.entries.len()
            invariant
                i <= self.entries@.len(),
                forall|j: int| 0 <= j < i ==> (#[trigger] self.entries@[j]).0@ != sender@,
            decreases self.entries.len() - i,
        {
            if self.entries[i].0 == *sender {
                return Some(i);
            }
            i = i + 1;
        }
        proof {
            lemma_entries_dom(self.entries@, sender@);
        }
        None
    }

    /// Whether `sender` holds an admitted session.
    pub fn contains(&self, sender: &String) -> (r: bool)
        ensures
            r == self@.dom().contains(sender@),
    {
        proof {
            lemma_entries_dom(self.entries@, sender@);
        }
        self.find(sender).is_some()
    }

    /// Ends the session of `sender`, if there is one; says whether there was.
    pub fn evict(&mut self, sender: &String) -> (r: bool)
        requires
            old(self).wf(),
        ensures
            final(self).wf(),
            final(self)@ == old(self)@.remove(sender@),
            r == old(self)@.dom().contains(sender@),
    {
        proof {
            lemma_entries_dom(self.entries@, sender@);
        }
        match self.find(sender) {
            Some(i) => {
                proof {
                    lemma_entries_remove(self.entries@, i as int);
                }
                self.entries.remove(i);
                true
            },
            None => {
                proof {
                    assert(self@.remove(sender@) =~= self@);
                }
                false
            },
        }
    }

    /// Records (or replaces) the session of `sender` under `claimed`.
    fn record(&mut self, sender: &String, claimed: String)
        requires
            old(self).wf(),
        ensures
            final(self).wf(),
            final(self)@ == old(self)@.insert(sender@, claimed@),
    {
        self.evict(sender);
        proof {
            lemma_entries_dom(self.entries@, sender@);
        }
        let ghost before = self.entries@;
        self.entries.push((sender.clone(), claimed));
        proof {
            let s = self.entries@;
            assert(s.drop_last() =~= before);
            assert forall|a: int, b: int| 0 <= a < b < s.len() implies (#[trigger] s[a]).0@ != (#[trigger] s[b]).0@ by {
                if b == s.len() - 1 {
                    assert(s[a] == before[a]);
                } else {
                    assert(s[a] == before[a] && s[b] == before[b]);
                }
            }
            assert(old(self)@.remove(sender@).insert(sender@, claimed@) =~= old(self)@.insert(sender@, claimed@));
        }
    }

    /// Handles one request from `sender`: `SYN` is answered with `ACK`;
    /// `NAME` with a claimed identity records the session and is answered
    /// with `NAME_OK`; anything else is dropped.
    pub fn handle_request(&mut self, sender: &String, frames: &Vec<String>) -> (r: Result<HostAction, StreamError>)
        requires
            old(self).wf(),
        ensures
            final(self).wf(),
            (final(self)@, r) == host_step(old(self)@, sender@, texts(frames@)),
    {
        if frames.len() == 0 {
            return Ok(HostAction::Drop);
        }
        let t = parse_topic(&frames[0]);
        match t {
            Some(Topic::Syn) => Ok(HostAction::Reply(Topic::Ack)),
            Some(Topic::Name) => {
                if frames.len() >= 2 {
                    self.record(sender, frames[1].clone());
                    Ok(HostAction::Reply(Topic::NameOk))
                } else {
                    Err(StreamError::ProtocolViolation)
                }
            },
            _ => Ok(HostAction::Drop),
        }
    }
}

/// A routed request split into the sender's identity and the request's own
/// parts: the identity, an empty delimiter, then the parts.
pub open spec fn spec_split_routed(m: Seq<Seq<u8>>) -> Option<(Seq<u8>, Seq<Seq<u8>>)> {
    if m.len() >= 2 && m[1].len() == 0 {
        Some((m[0], m.skip(2)))
    } else {
        None
    }
}

/// Splits a message that arrived on the routed handshake channel into the
/// sender's identity and the request's parts; `None` when it lacks the
/// empty delimiter after the identity.
pub fn split_routed(message: Vec<Vec<u8>>) -> (r: Option<(Vec<u8>, Vec<Vec<u8>>)>)
    ensures
        match spec_split_routed(message@.map_values(|p: Vec<u8>| p@)) {
            Some((id, parts)) => r is Some && r->Some_0.0@ == id
                && r->Some_0.1@.map_values(|p: Vec<u8>| p@) == parts,
            None => r is None,
        },
{
    let ghost views = message@.map_values(|p: Vec<u8>| p@);
    if message.len() < 2 || message[1].len() != 0 {
        proof {
            if message.len() >= 2 {
                assert(views[1] == message@[1]@);
            }
        }
        return None;
    }
    let mut rest = message;
    let identity = rest.remove(0);
    let _delimiter = rest.remove(0);
    proof {
        assert(views[0] == identity@);
        assert(rest@.map_values(|p: Vec<u8>| p@) =~= views.skip(2));
        assert(views[1] == message@[1]@);
    }
    Some((identity, rest))
}

/// The parts of a reply routed back to the peer `identity`: the identity,
/// an empty delimiter, then the tag's wire bytes.
pub fn reply_frames(identity: Vec<u8>, t: Topic) -> (r: Vec<Vec<u8>>)
    ensures
        r@.map_values(|p: Vec<u8>| p@) == seq![identity@, Seq::<u8>::empty(), topic_ascii(t)],
{
    let ghost id = identity@;
    let mut v: Vec<Vec<u8>> = Vec::new();
    v.push(identity);
    v.push(Vec::new());
    v.push(topic_bytes(t));
    proof {
        assert(v@.map_values(|p: Vec<u8>| p@) =~= seq![id, Seq::<u8>::empty(), topic_ascii(t)]);
    }
    v
}

/// A viewer that sends `SYN` and then its name reaches `ACTIVE` on the
/// host's replies, and the host then holds its session: `SYN` is answered
/// with `ACK`, after which the viewer names itself, and that name is
/// answered with `NAME_OK`.
pub proof fn law_handshake_completes(table: Map<Seq<char>, Seq<char>>, sender: Seq<char>, identity: Seq<char>)
    ensures
        start_step(ClientState::Init) == Ok::<ClientState, StreamError>(ClientState::AwaitAck),
        host_step(table, sender, seq![topic_text(Topic::Syn)])
            == (table, Ok::<HostAction, StreamError>(HostAction::Reply(Topic::Ack))),
        reply_step(ClientState::AwaitAck, topic_text(Topic::Ack)) == Ok::<ClientState, StreamError>(ClientState::AwaitNameOk),
        request_after(ClientState::AwaitNameOk, identity) == seq![topic_text(Topic::Name), identity],
        host_step(table, sender, request_after(ClientState::AwaitNameOk, identity))
            == (table.insert(sender, identity), Ok::<HostAction, StreamError>(HostAction::Reply(Topic::NameOk))),
        reply_step(ClientState::AwaitNameOk, topic_text(Topic::NameOk)) == Ok::<ClientState, StreamError>(ClientState::Active),
{
    lemma_parse_topic_text(Topic::Syn);
    lemma_parse_topic_text(Topic::Ack);
    lemma_parse_topic_text(Topic::Name);
    lemma_parse_topic_text(Topic::NameOk);
}

/// After `SYN`, any reply other than `ACK` is a protocol violation.
pub proof fn law_syn_accepts_only_ack(reply: Seq<char>)
    requires
        reply != topic_text(Topic::Ack),
    ensures
        reply_step(ClientState::AwaitAck, reply) == Err::<ClientState, StreamError>(StreamError::ProtocolViolation),
{
}

/// After `NAME`, any reply other than `NAME_OK` or `DC` is a protocol
/// violation (`DC` ends the session cleanly).
pub proof fn law_name_rejects(reply: Seq<char>)
    requires
        reply != topic_text(Topic::Dc),
        reply != topic_text(Topic::NameOk),
    ensures
        reply_step(ClientState::AwaitNameOk, reply) == Err::<ClientState, StreamError>(StreamError::ProtocolViolation),
{
}

} // verus!
