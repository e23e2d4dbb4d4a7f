//! The connection broker's decisions: how a connection's first line classifies
//! it, and how a producer session turns each later line into an event.

use vstd::prelude::*;
use crate::event::{
    end_word, frame, frame_line, frame_safe, is_exactly, kill_word, lemma_first_match_unique,
    parse_frame, separator, split_frame, DecodeError, Evt, SendEvt,
};
use crate::gate::{GateModel, RelayGate};
use crate::text::{first_match, matches_at, matches_at_pos};

verus! {

pub open spec fn connect_word() -> Seq<char> {
    seq!['c', 'o', 'n', 'n', 'e', 'c', 't']
}

pub open spec fn client_word() -> Seq<char> {
    seq!['c', 'l', 'i', 'e', 'n', 't']
}

/// The start of a producer's handshake: `connect -ID- `.
pub open spec fn connect_prefix() -> Seq<char> {
    seq!['c', 'o', 'n', 'n', 'e', 'c', 't', ' ', '-', 'I', 'D', '-', ' ']
}

/// The model of a classified connection.
pub enum Peer {
    Producer(Seq<char>),
    Viewer,
    Rejected,
}

/// How a connection is classified by its first line (without its line break):
/// `connect -ID- <id>` is a producer whose session id is all the rest of the
/// line; a line that begins with `connect` but holds no id is rejected; a line
/// that begins with `client` is a viewer; anything else is rejected.
pub open spec fn classify(line: Seq<char>) -> Peer {
    if matches_at(line, connect_word(), 0) {
        let rest = line.subrange(connect_prefix().len() as int, line.len() as int);
        if matches_at(line, connect_prefix(), 0) && rest.len() > 0 {
            Peer::Producer(rest)
        } else {
            Peer::Rejected
        }
    } else if matches_at(line, client_word(), 0) {
        Peer::Viewer
    } else {
        Peer::Rejected
    }
}

/// A connection, classified by its first line.
#[derive(Debug, PartialEq, Eq)]
pub enum Handshake {
    Producer(String),
    Viewer,
    Reject,
}

impl View for Handshake {
    type V = Peer;

    open spec fn view(&self) -> Peer {
        match self {
            Handshake::Producer(id) => Peer::Producer(id@),
            Handshake::Viewer => Peer::Viewer,
            Handshake::Reject => Peer::Rejected,
        }
    }
}

/// The handshake a producer sends for session `id`, without its line break.
pub fn handshake_line(id: &str) -> (r: String)
    ensures
        r@ == connect_prefix() + id@,
{
    let prefix = "connect -ID- ";
    proof {
        reveal_strlit("connect -ID- ");
    }
    assert(prefix@ =~= connect_prefix());
    String::from_str(prefix).concat(id)
}

impl Handshake {
    /// Classifies a connection by its first line, without its line break.
    pub fn parse(line: &str) -> (r: Handshake)
        ensures
            r@ == classify(line@),
    {
        let connect = "connect";
        let prefix = "connect -ID- ";
        let client = "client";
        proof {
            reveal_strlit("connect");
            reveal_strlit("connect -ID- ");
            reveal_strlit("client");
        }
        assert(connect@ =~= connect_word());
        assert(prefix@ =~= connect_prefix());
        assert(client@ =~= client_word());
        if matches_at_pos(line, connect, 0) {
            if matches_at_pos(line, prefix, 0) {
                let n = line.unicode_len();
                if n > 13 {
                    let rest = line.substring_char(13, n);
                    return Handshake::Producer(String::from_str(rest));
                }
            }
            Handshake::Reject
        } else if matches_at_pos(line, client, 0) {
            Handshake::Viewer
        } else {
            Handshake::Reject
        }
    }
}

/// The model of what a producer session does with one line.
pub enum StepModel {
    Emit(Evt),
    Finish(Evt),
    Skip,
    Abort(DecodeError),
}

/// What a producer session of id `id` does with one line it reads: a content
/// line framed under its own id, `<id> -ENDID- <content>`, is emitted; `kill`
/// and `end` are emitted and end the session; an empty line is dropped; a line
/// framed under another id, or with no separator at all, ends the session
/// with nothing emitted.
pub open spec fn session_step(id: Seq<char>, line: Seq<char>) -> StepModel {
    let own = id + separator();
    if line == kill_word() {
        StepModel::Finish(Evt::Kill)
    } else if line == end_word() {
        StepModel::Finish(Evt::End)
    } else if line.len() == 0 {
        StepModel::Skip
    } else if matches_at(line, own, 0) {
        StepModel::Emit(Evt::Line(id, line.subrange(own.len() as int, line.len() as int)))
    } else if split_frame(line) is Some {
        StepModel::Abort(DecodeError::ForeignId)
    } else {
        StepModel::Abort(DecodeError::MissingSeparator)
    }
}

/// What a producer session does with one line.
#[derive(Debug, PartialEq, Eq)]
pub enum SessionStep {
    /// Emit the event and read on.
    Emit(SendEvt),
    /// Emit the event and end the session.
    Finish(SendEvt),
    /// Drop the line and read on.
    Skip,
    /// End the session with nothing emitted.
    Abort(DecodeError),
}

impl View for SessionStep {
    type V = StepModel;

    open spec fn view(&self) -> StepModel {
        match self {
            SessionStep::Emit(e) => StepModel::Emit(e@),
            SessionStep::Finish(e) => StepModel::Finish(e@),
            SessionStep::Skip => StepModel::Skip,
            SessionStep::Abort(err) => StepModel::Abort(*err),
        }
    }
}

/// A connection classified as a producer, with its session id.
pub struct ProducerSession {
    id: String,
}

impl ProducerSession {
    pub closed spec fn id_spec(&self) -> Seq<char> {
        self.id@
    }

    pub fn new(id: String) -> (r: ProducerSession)
        ensures
            r.id_spec() == id@,
    {
        ProducerSession { id }
    }

    pub fn id(&self) -> (r: String)
        ensures
            r@ == self.id_spec(),
    {
        self.id.clone()
    }

    /// The event emitted as soon as the session is accepted.
    pub fn connect_event(&self) -> (r: SendEvt)
        ensures
            r@ == Evt::Connect(self.id_spec()),
    {
        SendEvt::Connect(self.id.clone())
    }

    /// Decides what to do with one line read from the producer, without its
    /// line break.
    pub fn on_line(&self, line: &str) -> (r: SessionStep)
        ensures
            r@ == session_step(self.id_spec(), line@),
    {
        let kill = "kill";
        let end = "end";
        let none = "";
        proof {
            reveal_strlit("kill");
            reveal_strlit("end");
            reveal_strlit("");
        }
        assert(kill@ =~= kill_word());
        assert(end@ =~= end_word());
        if is_exactly(line, kill) {
            return SessionStep::Finish(SendEvt::Kill);
        }
        if is_exactly(line, end) {
            return SessionStep::Finish(SendEvt::End);
        }
        let n = line.unicode_len();
        if n == 0 {
            return SessionStep::Skip;
        }
        let own = frame_line(self.id.as_str(), none);
        assert(own@ =~= self.id@ + separator());
        if matches_at_pos(line, own.as_str(), 0) {
            let m = own.unicode_len();
            let content = line.substring_char(m, n);
            return SessionStep::Emit(SendEvt::SendString(self.id.clone(), String::from_str(content)));
        }
        match parse_frame(line) {
            Some(_) => SessionStep::Abort(DecodeError::ForeignId),
            None => SessionStep::Abort(DecodeError::MissingSeparator),
        }
    }

    /// What to do when the producer closes the connection: the session ends as
    /// on an `end` line.
    pub fn on_eof(&self) -> (r: SessionStep)
        ensures
            r@ == StepModel::Finish(Evt::End),
    {
        SessionStep::Finish(SendEvt::End)
    }
}

/// The broker's share of the relay: the switch, until the event loop takes it.
pub struct SocketHandler {
    gate: Option<RelayGate>,
}

/// The relay has already been taken from the broker.
#[derive(PartialEq, Eq, Structural, Clone, Copy, Debug)]
pub struct HandlesTaken;

impl SocketHandler {
    pub closed spec fn handles(&self) -> Option<GateModel> {
        match self.gate {
            Some(g) => Some(g@),
            None => None,
        }
    }

    /// A broker holding a closed relay with nothing queued.
    pub fn new() -> (r: SocketHandler)
        ensures
            r.handles() == Some(GateModel { open: false, queue: Seq::empty() }),
    {
        SocketHandler { gate: Some(RelayGate::new()) }
    }

    /// Takes the relay, leaving the broker without it; fails if it was
    /// already taken.
    pub fn get_client_handles(&mut self) -> (r: Result<RelayGate, HandlesTaken>)
        ensures
            final(self).handles() is None,
            match old(self).handles() {
                Some(g) => r matches Ok(taken) && taken@ == g,
                None => r is Err,
            },
    {
        match self.gate.take() {
            Some(g) => Ok(g),
            None => Err(HandlesTaken),
        }
    }
}

/// A producer's handshake for a non-empty id classifies its connection as
/// that producer.
pub proof fn lemma_handshake_round_trip(id: Seq<char>)
    requires
        id.len() > 0,
    ensures
        classify(connect_prefix() + id) == Peer::Producer(id),
{
    let line = connect_prefix() + id;
    assert(line.subrange(0, 13) =~= connect_prefix());
    assert(line.subrange(0, 7) =~= connect_word());
    assert(line.subrange(13, line.len() as int) =~= id);
}

/// A producer's session emits each content line it frames under its own id
/// with that id and that content, whatever the id and the content.
pub proof fn lemma_session_emits_own_frames(id: Seq<char>, content: Seq<char>)
    ensures
        session_step(id, frame(id, content)) == StepModel::Emit(Evt::Line(id, content)),
{
    let line = frame(id, content);
    let own = id + separator();
    assert(line.subrange(0, own.len() as int) =~= own);
    assert(line.subrange(own.len() as int, line.len() as int) =~= content);
    assert(line.len() >= 9);
    assert(line != kill_word());
    assert(line != end_word());
}

/// A data line relayed to the viewer splits back into the same id and
/// content, for every id that does not run into the separator.
pub proof fn lemma_relay_intact(id: Seq<char>, content: Seq<char>)
    requires
        frame_safe(id),
    ensures
        split_frame(frame(id, content)) == Some((id, content)),
{
    let line = frame(id, content);
    let sep = separator();
    let own = id + sep;
    let n = id.len() as int;
    assert(line.subrange(n, n + sep.len()) =~= sep);
    assert forall|j: int| 0 <= j < n implies !#[trigger] matches_at(line, sep, j) by {
        if matches_at(line, sep, j) {
            assert(line.subrange(j, j + sep.len()) =~= own.subrange(j, j + sep.len()));
            assert(matches_at(own, sep, j));
        }
    }
    assert(first_match(line, sep, n));
    let k = choose|k: int| first_match(line, sep, k);
    lemma_first_match_unique(line, sep, n, k);
    assert(line.subrange(0, n) =~= id);
    assert(line.subrange(n + sep.len(), line.len() as int) =~= content);
}

} // verus!
