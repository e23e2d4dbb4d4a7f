//! The event loop's decisions: what each event appends to which log, what it
//! forwards to the viewer, and when the loop stops.

use vstd::prelude::*;
use crate::event::{Evt, SendEvt};
use crate::gate::{attached, closed, offered, GateModel, RelayGate};
use crate::text::{decimal, decimal_string};

verus! {

/// The model of one line of a producer's log.
pub enum Entry {
    Connected,
    Line(Seq<char>),
}

/// One line of a producer's log: the marker written when it connects, or a
/// line of its content.
#[derive(Debug, PartialEq, Eq)]
pub enum LogEntry {
    Connected,
    Line(String),
}

impl View for LogEntry {
    type V = Entry;

    open spec fn view(&self) -> Entry {
        match self {
            LogEntry::Connected => Entry::Connected,
            LogEntry::Line(c) => Entry::Line(c@),
        }
    }
}

/// The model of a directive.
pub struct DirectiveModel {
    pub append: Option<(Seq<char>, Entry)>,
    pub stop: bool,
}

/// What the event loop does for one event, besides forwarding: append
/// `entry` to the log of session `id`, and whether to stop afterwards.
#[derive(Debug, PartialEq, Eq)]
pub struct Directive {
    pub append: Option<(String, LogEntry)>,
    pub stop: bool,
}

impl View for Directive {
    type V = DirectiveModel;

    open spec fn view(&self) -> DirectiveModel {
        DirectiveModel {
            append: match self.append {
                Some((id, entry)) => Some((id@, entry@)),
                None => None,
            },
            stop: self.stop,
        }
    }
}

/// The log line that an event appends, and to whose log.
pub open spec fn append_of(e: Evt) -> Option<(Seq<char>, Entry)> {
    match e {
        Evt::Connect(id) => Some((id, Entry::Connected)),
        Evt::Line(id, content) => Some((id, Entry::Line(content))),
        _ => None,
    }
}

/// Whether an event ends the loop.
pub open spec fn stops(e: Evt) -> bool {
    e is Kill
}

/// The relay after a content line has been logged and forwarded: it is
/// offered to the viewer; no other event is forwarded.
pub open spec fn forwarded(g: GateModel, e: Evt) -> GateModel {
    if e is Line {
        offered(g, e)
    } else {
        g
    }
}

/// The relay after the loop has handled an event and, for a content line
/// whose append succeeded, forwarded it: `kill` is offered too, so that the
/// viewer's writer ends, and then the relay closes.
pub open spec fn gate_after(g: GateModel, e: Evt) -> GateModel {
    if e is Kill {
        closed(offered(g, Evt::Kill))
    } else {
        forwarded(g, e)
    }
}

/// The text of a log line; `secs` is the time of connection in seconds since
/// the epoch.
pub open spec fn entry_text(entry: Entry, secs: nat) -> Seq<char> {
    match entry {
        Entry::Connected => decimal(secs) + seq![' ', '-', ' ', 'c', 'o', 'n', 'n', 'e', 'c', 't', 'e', 'd'],
        Entry::Line(content) => content,
    }
}

/// Whether an event belongs to session `id`.
pub open spec fn concerns(e: Evt, id: Seq<char>) -> bool {
    match e {
        Evt::Connect(i) => i == id,
        Evt::Line(i, _) => i == id,
        _ => false,
    }
}

/// The events of session `id`, in their order in `evts`.
pub open spec fn project(evts: Seq<Evt>, id: Seq<char>) -> Seq<Evt>
    decreases evts.len(),
{
    if evts.len() == 0 {
        Seq::empty()
    } else if concerns(evts[0], id) {
        seq![evts[0]] + project(evts.drop_first(), id)
    } else {
        project(evts.drop_first(), id)
    }
}

/// The log of session `id` after the loop has handled `evts` in order; the
/// loop handles nothing after a `kill`.
pub open spec fn log_file(evts: Seq<Evt>, id: Seq<char>) -> Seq<Entry>
    decreases evts.len(),
{
    if evts.len() == 0 || stops(evts[0]) {
        Seq::empty()
    } else {
        let rest = log_file(evts.drop_first(), id);
        match append_of(evts[0]) {
            Some((i, entry)) => if i == id {
                seq![entry] + rest
            } else {
                rest
            },
            None => rest,
        }
    }
}

/// The log that one session's own events make: a marker for each connect and
/// each content line in the order it was sent.
pub open spec fn producer_log(stream: Seq<Evt>) -> Seq<Entry>
    decreases stream.len(),
{
    if stream.len() == 0 {
        Seq::empty()
    } else {
        let rest = producer_log(stream.drop_first());
        match stream[0] {
            Evt::Connect(_) => seq![Entry::Connected] + rest,
            Evt::Line(_, content) => seq![Entry::Line(content)] + rest,
            _ => rest,
        }
    }
}

/// The path of the collector's socket when none is given.
pub open spec fn default_socket() -> Seq<char> {
    "/tmp/spellholdd_socket"@
}

/// The collector: its socket path, whether it echoes what it receives, and
/// the decisions of its event loop.
pub struct Daemon {
    quiet: bool,
    socket: String,
}

impl Daemon {
    pub closed spec fn quiet_spec(&self) -> bool {
        self.quiet
    }

    pub closed spec fn socket_spec(&self) -> Seq<char> {
        self.socket@
    }

    /// A collector on `socket`, or on the default path when none is given.
    pub fn new(socket: Option<String>, quiet: bool) -> (r: Daemon)
        ensures
            r.quiet_spec() == quiet,
            r.socket_spec() == match socket {
                Some(s) => s@,
                None => default_socket(),
            },
    {
        let socket = match socket {
            Some(s) => s,
            None => String::from_str("/tmp/spellholdd_socket"),
        };
        Daemon { quiet, socket }
    }

    /// A quiet collector on the default path.
    pub fn default() -> (r: Daemon)
        ensures
            r.quiet_spec(),
            r.socket_spec() == default_socket(),
    {
        Daemon { quiet: true, socket: String::from_str("/tmp/spellholdd_socket") }
    }

    pub fn quiet(&self) -> (r: bool)
        ensures
            r == self.quiet_spec(),
    {
        self.quiet
    }

    pub fn socket(&self) -> (r: String)
        ensures
            r@ == self.socket_spec(),
    {
        self.socket.clone()
    }

    /// Decides what to do for one event: what to append to which log and
    /// whether to stop. Nothing is forwarded here: a content line goes to the
    /// viewer through `forward`, once its append has succeeded. Only `kill`
    /// touches the relay, handing the viewer the `kill` and closing.
    pub fn handle(&self, evt: &SendEvt, gate: &mut RelayGate) -> (d: Directive)
        ensures
            d@ == (DirectiveModel { append: append_of(evt@), stop: stops(evt@) }),
            final(gate)@ == if stops(evt@) {
                gate_after(old(gate)@, evt@)
            } else {
                old(gate)@
            },
    {
        match evt {
            SendEvt::Connect(id) => Directive { append: Some((id.clone(), LogEntry::Connected)), stop: false },
            SendEvt::SendString(id, content) => Directive {
                append: Some((id.clone(), LogEntry::Line(content.clone()))),
                stop: false,
            },
            SendEvt::Kill => {
                let _ = gate.try_send(SendEvt::Kill);
                gate.close();
                Directive { append: None, stop: true }
            },
            SendEvt::End => Directive { append: None, stop: false },
            SendEvt::Nothing => Directive { append: None, stop: false },
        }
    }

    /// Offers a content line to the attached viewer, after its append has
    /// succeeded; any other event is not forwarded. Returns whether the line
    /// was queued for a viewer.
    pub fn forward(&self, evt: SendEvt, gate: &mut RelayGate) -> (r: bool)
        ensures
            final(gate)@ == forwarded(old(gate)@, evt@),
            r == (evt@ is Line && old(gate)@.open),
    {
        match evt {
            SendEvt::SendString(id, content) => gate.try_send(SendEvt::SendString(id, content)),
            _ => false,
        }
    }
}

/// The text of a log line; `secs` is the time of connection in seconds since
/// the epoch.
pub fn render_entry(entry: &LogEntry, secs: u64) -> (r: String)
    ensures
        r@ == entry_text(entry@, secs as nat),
{
    match entry {
        LogEntry::Connected => {
            let tail = " - connected";
            proof {
                reveal_strlit(" - connected");
            }
            let r = decimal_string(secs).concat(tail);
            assert(r@ =~= entry_text(entry@, secs as nat));
            r
        },
        LogEntry::Line(content) => content.clone(),
    }
}

/// A `kill` stops the loop and leaves the relay closed; a viewer that was
/// attached is handed the `kill` after everything forwarded before it.
pub proof fn lemma_kill_stops(g: GateModel)
    ensures
        stops(Evt::Kill),
        !gate_after(g, Evt::Kill).open,
        g.open ==> gate_after(g, Evt::Kill).queue == g.queue.push(Evt::Kill),
{
}

/// The relay after the loop has handled each of `evts` in order.
pub open spec fn gate_after_all(g: GateModel, evts: Seq<Evt>) -> GateModel
    decreases evts.len(),
{
    if evts.len() == 0 {
        g
    } else {
        gate_after(gate_after_all(g, evts.drop_last()), evts.last())
    }
}

/// The content lines among `evts`, in order.
pub open spec fn relayed(evts: Seq<Evt>) -> Seq<Evt>
    decreases evts.len(),
{
    if evts.len() == 0 {
        Seq::empty()
    } else if evts.last() is Line {
        relayed(evts.drop_last()).push(evts.last())
    } else {
        relayed(evts.drop_last())
    }
}

proof fn lemma_loop_relay(g: GateModel, evts: Seq<Evt>)
    requires
        forall|i: int| 0 <= i < evts.len() ==> !(#[trigger] evts[i] is Kill),
    ensures
        !g.open ==> gate_after_all(g, evts) == g,
        g.open ==> gate_after_all(g, evts) == (GateModel { open: true, queue: g.queue + relayed(evts) }),
    decreases evts.len(),
{
    if evts.len() > 0 {
        let rest = evts.drop_last();
        assert forall|i: int| 0 <= i < rest.len() implies !(#[trigger] rest[i] is Kill) by {
            assert(rest[i] == evts[i]);
        }
        lemma_loop_relay(g, rest);
        assert(!(evts[evts.len() - 1] is Kill));
        if g.open && evts.last() is Line {
            assert((g.queue + relayed(rest)).push(evts.last()) =~= g.queue + relayed(rest).push(
                evts.last(),
            ));
        }
    } else {
        assert(g.queue + Seq::<Evt>::empty() =~= g.queue);
    }
}

/// Through the loop, a viewer is handed no line handled before it attached,
/// and every content line handled after, in the order handled.
pub proof fn lemma_live_relay(g: GateModel, before: Seq<Evt>, after: Seq<Evt>)
    requires
        !g.open,
        forall|i: int| 0 <= i < before.len() ==> !(#[trigger] before[i] is Kill),
        forall|i: int| 0 <= i < after.len() ==> !(#[trigger] after[i] is Kill),
    ensures
        gate_after_all(attached(gate_after_all(g, before)), after).queue == relayed(after),
{
    lemma_loop_relay(g, before);
    lemma_loop_relay(attached(g), after);
    assert(Seq::<Evt>::empty() + relayed(after) =~= relayed(after));
}

/// Each session's log holds a marker for each of its connects and each of its
/// content lines, in the order it sent them, whatever the interleaving with
/// other sessions: the log is a function of the session's own events alone.
pub proof fn lemma_log_per_producer(evts: Seq<Evt>, id: Seq<char>)
    requires
        forall|i: int| 0 <= i < evts.len() ==> !(#[trigger] evts[i] is Kill),
    ensures
        log_file(evts, id) == producer_log(project(evts, id)),
    decreases evts.len(),
{
    if evts.len() > 0 {
        let rest = evts.drop_first();
        assert forall|i: int| 0 <= i < rest.len() implies !(#[trigger] rest[i] is Kill) by {
            assert(rest[i] == evts[i + 1]);
        }
        lemma_log_per_producer(rest, id);
        assert(!(evts[0] is Kill));
        if concerns(evts[0], id) {
            let p = project(evts, id);
            assert(p.drop_first() =~= project(rest, id));
        }
    }
}

} // verus!
