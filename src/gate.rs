//! The relay switch: whether a viewer is attached, and the lines waiting for it.
//!
//! At most one viewer is attached at a time: a second viewer that asks to
//! attach while one is attached is refused, so no attached viewer ever has its
//! forwarding channel taken over.

use vstd::prelude::*;
use crate::event::{frame, frame_line, Evt, SendEvt};

verus! {

/// The model of a relay: open while a viewer is attached, with the events
/// forwarded to that viewer and not yet taken by it.
pub struct GateModel {
    pub open: bool,
    pub queue: Seq<Evt>,
}

/// The relay after a viewer asks to attach.
pub open spec fn attached(g: GateModel) -> GateModel {
    if g.open {
        g
    } else {
        GateModel { open: true, queue: Seq::empty() }
    }
}

/// The relay after `e` is offered to it: kept for the viewer when open,
/// dropped when closed.
pub open spec fn offered(g: GateModel, e: Evt) -> GateModel {
    if g.open {
        GateModel { open: true, queue: g.queue.push(e) }
    } else {
        g
    }
}

/// The relay after each of `es` is offered to it, in order.
pub open spec fn offered_all(g: GateModel, es: Seq<Evt>) -> GateModel
    decreases es.len(),
{
    if es.len() == 0 {
        g
    } else {
        offered(offered_all(g, es.drop_last()), es.last())
    }
}

/// The relay after it is closed: no more events are kept, and the viewer may
/// still take the ones already kept.
pub open spec fn closed(g: GateModel) -> GateModel {
    GateModel { open: false, queue: g.queue }
}

/// The shared open flag together with the forwarding queue of the attached viewer.
pub struct RelayGate {
    open: bool,
    queue: Vec<SendEvt>,
}

impl View for RelayGate {
    type V = GateModel;

    closed spec fn view(&self) -> GateModel {
        GateModel { open: self.open, queue: self.queue@.map_values(|e: SendEvt| e@) }
    }
}

impl RelayGate {
    /// A closed relay with nothing queued.
    pub fn new() -> (r: RelayGate)
        ensures
            r@ == (GateModel { open: false, queue: Seq::empty() }),
    {
        let r = RelayGate { open: false, queue: Vec::new() };
        assert(r@.queue =~= Seq::<Evt>::empty());
        r
    }

    /// Whether a viewer is attached.
    pub fn is_open(&self) -> (r: bool)
        ensures
            r == self@.open,
    {
        self.open
    }

    /// A viewer asks to attach. It is refused (`false`, nothing changes) while
    /// another one is attached; otherwise the relay opens with a fresh, empty
    /// queue.
    pub fn attach(&mut self) -> (r: bool)
        ensures
            r == !old(self)@.open,
            final(self)@ == attached(old(self)@),
    {
        if self.open {
            false
        } else {
            self.open = true;
            self.queue = Vec::new();
            assert(self@.queue =~= Seq::<Evt>::empty());
            true
        }
    }

    /// Closes the relay. Closing a closed relay changes nothing.
    pub fn close(&mut self)
        ensures
            final(self)@ == closed(old(self)@),
    {
        self.open = false;
    }

    /// Offers `e` to the attached viewer: `true` when it is queued, `false`
    /// when no viewer is attached and it is dropped.
    pub fn try_send(&mut self, e: SendEvt) -> (r: bool)
        ensures
            r == old(self)@.open,
            final(self)@ == offered(old(self)@, e@),
    {
        if self.open {
            self.queue.push(e);
            proof {
                assert(self@.queue =~= old(self)@.queue.push(e@));
            }
            true
        } else {
            false
        }
    }

    /// Hands the queued events to the viewer, oldest first, and empties the queue.
    pub fn take_pending(&mut self) -> (r: Vec<SendEvt>)
        ensures
            r@.map_values(|e: SendEvt| e@) == old(self)@.queue,
            final(self)@ == (GateModel { open: old(self)@.open, queue: Seq::empty() }),
    {
        let mut r: Vec<SendEvt> = Vec::new();
        std::mem::swap(&mut r, &mut self.queue);
        assert(self@.queue =~= Seq::<Evt>::empty());
        r
    }
}

/// The model of what the viewer's writer does with one event.
pub enum WriteModel {
    Write(Seq<char>),
    Stop,
    Skip,
}

/// What the viewer's writer does with one event taken from the relay: a line
/// goes to the viewer framed as the producer sent it; `kill` ends the writer;
/// anything else is passed over.
pub open spec fn write_of(e: Evt) -> WriteModel {
    match e {
        Evt::Line(id, content) => WriteModel::Write(frame(id, content)),
        Evt::Kill => WriteModel::Stop,
        _ => WriteModel::Skip,
    }
}

/// What the viewer's writer does with one event.
#[derive(Debug, PartialEq, Eq)]
pub enum WriterAction {
    /// Write this line, followed by a line break.
    Write(String),
    Stop,
    Skip,
}

impl View for WriterAction {
    type V = WriteModel;

    open spec fn view(&self) -> WriteModel {
        match self {
            WriterAction::Write(line) => WriteModel::Write(line@),
            WriterAction::Stop => WriteModel::Stop,
            WriterAction::Skip => WriteModel::Skip,
        }
    }
}

/// Decides what the viewer's writer does with one event taken from the relay.
pub fn writer_action(e: &SendEvt) -> (r: WriterAction)
    ensures
        r@ == write_of(e@),
{
    match e {
        SendEvt::SendString(id, content) => WriterAction::Write(frame_line(id.as_str(), content.as_str())),
        SendEvt::Kill => WriterAction::Stop,
        _ => WriterAction::Skip,
    }
}

/// Offering events to a closed relay leaves it as it is.
pub proof fn lemma_offered_all_closed(g: GateModel, es: Seq<Evt>)
    requires
        !g.open,
    ensures
        offered_all(g, es) == g,
    decreases es.len(),
{
    if es.len() > 0 {
        lemma_offered_all_closed(g, es.drop_last());
    }
}

/// Offering events to an open relay queues all of them, in order.
pub proof fn lemma_offered_all_open(g: GateModel, es: Seq<Evt>)
    requires
        g.open,
    ensures
        offered_all(g, es) == (GateModel { open: true, queue: g.queue + es }),
    decreases es.len(),
{
    if es.len() > 0 {
        lemma_offered_all_open(g, es.drop_last());
        assert((g.queue + es.drop_last()).push(es.last()) =~= g.queue + es);
    } else {
        assert(g.queue + es =~= g.queue);
    }
}

/// No replay: whatever was offered while no viewer was attached is never
/// handed to a viewer that attaches afterwards; that viewer gets exactly the
/// events offered after it attached, in the order they were offered.
pub proof fn lemma_no_replay(g: GateModel, before: Seq<Evt>, after: Seq<Evt>)
    requires
        !g.open,
    ensures
        offered_all(attached(offered_all(g, before)), after).queue == after,
{
    lemma_offered_all_closed(g, before);
    lemma_offered_all_open(attached(g), after);
    assert(Seq::<Evt>::empty() + after =~= after);
}

} // verus!
