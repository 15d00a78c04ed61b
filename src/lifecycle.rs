//! The life of one connection: registered once when it opens, each text
//! frame handled in order, unregistered once when it ends.
use vstd::prelude::*;

use uuid::Uuid;

use crate::dispatch::Session;
use crate::registry::ConnectionId;

verus! {

/// Where a connection stands.
#[derive(Debug, Clone, Copy, PartialEq, Eq)]
pub enum Phase {
    Connecting,
    Open,
    Closed,
}

/// What the transport reports about one connection.
#[derive(Debug, Clone, PartialEq, Eq)]
pub enum Event {
    /// The socket is ready to carry messages.
    Established,
    /// A text frame arrived.
    Text(String),
    /// The peer sent a close frame.
    CloseFrame,
    /// A binary, ping or pong frame arrived: a protocol violation.
    Unexpected,
    /// Receiving failed.
    TransportError,
    /// The inbound stream ended.
    StreamEnded,
}

/// What the connection's task must do after an event.
#[derive(Debug, Clone, PartialEq, Eq)]
pub enum Step {
    /// Insert the connection's handle into the registry under this id.
    Register(ConnectionId),
    /// Decode and dispatch this text.
    Handle(String),
    /// Remove this id from the registry.
    Unregister(ConnectionId),
    /// Nothing to do.
    Idle,
}

/// One connection's state.
#[derive(Debug, Clone)]
pub struct Connection {
    pub id: ConnectionId,
    pub phase: Phase,
    pub session: Session,
}

/// The shape of a step, without the text it may carry.
#[derive(Debug, Clone, Copy, PartialEq, Eq)]
pub enum StepKind {
    Register,
    Handle,
    Unregister,
    Idle,
}

/// The phase that follows `p` on event `e`.
pub open spec fn next_phase(p: Phase, e: Event) -> Phase {
    match p {
        Phase::Connecting => if e is Established {
            Phase::Open
        } else {
            Phase::Closed
        },
        Phase::Open => if e is Text {
            Phase::Open
        } else {
            Phase::Closed
        },
        Phase::Closed => Phase::Closed,
    }
}

/// The kind of step taken from `p` on event `e`.
pub open spec fn step_kind(p: Phase, e: Event) -> StepKind {
    match p {
        Phase::Connecting => if e is Established {
            StepKind::Register
        } else {
            StepKind::Idle
        },
        Phase::Open => if e is Text {
            StepKind::Handle
        } else {
            StepKind::Unregister
        },
        Phase::Closed => StepKind::Idle,
    }
}

/// The kind of a step.
pub open spec fn kind_of(s: Step) -> StepKind {
    match s {
        Step::Register(_) => StepKind::Register,
        Step::Handle(_) => StepKind::Handle,
        Step::Unregister(_) => StepKind::Unregister,
        Step::Idle => StepKind::Idle,
    }
}

/// The kinds of the steps taken from `p` over the events `evs`.
pub open spec fn trace(p: Phase, evs: Seq<Event>) -> Seq<StepKind>
    decreases evs.len(),
{
    if evs.len() == 0 {
        Seq::empty()
    } else {
        seq![step_kind(p, evs[0])] + trace(next_phase(p, evs[0]), evs.drop_first())
    }
}

/// The phase reached from `p` over the events `evs`.
pub open spec fn phase_after(p: Phase, evs: Seq<Event>) -> Phase
    decreases evs.len(),
{
    if evs.len() == 0 {
        p
    } else {
        phase_after(next_phase(p, evs[0]), evs.drop_first())
    }
}

/// How many steps of kind `k` a trace holds.
pub open spec fn count(t: Seq<StepKind>, k: StepKind) -> nat
    decreases t.len(),
{
    if t.len() == 0 {
        0
    } else {
        (if t[0] == k { 1nat } else { 0nat }) + count(t.drop_first(), k)
    }
}

impl Connection {
    /// A connection that is not open yet.
    pub fn new(id: ConnectionId) -> (r: Connection)
        ensures
            r.id == id,
            r.phase == Phase::Connecting,
            r.session.user is None,
    {
        Connection { id, phase: Phase::Connecting, session: Session::new() }
    }

    /// Takes one event: moves to the next phase and says what to do. The
    /// registry is touched only through the steps, with this connection's
    /// id; a text frame is handed on as it came.
    pub fn step(&mut self, e: Event) -> (r: Step)
        ensures
            final(self).id == old(self).id,
            final(self).session == old(self).session,
            final(self).phase == next_phase(old(self).phase, e),
            kind_of(r) == step_kind(old(self).phase, e),
            r matches Step::Register(i) ==> i == old(self).id,
            r matches Step::Unregister(i) ==> i == old(self).id,
            r matches Step::Handle(t) ==> e == Event::Text(t),
    {
        match self.phase {
            Phase::Connecting => {
                match e {
                    Event::Established => {
                        self.phase = Phase::Open;
                        Step::Register(self.id)
                    },
                    _ => {
                        self.phase = Phase::Closed;
                        Step::Idle
                    },
                }
            },
            Phase::Open => {
                match e {
                    Event::Text(t) => Step::Handle(t),
                    _ => {
                        self.phase = Phase::Closed;
                        Step::Unregister(self.id)
                    },
                }
            },
            Phase::Closed => Step::Idle,
        }
    }
}

/// Relies on uuid::Uuid::new_v4: a random identifier, read as an integer.
#[verifier::external_body]
fn random_id() -> (r: u128) {
    Uuid::new_v4().as_u128()
}

/// A new connection under a freshly drawn random id.
pub fn open_connection() -> (r: Connection)
    ensures
        r.phase == Phase::Connecting,
        r.session.user is None,
{
    Connection::new(random_id())
}

proof fn lemma_closed_idle(evs: Seq<Event>)
    ensures
        trace(Phase::Closed, evs).len() == evs.len(),
        forall|i: int|
            0 <= i < evs.len() ==> #[trigger] trace(Phase::Closed, evs)[i] == StepKind::Idle,
        count(trace(Phase::Closed, evs), StepKind::Register) == 0,
        count(trace(Phase::Closed, evs), StepKind::Unregister) == 0,
        phase_after(Phase::Closed, evs) == Phase::Closed,
    decreases evs.len(),
{
    if evs.len() > 0 {
        lemma_closed_idle(evs.drop_first());
        let t = trace(Phase::Closed, evs);
        assert(t.drop_first() =~= trace(Phase::Closed, evs.drop_first()));
        assert forall|i: int| 0 <= i < evs.len() implies #[trigger] t[i] == StepKind::Idle by {
            if i > 0 {
                assert(t[i] == t.drop_first()[i - 1]);
            }
        }
    }
}

proof fn lemma_trace(p: Phase, evs: Seq<Event>)
    ensures
        trace(p, evs).len() == evs.len(),
        p == Phase::Closed ==> count(trace(p, evs), StepKind::Register) == 0 && count(
            trace(p, evs),
            StepKind::Unregister,
        ) == 0,
        p == Phase::Open ==> count(trace(p, evs), StepKind::Register) == 0 && (count(
            trace(p, evs),
            StepKind::Unregister,
        ) == if phase_after(p, evs) == Phase::Closed {
            1nat
        } else {
            0nat
        }),
        p == Phase::Connecting ==> {
            let t = trace(p, evs);
            &&& count(t, StepKind::Register) <= 1
            &&& count(t, StepKind::Unregister) <= count(t, StepKind::Register)
            &&& phase_after(p, evs) == Phase::Closed ==> count(t, StepKind::Unregister) == count(
                t,
                StepKind::Register,
            )
        },
        forall|i: int, j: int|
            0 <= i < j < evs.len() && #[trigger] trace(p, evs)[i] == StepKind::Unregister
                ==> #[trigger] trace(p, evs)[j] == StepKind::Idle,
    decreases evs.len(),
{
    if evs.len() == 0 {
        return;
    }
    let e = evs[0];
    let rest = evs.drop_first();
    let p2 = next_phase(p, e);
    lemma_trace(p2, rest);
    let t = trace(p, evs);
    let t2 = trace(p2, rest);
    assert(t.drop_first() =~= t2);
    assert(t[0] == step_kind(p, e));
    if step_kind(p, e) == StepKind::Unregister {
        lemma_closed_idle(rest);
    }
    if p == Phase::Closed {
        lemma_closed_idle(evs);
    }
    if p == Phase::Open && !(e is Text) {
        lemma_closed_idle(rest);
    }
    if p == Phase::Connecting && !(e is Established) {
        lemma_closed_idle(rest);
    }
    assert forall|i: int, j: int|
        0 <= i < j < evs.len() && #[trigger] t[i] == StepKind::Unregister implies #[trigger] t[j]
        == StepKind::Idle by {
        assert(t[j] == t2[j - 1]);
        if i > 0 {
            assert(t[i] == t2[i - 1]);
        } else {
            lemma_closed_idle(rest);
        }
    }
}

/// Over any sequence of events, a connection is registered at most once and
/// unregistered at most once, never registered again once unregistered, and
/// once it has closed it has been unregistered exactly as often as it was
/// registered: whether it ended by a close frame, a transport error or a
/// protocol violation.
pub proof fn lemma_lifecycle(evs: Seq<Event>)
    ensures
        ({
            let t = trace(Phase::Connecting, evs);
            &&& count(t, StepKind::Register) <= 1
            &&& count(t, StepKind::Unregister) <= 1
            &&& phase_after(Phase::Connecting, evs) == Phase::Closed ==> count(
                t,
                StepKind::Unregister,
            ) == count(t, StepKind::Register)
            &&& forall|i: int, j: int|
                0 <= i < j < t.len() && #[trigger] t[i] == StepKind::Unregister ==> #[trigger] t[j]
                    != StepKind::Register
        }),
{
    lemma_trace(Phase::Connecting, evs);
}

/// A connection that is established and then ends, whatever way it ends,
/// after any number of text frames, is registered once and unregistered
/// once.
pub proof fn lemma_lifecycle_ended(texts: Seq<Event>, end: Event)
    requires
        forall|i: int| 0 <= i < texts.len() ==> #[trigger] texts[i] is Text,
        !(end is Text),
    ensures
        ({
            let evs = seq![Event::Established] + texts + seq![end];
            let t = trace(Phase::Connecting, evs);
            &&& count(t, StepKind::Register) == 1
            &&& count(t, StepKind::Unregister) == 1
        }),
{
    let evs = seq![Event::Established] + texts + seq![end];
    lemma_open_texts(texts, end);
    assert(evs.drop_first() =~= texts + seq![end]);
    lemma_trace(Phase::Connecting, evs);
    lemma_lifecycle(evs);
}

proof fn lemma_open_texts(texts: Seq<Event>, end: Event)
    requires
        forall|i: int| 0 <= i < texts.len() ==> #[trigger] texts[i] is Text,
        !(end is Text),
    ensures
        phase_after(Phase::Open, texts + seq![end]) == Phase::Closed,
    decreases texts.len(),
{
    let evs = texts + seq![end];
    if texts.len() == 0 {
        assert(evs[0] == end);
        assert(evs.drop_first() =~= Seq::<Event>::empty());
        assert(next_phase(Phase::Open, end) == Phase::Closed);
        assert(phase_after(Phase::Closed, evs.drop_first()) == Phase::Closed);
    } else {
        assert(evs[0] == texts[0]);
        let rest = texts.drop_first();
        assert(evs.drop_first() =~= rest + seq![end]);
        assert forall|i: int| 0 <= i < rest.len() implies #[trigger] rest[i] is Text by {
            assert(rest[i] == texts[i + 1]);
        }
        lemma_open_texts(rest, end);
        assert(next_phase(Phase::Open, evs[0]) == Phase::Open);
    }
}

} // verus!
