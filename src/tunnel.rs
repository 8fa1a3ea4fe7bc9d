//! The byte relay of a `CONNECT` tunnel, as a state machine: the caller reads from both
//! ends, hands over what it read as events, and performs the writes that come back.

use vstd::prelude::*;

verus! {

/// What happened on one of the two connections.
pub enum RelayEvent {
    /// The client sent these bytes.
    FromClient(Vec<u8>),
    /// The upstream server sent these bytes.
    FromUpstream(Vec<u8>),
    /// The client reached end of stream.
    ClientClosed,
    /// The upstream server reached end of stream.
    UpstreamClosed,
    /// Reading or writing on either connection failed.
    Failed,
}

/// What the caller does next.
pub enum RelayAction {
    /// Write these bytes to the upstream server.
    ToUpstream(Vec<u8>),
    /// Write these bytes to the client.
    ToClient(Vec<u8>),
    /// Close both connections: the tunnel is over.
    Close,
}

/// An event, with its bytes as a sequence.
pub enum RelayEventView {
    FromClient(Seq<u8>),
    FromUpstream(Seq<u8>),
    ClientClosed,
    UpstreamClosed,
    Failed,
}

/// An action, with its bytes as a sequence.
pub enum RelayActionView {
    ToUpstream(Seq<u8>),
    ToClient(Seq<u8>),
    Close,
}

impl View for RelayEvent {
    type V = RelayEventView;

    open spec fn view(&self) -> RelayEventView {
        match self {
            RelayEvent::FromClient(b) => RelayEventView::FromClient(b@),
            RelayEvent::FromUpstream(b) => RelayEventView::FromUpstream(b@),
            RelayEvent::ClientClosed => RelayEventView::ClientClosed,
            RelayEvent::UpstreamClosed => RelayEventView::UpstreamClosed,
            RelayEvent::Failed => RelayEventView::Failed,
        }
    }
}

impl View for RelayAction {
    type V = RelayActionView;

    open spec fn view(&self) -> RelayActionView {
        match self {
            RelayAction::ToUpstream(b) => RelayActionView::ToUpstream(b@),
            RelayAction::ToClient(b) => RelayActionView::ToClient(b@),
            RelayAction::Close => RelayActionView::Close,
        }
    }
}

/// One step of the relay: while open, bytes pass through unchanged to the other end;
/// an end of stream or a failure on either side closes the tunnel for good.
pub open spec fn relay_step(open: bool, event: RelayEventView) -> (bool, RelayActionView) {
    if !open {
        (false, RelayActionView::Close)
    } else {
        match event {
            RelayEventView::FromClient(b) => (true, RelayActionView::ToUpstream(b)),
            RelayEventView::FromUpstream(b) => (true, RelayActionView::ToClient(b)),
            _ => (false, RelayActionView::Close),
        }
    }
}

/// The actions for a run of events.
pub open spec fn relay_run(open: bool, events: Seq<RelayEventView>) -> Seq<RelayActionView>
    decreases events.len(),
{
    if events.len() == 0 {
        Seq::empty()
    } else {
        let (next, action) = relay_step(open, events[0]);
        seq![action] + relay_run(next, events.skip(1))
    }
}

/// The bytes written to the upstream server by a run of actions, in order.
pub open spec fn upstream_writes(actions: Seq<RelayActionView>) -> Seq<u8>
    decreases actions.len(),
{
    if actions.len() == 0 {
        Seq::empty()
    } else {
        let rest = upstream_writes(actions.skip(1));
        match actions[0] {
            RelayActionView::ToUpstream(b) => b + rest,
            _ => rest,
        }
    }
}

/// The bytes written to the client by a run of actions, in order.
pub open spec fn client_writes(actions: Seq<RelayActionView>) -> Seq<u8>
    decreases actions.len(),
{
    if actions.len() == 0 {
        Seq::empty()
    } else {
        let rest = client_writes(actions.skip(1));
        match actions[0] {
            RelayActionView::ToClient(b) => b + rest,
            _ => rest,
        }
    }
}

/// Whether an event ends the tunnel.
pub open spec fn is_closing(event: RelayEventView) -> bool {
    !(event is FromClient || event is FromUpstream)
}

/// The bytes the client sent before the tunnel closed, in order.
pub open spec fn client_stream(events: Seq<RelayEventView>) -> Seq<u8>
    decreases events.len(),
{
    if events.len() == 0 {
        Seq::empty()
    } else {
        match events[0] {
            RelayEventView::FromClient(b) => b + client_stream(events.skip(1)),
            RelayEventView::FromUpstream(_) => client_stream(events.skip(1)),
            _ => Seq::empty(),
        }
    }
}

/// The bytes the upstream server sent before the tunnel closed, in order.
pub open spec fn upstream_stream(events: Seq<RelayEventView>) -> Seq<u8>
    decreases events.len(),
{
    if events.len() == 0 {
        Seq::empty()
    } else {
        match events[0] {
            RelayEventView::FromUpstream(b) => b + upstream_stream(events.skip(1)),
            RelayEventView::FromClient(_) => upstream_stream(events.skip(1)),
            _ => Seq::empty(),
        }
    }
}

proof fn lemma_closed_run(events: Seq<RelayEventView>)
    ensures
        forall|j: int| 0 <= j < events.len() ==> #[trigger] relay_run(false, events)[j]
            == RelayActionView::Close,
        relay_run(false, events).len() == events.len(),
        upstream_writes(relay_run(false, events)) == Seq::<u8>::empty(),
        client_writes(relay_run(false, events)) == Seq::<u8>::empty(),
    decreases events.len(),
{
    if events.len() > 0 {
        let run = relay_run(false, events);
        lemma_closed_run(events.skip(1));
        assert(run.skip(1) =~= relay_run(false, events.skip(1)));
        assert forall|j: int| 0 <= j < events.len() implies #[trigger] run[j]
            == RelayActionView::Close by {
            if j > 0 {
                assert(run[j] == run.skip(1)[j - 1]);
            }
        }
    }
}

/// Byte exactness of a tunnel: the bytes written upstream are exactly those the client
/// sent, in order, up to the event that closed the tunnel; likewise the bytes written to
/// the client are exactly those the upstream server sent.
pub proof fn lemma_relay_exact(events: Seq<RelayEventView>)
    ensures
        upstream_writes(relay_run(true, events)) == client_stream(events),
        client_writes(relay_run(true, events)) == upstream_stream(events),
    decreases events.len(),
{
    if events.len() > 0 {
        let run = relay_run(true, events);
        let (next, action) = relay_step(true, events[0]);
        assert(run.skip(1) =~= relay_run(next, events.skip(1)));
        assert(run[0] == action);
        if next {
            lemma_relay_exact(events.skip(1));
        } else {
            lemma_closed_run(events.skip(1));
        }
    }
}

/// Once either end closes or fails, the tunnel writes nothing more: every later action
/// is to close.
pub proof fn lemma_relay_stops(events: Seq<RelayEventView>, k: int)
    requires
        0 <= k < events.len(),
        is_closing(events[k]),
    ensures
        relay_run(true, events).len() == events.len(),
        forall|j: int| k <= j < events.len() ==> #[trigger] relay_run(true, events)[j]
            == RelayActionView::Close,
    decreases events.len(),
{
    let run = relay_run(true, events);
    let (next, action) = relay_step(true, events[0]);
    assert(run.skip(1) =~= relay_run(next, events.skip(1)));
    if k == 0 {
        lemma_closed_run(events.skip(1));
        assert forall|j: int| k <= j < events.len() implies #[trigger] run[j]
            == RelayActionView::Close by {
            if j > 0 {
                assert(run[j] == run.skip(1)[j - 1]);
            }
        }
    } else if next {
        lemma_relay_stops(events.skip(1), k - 1);
        assert forall|j: int| k <= j < events.len() implies #[trigger] run[j]
            == RelayActionView::Close by {
            assert(run[j] == run.skip(1)[j - 1]);
        }
    } else {
        lemma_closed_run(events.skip(1));
        assert forall|j: int| k <= j < events.len() implies #[trigger] run[j]
            == RelayActionView::Close by {
            assert(run[j] == run.skip(1)[j - 1]);
        }
    }
}

/// One `CONNECT` tunnel: whether it is still open, and how many bytes each side sent
/// through it (saturating at the largest `u64`).
pub struct Tunnel {
    open: bool,
    from_client: u64,
    from_upstream: u64,
}

/// `a + b`, or the largest `u64` where that does not fit.
pub open spec fn saturating_sum(a: u64, b: nat) -> u64 {
    if a + b > u64::MAX {
        u64::MAX
    } else {
        (a + b) as u64
    }
}

impl Tunnel {
    /// A tunnel that has just been opened.
    pub fn new() -> (r: Self)
        ensures
            r.is_open(),
            r.client_bytes() == 0,
            r.upstream_bytes() == 0,
    {
        Tunnel { open: true, from_client: 0, from_upstream: 0 }
    }

    pub closed spec fn is_open(&self) -> bool {
        self.open
    }

    pub closed spec fn client_bytes(&self) -> u64 {
        self.from_client
    }

    pub closed spec fn upstream_bytes(&self) -> u64 {
        self.from_upstream
    }

    /// Whether the tunnel is still open.
    pub fn open(&self) -> (r: bool)
        ensures
            r == self.is_open(),
    {
        self.open
    }

    /// The number of bytes the client sent through the tunnel.
    pub fn from_client(&self) -> (r: u64)
        ensures
            r == self.client_bytes(),
    {
        self.from_client
    }

    /// The number of bytes the upstream server sent through the tunnel.
    pub fn from_upstream(&self) -> (r: u64)
        ensures
            r == self.upstream_bytes(),
    {
        self.from_upstream
    }

    /// Takes in one event and says what to do.
    pub fn step(&mut self, event: RelayEvent) -> (r: RelayAction)
        ensures
            (final(self).is_open(), r@) == relay_step(old(self).is_open(), event@),
            final(self).client_bytes() == match (old(self).is_open(), event@) {
                (true, RelayEventView::FromClient(b)) => saturating_sum(
                    old(self).client_bytes(),
                    b.len(),
                ),
                _ => old(self).client_bytes(),
            },
            final(self).upstream_bytes() == match (old(self).is_open(), event@) {
                (true, RelayEventView::FromUpstream(b)) => saturating_sum(
                    old(self).upstream_bytes(),
                    b.len(),
                ),
                _ => old(self).upstream_bytes(),
            },
    {
        if !self.open {
            return RelayAction::Close;
        }
        match event {
            RelayEvent::FromClient(bytes) => {
                self.from_client = self.from_client.saturating_add(bytes.len() as u64);
                RelayAction::ToUpstream(bytes)
            },
            RelayEvent::FromUpstream(bytes) => {
                self.from_upstream = self.from_upstream.saturating_add(bytes.len() as u64);
                RelayAction::ToClient(bytes)
            },
            _ => {
                self.open = false;
                RelayAction::Close
            },
        }
    }
}

} // verus!
