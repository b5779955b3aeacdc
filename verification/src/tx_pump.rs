//! The transmit pump: what to do with each datagram read from the interface
//! and after each send.
//!
//! A datagram that does not parse is dropped. One that does is cut into
//! batches; the chunks of a batch are queued and sent with one call. A send
//! that fails is repeated once; if that fails too, the output queue is
//! flushed and the rest of the datagram is given up. The caller performs the
//! radio operations and reports how each send ended.

use crate::chunker::batch;
use crate::chunker::batches_of;
use crate::chunker::count_batches;
use crate::chunker::count_chunks;
use crate::chunker::BatchSize;
use crate::datagram::destination_octet;
use crate::datagram::is_ipv4_datagram;
use crate::router::routed;
use crate::router::AddressRouter;
use crate::router::Pair;
use crate::router::PeerAddress;
use crate::router::Routes;
use crate::router::Selection;
use vstd::prelude::*;
use vstd::slice::slice_to_vec;

verus! {

/// Why a datagram was not sent at all.
#[derive(Clone, Copy, Debug, PartialEq, Eq, Structural)]
pub enum TxDrop {
    /// The bytes do not parse as an IPv4 datagram.
    Malformed,
    /// The datagram is addressed to this node itself.
    SelfAddressed,
}

/// How a send ended.
#[derive(Clone, Copy, Debug, PartialEq, Eq, Structural)]
pub enum SendReport {
    /// Every queued chunk was acknowledged.
    Sent,
    /// The radio gave up after its own retries.
    Unreachable,
}

/// What the caller does next, over plain values.
pub enum TxStep {
    /// Sleep, set the radio to the pair if there is one, queue the chunks in
    /// order, then send once.
    Transmit { pause_micros: u64, retune: Option<Pair>, chunks: Seq<Seq<u8>> },
    /// Send once more without queueing anything.
    Resend,
    /// Flush the output queue; the datagram is given up.
    Abandon,
    /// Sleep; the datagram is done with.
    Finish { pause_micros: u64 },
}

/// What the caller does next.
#[derive(Clone, Debug, PartialEq, Eq)]
pub enum TxAction {
    /// Sleep, set the radio to the pair if there is one, queue the chunks in
    /// order, then send once.
    Transmit { pause_micros: u64, retune: Option<PeerAddress>, chunks: Vec<Vec<u8>> },
    /// Send once more without queueing anything.
    Resend,
    /// Flush the output queue; the datagram is given up.
    Abandon,
    /// Sleep; the datagram is done with.
    Finish { pause_micros: u64 },
}

/// An optional address over plain values.
pub open spec fn pair_of(address: Option<PeerAddress>) -> Option<Pair> {
    match address {
        Some(a) => Some(a@),
        None => None,
    }
}

impl View for TxAction {
    type V = TxStep;

    open spec fn view(&self) -> TxStep {
        match self {
            TxAction::Transmit { pause_micros, retune, chunks } => TxStep::Transmit {
                pause_micros: *pause_micros,
                retune: pair_of(*retune),
                chunks: chunks.deep_view(),
            },
            TxAction::Resend => TxStep::Resend,
            TxAction::Abandon => TxStep::Abandon,
            TxAction::Finish { pause_micros } => TxStep::Finish { pause_micros: *pause_micros },
        }
    }
}

/// One datagram on its way out, over plain values. Batch `next` is the one
/// whose send is awaited; the flight is closed once `next` is past the last
/// batch.
pub struct Flight {
    pub datagram: Seq<u8>,
    pub per_batch: nat,
    pub pause_micros: u64,
    pub retune: Option<Pair>,
    pub next: nat,
    pub retried: bool,
}

impl Flight {
    /// The batches of the datagram.
    pub open spec fn batches(self) -> Seq<Seq<Seq<u8>>> {
        batches_of(self.datagram, self.per_batch)
    }

    /// No send is awaited any more.
    pub open spec fn closed(self) -> bool {
        self.next >= self.batches().len()
    }

    /// The same flight with no send awaited any more.
    pub open spec fn close(self) -> Flight {
        Flight { next: self.batches().len(), retried: false, ..self }
    }
}

/// The action that opens a flight: the first batch, sent at once, after the
/// radio has been set to a new pair where the router asked for one.
pub open spec fn tx_open(flight: Flight) -> TxStep {
    if flight.batches().len() > 0 {
        TxStep::Transmit { pause_micros: 0, retune: flight.retune, chunks: flight.batches()[0] }
    } else {
        TxStep::Finish { pause_micros: 0 }
    }
}

/// The flight and the caller's next action after a send has ended.
///
/// A send that went through is followed, after the pause, by the next batch
/// or by the end of the flight. A first failure is answered by one resend, a
/// second by giving the datagram up. A closed flight asks for nothing.
pub open spec fn tx_step(flight: Flight, report: SendReport) -> (Flight, TxStep) {
    if flight.closed() {
        (flight, TxStep::Finish { pause_micros: 0 })
    } else {
        match report {
            SendReport::Sent => {
                if flight.next + 1 < flight.batches().len() {
                    (
                        Flight { next: flight.next + 1, retried: false, ..flight },
                        TxStep::Transmit {
                            pause_micros: flight.pause_micros,
                            retune: None,
                            chunks: flight.batches()[flight.next + 1 as int],
                        },
                    )
                } else {
                    (flight.close(), TxStep::Finish { pause_micros: flight.pause_micros })
                }
            },
            SendReport::Unreachable => {
                if !flight.retried {
                    (Flight { retried: true, ..flight }, TxStep::Resend)
                } else {
                    (flight.close(), TxStep::Abandon)
                }
            },
        }
    }
}

/// The flight after a run of reports, and the actions they were answered
/// with.
pub open spec fn tx_run(flight: Flight, reports: Seq<SendReport>) -> (Flight, Seq<TxStep>)
    decreases reports.len(),
{
    if reports.len() == 0 {
        (flight, Seq::empty())
    } else {
        let (before, steps) = tx_run(flight, reports.drop_last());
        let (after, step) = tx_step(before, reports.last());
        (after, steps.push(step))
    }
}

/// What the pump holds, over plain values.
pub struct TxState {
    pub routes: Routes,
    pub per_batch: nat,
    pub pause_micros: u64,
}

/// The pump after a datagram was read, and the flight it starts or the
/// reason it is dropped.
///
/// Bytes that are not an IPv4 datagram are dropped. Otherwise the router is
/// pointed at the last octet of the destination address; a datagram for this
/// node itself is dropped, any other starts a flight.
pub open spec fn tx_accept(state: TxState, bytes: Seq<u8>) -> (TxState, Result<Flight, TxDrop>) {
    if !is_ipv4_datagram(bytes) {
        (state, Err(TxDrop::Malformed))
    } else {
        let (routes, selection) = routed(state.routes, bytes[19]);
        let flight = Flight {
            datagram: bytes,
            per_batch: state.per_batch,
            pause_micros: state.pause_micros,
            retune: None,
            next: 0,
            retried: false,
        };
        match selection {
            Selection::Refuse => (state, Err(TxDrop::SelfAddressed)),
            Selection::Keep => (state, Ok(flight)),
            Selection::Retune(pair) => (
                TxState { routes, ..state },
                Ok(Flight { retune: Some(pair), ..flight }),
            ),
        }
    }
}

/// A run of sends that all went through.
pub open spec fn all_sent(sends: nat) -> Seq<SendReport> {
    Seq::new(sends, |i: int| SendReport::Sent)
}

/// The action that answers send `i` of a flight on which every send goes
/// through: the next batch after the pause, then the end of the flight.
pub open spec fn clean_step(flight: Flight, i: int) -> TxStep {
    if i + 1 < flight.batches().len() {
        TxStep::Transmit {
            pause_micros: flight.pause_micros,
            retune: None,
            chunks: flight.batches()[i + 1],
        }
    } else if i + 1 == flight.batches().len() {
        TxStep::Finish { pause_micros: flight.pause_micros }
    } else {
        TxStep::Finish { pause_micros: 0 }
    }
}

/// A flight on which every send goes through: the batches go out in order,
/// each after the pause, and the send of the last one ends the flight.
pub proof fn lemma_clean_run(flight: Flight, sends: nat)
    requires
        flight.next == 0,
        !flight.retried,
    ensures
        tx_run(flight, all_sent(sends)).1.len() == sends,
        tx_run(flight, all_sent(sends)).0 == (Flight {
            next: if sends < flight.batches().len() {
                sends
            } else {
                flight.batches().len()
            },
            ..flight
        }),
        forall|i: int|
            0 <= i < sends ==> #[trigger] tx_run(flight, all_sent(sends)).1[i] == clean_step(
                flight,
                i,
            ),
    decreases sends,
{
    if sends > 0 {
        let shorter = all_sent((sends - 1) as nat);
        lemma_clean_run(flight, (sends - 1) as nat);
        assert(all_sent(sends).drop_last() =~= shorter);
        assert(tx_run(flight, shorter).0.batches() == flight.batches());
    }
}

/// Two failed sends in a row for the batch in flight: the first is answered
/// by a resend and nothing else, the second by one flush of the output
/// queue, and the flight is closed, so that no later batch of the datagram
/// is sent.
pub proof fn lemma_two_failures_abandon(flight: Flight)
    requires
        !flight.closed(),
        !flight.retried,
    ensures
        tx_step(flight, SendReport::Unreachable).1 == TxStep::Resend,
        tx_step(tx_step(flight, SendReport::Unreachable).0, SendReport::Unreachable).1
            == TxStep::Abandon,
        tx_step(tx_step(flight, SendReport::Unreachable).0, SendReport::Unreachable).0.closed(),
{
}

/// A closed flight stays closed, and every report to it is answered by an
/// action that queues, sends and flushes nothing.
pub proof fn lemma_closed_stays_closed(flight: Flight, reports: Seq<SendReport>)
    requires
        flight.closed(),
    ensures
        tx_run(flight, reports).0 == flight,
        tx_run(flight, reports).1.len() == reports.len(),
        forall|i: int|
            0 <= i < reports.len() ==> (#[trigger] tx_run(flight, reports).1[i]) == (
            TxStep::Finish { pause_micros: 0 }),
    decreases reports.len(),
{
    if reports.len() > 0 {
        lemma_closed_stays_closed(flight, reports.drop_last());
    }
}

/// In any run of reports the output queue is flushed at most once, and
/// nothing is queued or sent after it was.
pub proof fn lemma_abandon_is_final(flight: Flight, reports: Seq<SendReport>, i: int, j: int)
    requires
        0 <= i < j < reports.len(),
        tx_run(flight, reports).1[i] == TxStep::Abandon,
    ensures
        tx_run(flight, reports).1[j] == (TxStep::Finish { pause_micros: 0 }),
    decreases reports.len(),
{
    lemma_run_len(flight, reports);
    if j < reports.len() - 1 {
        lemma_run_len(flight, reports.drop_last());
        lemma_abandon_is_final(flight, reports.drop_last(), i, j);
    } else {
        lemma_run_prefix(flight, reports, j);
        lemma_closed_after_abandon(flight, reports.take(j), i);
        assert(reports.drop_last() =~= reports.take(j));
    }
}

/// A run answers every report with one action.
pub proof fn lemma_run_len(flight: Flight, reports: Seq<SendReport>)
    ensures
        tx_run(flight, reports).1.len() == reports.len(),
    decreases reports.len(),
{
    if reports.len() > 0 {
        lemma_run_len(flight, reports.drop_last());
    }
}

/// The actions of a run begin with the actions of each shorter run.
pub proof fn lemma_run_prefix(flight: Flight, reports: Seq<SendReport>, k: int)
    requires
        0 <= k <= reports.len(),
    ensures
        tx_run(flight, reports.take(k)).1 == tx_run(flight, reports).1.take(k),
    decreases reports.len(),
{
    lemma_run_len(flight, reports);
    if k == reports.len() {
        assert(reports.take(k) =~= reports);
        assert(tx_run(flight, reports).1.take(k) =~= tx_run(flight, reports).1);
    } else {
        lemma_run_len(flight, reports.drop_last());
        lemma_run_prefix(flight, reports.drop_last(), k);
        assert(reports.drop_last().take(k) =~= reports.take(k));
        assert(tx_run(flight, reports).1.take(k) =~= tx_run(flight, reports.drop_last()).1.take(
            k,
        ));
    }
}

/// Once a run has answered with a flush, the flight is closed.
pub proof fn lemma_closed_after_abandon(flight: Flight, reports: Seq<SendReport>, i: int)
    requires
        0 <= i < reports.len(),
        tx_run(flight, reports).1[i] == TxStep::Abandon,
    ensures
        tx_run(flight, reports).0.closed(),
    decreases reports.len(),
{
    lemma_run_len(flight, reports);
    lemma_run_len(flight, reports.drop_last());
    if i < reports.len() - 1 {
        lemma_closed_after_abandon(flight, reports.drop_last(), i);
    }
}

/// One datagram on its way out.
#[derive(Debug)]
pub struct Transmission {
    datagram: Vec<u8>,
    per_batch: BatchSize,
    total: usize,
    pause_micros: u64,
    retune: Option<PeerAddress>,
    next: usize,
    retried: bool,
}

impl View for Transmission {
    type V = Flight;

    closed spec fn view(&self) -> Flight {
        Flight {
            datagram: self.datagram@,
            per_batch: self.per_batch@,
            pause_micros: self.pause_micros,
            retune: pair_of(self.retune),
            next: self.next as nat,
            retried: self.retried,
        }
    }
}

impl Transmission {
    #[verifier::type_invariant]
    spec fn counted(self) -> bool {
        &&& self.total == batches_of(self.datagram@, self.per_batch@).len()
        &&& self.next <= self.total
    }

    /// Whether everything was sent or the datagram was given up.
    pub fn is_closed(&self) -> (closed: bool)
        ensures
            closed == self@.closed(),
    {
        proof {
            use_type_invariant(self);
        }
        self.next >= self.total
    }

    /// The number of batches the datagram is sent in.
    pub fn batch_total(&self) -> (total: usize)
        ensures
            total == self@.batches().len(),
    {
        proof {
            use_type_invariant(self);
        }
        self.total
    }

    /// The action that opens the flight.
    pub fn open(&self) -> (action: TxAction)
        ensures
            action@ == tx_open(self@),
    {
        proof {
            use_type_invariant(self);
        }
        match batch(self.datagram.as_slice(), self.per_batch, 0) {
            Some(chunks) => TxAction::Transmit { pause_micros: 0, retune: self.retune, chunks },
            None => TxAction::Finish { pause_micros: 0 },
        }
    }

    /// Takes in how the awaited send ended and says what to do next.
    pub fn step(&mut self, report: SendReport) -> (action: TxAction)
        ensures
            (final(self)@, action@) == tx_step(old(self)@, report),
    {
        proof {
            use_type_invariant(&*self);
        }
        if self.next >= self.total {
            return TxAction::Finish { pause_micros: 0 };
        }
        match report {
            SendReport::Sent => {
                self.retried = false;
                self.next = self.next + 1;
                match batch(self.datagram.as_slice(), self.per_batch, self.next) {
                    Some(chunks) => TxAction::Transmit {
                        pause_micros: self.pause_micros,
                        retune: None,
                        chunks,
                    },
                    None => TxAction::Finish { pause_micros: self.pause_micros },
                }
            },
            SendReport::Unreachable => {
                if !self.retried {
                    self.retried = true;
                    TxAction::Resend
                } else {
                    self.retried = false;
                    self.next = self.total;
                    TxAction::Abandon
                }
            },
        }
    }
}

/// The transmit side of the link: the router and the batching settings.
#[derive(Debug)]
pub struct TxPump {
    router: AddressRouter,
    per_batch: BatchSize,
    pause_micros: u64,
}

impl View for TxPump {
    type V = TxState;

    closed spec fn view(&self) -> TxState {
        TxState {
            routes: self.router@,
            per_batch: self.per_batch@,
            pause_micros: self.pause_micros,
        }
    }
}

impl TxPump {
    /// A pump that sends `per_batch` chunks with each send and pauses
    /// `pause_micros` after every send that went through.
    pub fn new(router: AddressRouter, per_batch: BatchSize, pause_micros: u64) -> (pump: Self)
        ensures
            pump@ == (TxState { routes: router@, per_batch: per_batch@, pause_micros }),
    {
        TxPump { router, per_batch, pause_micros }
    }

    /// The pair the radio is set to transmit to.
    pub fn transmit(&self) -> (address: PeerAddress)
        ensures
            address@ == self@.routes.transmit(),
            address@ != self@.routes.receive(),
    {
        self.router.transmit()
    }

    /// The pair this node listens on.
    pub fn receive(&self) -> (address: PeerAddress)
        ensures
            address@ == self@.routes.receive(),
            address@ != self@.routes.transmit(),
    {
        self.router.receive()
    }

    /// Takes in the bytes of one read from the interface.
    ///
    /// Returns the flight of the datagram, or the reason why nothing is to
    /// be queued or sent for these bytes.
    pub fn accept(&mut self, bytes: &[u8]) -> (started: Result<Transmission, TxDrop>)
        ensures
            final(self)@ == tx_accept(old(self)@, bytes@).0,
            final(self)@.routes.receive() != final(self)@.routes.transmit(),
            match tx_accept(old(self)@, bytes@).1 {
                Ok(flight) => started matches Ok(transmission) && transmission@ == flight,
                Err(reason) => started == Err::<Transmission, TxDrop>(reason),
            },
    {
        self.router.pairs_apart();
        let octet = match destination_octet(bytes) {
            Some(octet) => octet,
            None => {
                return Err(TxDrop::Malformed);
            },
        };
        let retune = match self.router.select(octet) {
            Ok(retune) => retune,
            Err(_) => {
                return Err(TxDrop::SelfAddressed);
            },
        };
        let total = count_batches(count_chunks(bytes.len()), self.per_batch);
        Ok(
            Transmission {
                datagram: slice_to_vec(bytes),
                per_batch: self.per_batch,
                total,
                pause_micros: self.pause_micros,
                retune,
                next: 0,
                retried: false,
            },
        )
    }
}

} // verus!
