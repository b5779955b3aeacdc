//! The receive pump: what to do after each poll of the radio.
//!
//! The pump polls on two tiers. While idle it waits a coarse interval between
//! polls. Once a poll finds data it polls at a short interval, and it goes
//! back to idle after a bounded number of polls in a row that found nothing.
//! The caller sleeps, polls the radio, reads what is there and reports it;
//! the pump reassembles and says what to deliver and how long to sleep next.

use crate::reassembler::drained;
use crate::reassembler::DrainOutcome;
use crate::reassembler::Drained;
use crate::reassembler::Reassembler;
use vstd::prelude::*;

verus! {

/// Microseconds between polls while idle unless configured otherwise.
pub const IDLE_MICROS: u64 = 1000;

/// Empty polls in a row that end a burst unless configured otherwise.
pub const BURST_BUDGET: u32 = 2048;

/// The two poll intervals and the number of empty polls that end a burst.
#[derive(Clone, Copy, Debug, PartialEq, Eq, Structural)]
pub struct PollPolicy {
    pub idle_micros: u64,
    pub burst_micros: u64,
    pub burst_budget: u32,
}

/// The cadence the pump is polling at.
#[derive(Clone, Copy, Debug, PartialEq, Eq, Structural)]
pub enum Tier {
    Idle,
    Burst,
}

/// What a poll of the radio found, over plain values.
pub enum Polled {
    /// No data was available.
    Quiet,
    /// Data was available and these chunks were read, in order.
    Chunks(Seq<Seq<u8>>),
}

/// What a poll of the radio found.
#[derive(Clone, Debug, PartialEq, Eq)]
pub enum RxEvent {
    /// No data was available.
    Quiet,
    /// Data was available and these chunks were read, in order.
    Chunks(Vec<Vec<u8>>),
}

impl View for RxEvent {
    type V = Polled;

    open spec fn view(&self) -> Polled {
        match self {
            RxEvent::Quiet => Polled::Quiet,
            RxEvent::Chunks(chunks) => Polled::Chunks(chunks.deep_view()),
        }
    }
}

/// What the caller does after a poll, over plain values.
pub struct RxStep {
    pub outcome: Drained,
    pub sleep_micros: u64,
}

/// What the caller does after a poll: write the datagram of the outcome, if
/// it holds one, to the interface, then sleep before the next poll.
#[derive(Clone, Debug, PartialEq, Eq)]
pub struct RxAction {
    pub outcome: DrainOutcome,
    pub sleep_micros: u64,
}

impl View for RxAction {
    type V = RxStep;

    open spec fn view(&self) -> RxStep {
        RxStep { outcome: self.outcome@, sleep_micros: self.sleep_micros }
    }
}

/// What the pump holds, over plain values. A budget of zero is the idle
/// tier; in a burst the budget is the number of empty polls still allowed.
pub struct RxState {
    pub policy: PollPolicy,
    pub budget: u32,
    pub content: Seq<u8>,
    pub capacity: nat,
}

impl RxState {
    /// The cadence in this state.
    pub open spec fn tier(self) -> Tier {
        if self.budget == 0 {
            Tier::Idle
        } else {
            Tier::Burst
        }
    }
}

/// The sleep before the next poll with the given budget left.
pub open spec fn pause_for(policy: PollPolicy, budget: u32) -> u64 {
    if budget == 0 {
        policy.idle_micros
    } else {
        policy.burst_micros
    }
}

/// The pump's next state and the caller's next action after a poll.
///
/// An empty poll uses up one unit of the budget and changes nothing else.
/// A poll with data is drained into the buffer; it starts a burst where the
/// pump was idle, and a delivered datagram restores the full budget.
pub open spec fn rx_step(state: RxState, event: Polled) -> (RxState, RxStep) {
    match event {
        Polled::Quiet => {
            let budget = if state.budget > 0 {
                (state.budget - 1) as u32
            } else {
                0
            };
            (
                RxState { budget, ..state },
                RxStep {
                    outcome: Drained::Pending,
                    sleep_micros: pause_for(state.policy, budget),
                },
            )
        },
        Polled::Chunks(chunks) => {
            let (content, outcome) = drained(state.content, state.capacity, chunks);
            let budget = if state.budget == 0 || outcome is Datagram {
                state.policy.burst_budget
            } else {
                state.budget
            };
            (
                RxState { budget, content, ..state },
                RxStep { outcome, sleep_micros: pause_for(state.policy, budget) },
            )
        },
    }
}

/// The state after a number of polls in a row that found nothing.
pub open spec fn rx_quiet(state: RxState, polls: nat) -> RxState
    decreases polls,
{
    if polls == 0 {
        state
    } else {
        rx_step(rx_quiet(state, (polls - 1) as nat), Polled::Quiet).0
    }
}

/// Polls that find nothing only count the budget down: a burst ends after
/// as many of them in a row as its budget allows, and what has accumulated
/// stays.
pub proof fn lemma_quiet_polls_count_down(state: RxState, polls: nat)
    ensures
        rx_quiet(state, polls) == (RxState {
            budget: if polls < state.budget {
                (state.budget - polls) as u32
            } else {
                0
            },
            ..state
        }),
        polls >= state.budget ==> rx_quiet(state, polls).tier() == Tier::Idle,
    decreases polls,
{
    if polls > 0 {
        lemma_quiet_polls_count_down(state, (polls - 1) as nat);
    }
}

/// A poll with data leaves the pump in a burst with its full budget where it
/// was idle or a datagram came out, and never takes from the budget.
pub proof fn lemma_data_keeps_the_burst(state: RxState, chunks: Seq<Seq<u8>>)
    ensures
        rx_step(state, Polled::Chunks(chunks)).0.budget >= state.budget || rx_step(
            state,
            Polled::Chunks(chunks),
        ).0.budget == state.policy.burst_budget,
        rx_step(state, Polled::Chunks(chunks)).1.outcome is Datagram ==> rx_step(
            state,
            Polled::Chunks(chunks),
        ).0.budget == state.policy.burst_budget && rx_step(
            state,
            Polled::Chunks(chunks),
        ).0.content.len() == 0,
        state.budget == 0 ==> rx_step(state, Polled::Chunks(chunks)).0.budget
            == state.policy.burst_budget,
{
}

/// The receive side of the link: the poll cadence and the reassembly buffer.
#[derive(Debug)]
pub struct RxPump {
    policy: PollPolicy,
    budget: u32,
    reassembler: Reassembler,
}

impl View for RxPump {
    type V = RxState;

    closed spec fn view(&self) -> RxState {
        RxState {
            policy: self.policy,
            budget: self.budget,
            content: self.reassembler@,
            capacity: self.reassembler.capacity() as nat,
        }
    }
}

impl RxPump {
    /// An idle pump with an empty buffer of the given capacity.
    pub fn new(policy: PollPolicy, capacity: usize) -> (pump: Self)
        ensures
            pump@ == (RxState {
                policy,
                budget: 0,
                content: Seq::<u8>::empty(),
                capacity: capacity as nat,
            }),
    {
        RxPump { policy, budget: 0, reassembler: Reassembler::new(capacity) }
    }

    /// The cadence the pump is polling at.
    pub fn tier(&self) -> (tier: Tier)
        ensures
            tier == self@.tier(),
    {
        if self.budget == 0 {
            Tier::Idle
        } else {
            Tier::Burst
        }
    }

    /// The number of empty polls still allowed in this burst; zero when idle.
    pub fn budget(&self) -> (budget: u32)
        ensures
            budget == self@.budget,
    {
        self.budget
    }

    /// The number of bytes accumulated towards the next datagram.
    pub fn buffered(&self) -> (len: usize)
        ensures
            len == self@.content.len(),
            len <= self@.capacity,
    {
        self.reassembler.len()
    }

    /// The sleep before the first poll, and before the next one in general.
    pub fn pause(&self) -> (micros: u64)
        ensures
            micros == pause_for(self@.policy, self@.budget),
    {
        if self.budget == 0 {
            self.policy.idle_micros
        } else {
            self.policy.burst_micros
        }
    }

    /// Takes in what a poll found and says what to do before the next one.
    pub fn step(&mut self, event: RxEvent) -> (action: RxAction)
        ensures
            (final(self)@, action@) == rx_step(old(self)@, event@),
    {
        match event {
            RxEvent::Quiet => {
                if self.budget > 0 {
                    self.budget = self.budget - 1;
                }
                RxAction { outcome: DrainOutcome::Pending, sleep_micros: self.pause() }
            },
            RxEvent::Chunks(chunks) => {
                let outcome = self.reassembler.drain(&chunks);
                let delivered = match outcome {
                    DrainOutcome::Datagram(_) => true,
                    _ => false,
                };
                if self.budget == 0 || delivered {
                    self.budget = self.policy.burst_budget;
                }
                let sleep_micros = self.pause();
                RxAction { outcome, sleep_micros }
            },
        }
    }
}

} // verus!
