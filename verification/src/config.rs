//! Checking the settings of a node at startup and assembling its two pumps.
//!
//! A node with settings that are out of range or that would make it receive
//! its own transmissions is not started at all.

use crate::chunker::BatchSize;
use crate::chunker::MAX_BATCH;
use crate::router::pair_for;
use crate::router::route_fault;
use crate::router::AddressRouter;
use crate::router::PeerAddress;
use crate::router::RouteError;
use crate::router::Routes;
use crate::router::RoutingMode;
use crate::rx_pump::PollPolicy;
use crate::rx_pump::RxPump;
use crate::rx_pump::RxState;
use crate::rx_pump::BURST_BUDGET;
use crate::rx_pump::IDLE_MICROS;
use crate::tx_pump::TxPump;
use crate::tx_pump::TxState;
use vstd::prelude::*;

verus! {

/// The most retries the radio makes on its own, and the longest delay
/// between them in units of 250 microseconds.
pub const RADIO_LIMIT: u8 = 15;

/// What is wrong with the settings of a node.
#[derive(Clone, Copy, Debug, PartialEq, Eq, Structural)]
pub enum ConfigError {
    /// An identifier is reserved, or the two pairs would collide.
    Route(RouteError),
    /// The MTU is zero or more than the reassembly buffer holds.
    MtuOutOfRange,
    /// More retries than the radio makes.
    RetriesOutOfRange,
    /// A longer retry delay than the radio knows.
    RetryDelayOutOfRange,
    /// A batch of no chunks, or of more than the radio queues.
    BatchOutOfRange,
}

/// The settings of a node.
#[derive(Clone, Copy, Debug, PartialEq, Eq)]
pub struct LinkSettings {
    /// The pipe address that every node's address is derived from.
    pub base: [u8; 5],
    /// This node's identifier.
    pub node: u8,
    /// The identifier of the peer to transmit to at startup.
    pub peer: u8,
    /// Whether the transmit pair follows each datagram's destination.
    pub mode: RoutingMode,
    /// Microseconds to pause after a send; polls in a burst are half that
    /// apart.
    pub delay_micros: u64,
    /// The longest datagram the interface hands over.
    pub mtu: usize,
    /// Bytes in the reassembly buffer.
    pub capacity: usize,
    /// Chunks queued before one send.
    pub per_batch: usize,
    /// Retries the radio makes on its own before it reports a failure.
    pub max_retries: u8,
    /// Delay between those retries, in units of 250 microseconds.
    pub retry_delay: u8,
}

/// How the radio is to be set up at startup.
#[derive(Clone, Copy, Debug, PartialEq, Eq)]
pub struct RadioSetup {
    /// The pair to listen on.
    pub receive: PeerAddress,
    /// The pair to transmit to.
    pub transmit: PeerAddress,
    /// Retries the radio makes on its own before it reports a failure.
    pub max_retries: u8,
    /// Delay between those retries, in units of 250 microseconds.
    pub retry_delay: u8,
}

/// A node ready to run: the radio setup and the two pumps.
#[derive(Debug)]
pub struct Link {
    pub radio: RadioSetup,
    pub rx: RxPump,
    pub tx: TxPump,
}

/// The poll policy that goes with a pause of `delay_micros` after each send.
pub open spec fn policy_for(delay_micros: u64) -> PollPolicy {
    PollPolicy {
        idle_micros: IDLE_MICROS,
        burst_micros: delay_micros / 2,
        burst_budget: BURST_BUDGET,
    }
}

/// The first thing wrong with the settings, if anything is.
pub open spec fn config_fault(settings: LinkSettings) -> Option<ConfigError> {
    if let Some(fault) = route_fault(settings.node, settings.peer) {
        Some(ConfigError::Route(fault))
    } else if settings.mtu == 0 || settings.mtu > settings.capacity {
        Some(ConfigError::MtuOutOfRange)
    } else if settings.per_batch == 0 || settings.per_batch > MAX_BATCH {
        Some(ConfigError::BatchOutOfRange)
    } else if settings.max_retries > RADIO_LIMIT {
        Some(ConfigError::RetriesOutOfRange)
    } else if settings.retry_delay > RADIO_LIMIT {
        Some(ConfigError::RetryDelayOutOfRange)
    } else {
        None
    }
}

/// The routes that the settings ask for.
pub open spec fn routes_for(settings: LinkSettings) -> Routes {
    Routes {
        base: settings.base@,
        local: settings.node,
        target: settings.peer,
        mode: settings.mode,
    }
}

/// The poll policy that goes with a pause of `delay_micros` after each send.
pub fn poll_policy(delay_micros: u64) -> (policy: PollPolicy)
    ensures
        policy == policy_for(delay_micros),
{
    PollPolicy {
        idle_micros: IDLE_MICROS,
        burst_micros: delay_micros / 2,
        burst_budget: BURST_BUDGET,
    }
}

/// Checks the settings and assembles the node.
///
/// Fails with the first fault of the settings; nothing is assembled then.
/// Otherwise the receive pump is idle and empty, the transmit pump points at
/// the peer, and the two pairs of the radio setup differ.
pub fn assemble(settings: &LinkSettings) -> (made: Result<Link, ConfigError>)
    ensures
        match made {
            Ok(link) => {
                &&& config_fault(*settings) is None
                &&& link.radio.receive@ == pair_for(settings.base@, settings.node)
                &&& link.radio.transmit@ == pair_for(settings.base@, settings.peer)
                &&& link.radio.receive@ != link.radio.transmit@
                &&& link.radio.max_retries == settings.max_retries
                &&& link.radio.retry_delay == settings.retry_delay
                &&& link.rx@ == (RxState {
                    policy: policy_for(settings.delay_micros),
                    budget: 0,
                    content: Seq::<u8>::empty(),
                    capacity: settings.capacity as nat,
                })
                &&& link.tx@ == (TxState {
                    routes: routes_for(*settings),
                    per_batch: settings.per_batch as nat,
                    pause_micros: settings.delay_micros,
                })
            },
            Err(fault) => config_fault(*settings) == Some(fault),
        },
{
    let router = match AddressRouter::new(
        settings.base,
        settings.node,
        settings.peer,
        settings.mode,
    ) {
        Ok(router) => router,
        Err(fault) => {
            return Err(ConfigError::Route(fault));
        },
    };
    if settings.mtu == 0 || settings.mtu > settings.capacity {
        return Err(ConfigError::MtuOutOfRange);
    }
    let per_batch = match BatchSize::new(settings.per_batch) {
        Some(per_batch) => per_batch,
        None => {
            return Err(ConfigError::BatchOutOfRange);
        },
    };
    if settings.max_retries > RADIO_LIMIT {
        return Err(ConfigError::RetriesOutOfRange);
    }
    if settings.retry_delay > RADIO_LIMIT {
        return Err(ConfigError::RetryDelayOutOfRange);
    }
    let radio = RadioSetup {
        receive: router.receive(),
        transmit: router.transmit(),
        max_retries: settings.max_retries,
        retry_delay: settings.retry_delay,
    };
    Ok(
        Link {
            radio,
            rx: RxPump::new(poll_policy(settings.delay_micros), settings.capacity),
            tx: TxPump::new(router, per_batch, settings.delay_micros),
        },
    )
}

} // verus!
