//! Choosing the radio pipe address and channel for this node and for the peer
//! it transmits to.
//!
//! A node with identifier `n` listens on the base pipe address with its last
//! byte replaced by `n`, on channel `n` (channels stop at 125). The transmit
//! pair is derived in the same way from the peer's identifier or, when the
//! router follows destinations, from the last octet of each outgoing
//! datagram's destination address. The two pairs of a router always differ.

use vstd::prelude::*;

verus! {

/// Bytes in a radio pipe address.
pub const PIPE_LEN: usize = 5;

/// The highest radio channel.
pub const MAX_CHANNEL: u8 = 125;

/// The lowest node identifier; 0 is reserved.
pub const NODE_MIN: u8 = 1;

/// The highest node identifier; 255 is reserved.
pub const NODE_MAX: u8 = 254;

/// Why a router could not be made or a destination could not be routed.
#[derive(Clone, Copy, Debug, PartialEq, Eq, Structural)]
pub enum RouteError {
    /// This node's identifier is 0 or 255.
    NodeOutOfRange,
    /// The peer's identifier is 0 or 255.
    PeerOutOfRange,
    /// The transmit pair would equal the receive pair.
    AddressCollision,
}

/// Whether the transmit pair stays as configured or follows each datagram.
#[derive(Clone, Copy, Debug, PartialEq, Eq, Structural)]
pub enum RoutingMode {
    /// Point to point: the transmit pair is fixed at startup.
    FixedPeer,
    /// Several peers: the transmit pair follows the destination octet.
    PerDestination,
}

/// A pipe address and a channel, over plain values.
pub struct Pair {
    pub pipe: Seq<u8>,
    pub channel: u8,
}

/// A pipe address and a channel.
#[derive(Clone, Copy, Debug, PartialEq, Eq)]
pub struct PeerAddress {
    pub pipe: [u8; 5],
    pub channel: u8,
}

impl View for PeerAddress {
    type V = Pair;

    open spec fn view(&self) -> Pair {
        Pair { pipe: self.pipe@, channel: self.channel }
    }
}

/// An identifier that a node may have.
pub open spec fn is_node(id: u8) -> bool {
    NODE_MIN <= id <= NODE_MAX
}

/// The channel for an octet: the octet itself, held to the highest channel.
pub open spec fn channel_for(octet: u8) -> u8 {
    if octet > MAX_CHANNEL {
        MAX_CHANNEL
    } else {
        octet
    }
}

/// The pair for an octet: the base pipe with its last byte replaced, and
/// the octet's channel.
pub open spec fn pair_for(base: Seq<u8>, octet: u8) -> Pair {
    Pair { pipe: base.update(PIPE_LEN - 1, octet), channel: channel_for(octet) }
}

/// What a router holds, over plain values.
pub struct Routes {
    pub base: Seq<u8>,
    pub local: u8,
    pub target: u8,
    pub mode: RoutingMode,
}

impl Routes {
    /// The pair this node listens on.
    pub open spec fn receive(self) -> Pair {
        pair_for(self.base, self.local)
    }

    /// The pair this node transmits to.
    pub open spec fn transmit(self) -> Pair {
        pair_for(self.base, self.target)
    }
}

/// What stands in the way of a router for `node` and `peer`, if anything.
pub open spec fn route_fault(node: u8, peer: u8) -> Option<RouteError> {
    if !is_node(node) {
        Some(RouteError::NodeOutOfRange)
    } else if !is_node(peer) {
        Some(RouteError::PeerOutOfRange)
    } else if node == peer {
        Some(RouteError::AddressCollision)
    } else {
        None
    }
}

/// What selecting a destination octet does.
pub enum Selection {
    /// The radio is already set for this destination, or the peer is fixed.
    Keep,
    /// The radio has to be set to this pair before sending.
    Retune(Pair),
    /// The destination is this node itself; nothing may be sent.
    Refuse,
}

/// The routes after a datagram for `octet`, and what the radio has to do.
///
/// A fixed peer is never changed. Otherwise the transmit pair follows the
/// octet, unless it is already there or the octet is this node's own.
pub open spec fn routed(routes: Routes, octet: u8) -> (Routes, Selection) {
    if routes.mode == RoutingMode::FixedPeer || octet == routes.target {
        (routes, Selection::Keep)
    } else if octet == routes.local {
        (routes, Selection::Refuse)
    } else {
        (
            Routes { target: octet, ..routes },
            Selection::Retune(pair_for(routes.base, octet)),
        )
    }
}

/// The receive and transmit pairs of one node.
#[derive(Debug)]
pub struct AddressRouter {
    base: [u8; 5],
    local: u8,
    target: u8,
    mode: RoutingMode,
}

impl View for AddressRouter {
    type V = Routes;

    closed spec fn view(&self) -> Routes {
        Routes { base: self.base@, local: self.local, target: self.target, mode: self.mode }
    }
}

/// Two octets give the same pair exactly when they are the same octet.
pub proof fn lemma_pairs_differ(base: Seq<u8>, a: u8, b: u8)
    requires
        base.len() == PIPE_LEN,
    ensures
        pair_for(base, a) == pair_for(base, b) <==> a == b,
{
    if pair_for(base, a) == pair_for(base, b) {
        assert(base.update(PIPE_LEN - 1, a)[PIPE_LEN - 1] == a);
        assert(base.update(PIPE_LEN - 1, b)[PIPE_LEN - 1] == b);
    }
}

/// Selecting a destination never makes the transmit pair equal to the
/// receive pair.
pub proof fn lemma_selection_keeps_pairs_apart(routes: Routes, octet: u8)
    requires
        routes.base.len() == PIPE_LEN,
        routes.receive() != routes.transmit(),
    ensures
        routed(routes, octet).0.receive() != routed(routes, octet).0.transmit(),
        routed(routes, octet).0.receive() == routes.receive(),
        routed(routes, octet).1 matches Selection::Retune(pair) ==> pair != routes.receive()
            && pair == routed(routes, octet).0.transmit(),
{
    lemma_pairs_differ(routes.base, routes.local, octet);
}

fn derive(base: &[u8; 5], octet: u8) -> (address: PeerAddress)
    ensures
        address@ == pair_for(base@, octet),
{
    let mut pipe = *base;
    pipe[PIPE_LEN - 1] = octet;
    let channel = if octet > MAX_CHANNEL {
        MAX_CHANNEL
    } else {
        octet
    };
    assert(pipe@ =~= base@.update(PIPE_LEN - 1, octet));
    PeerAddress { pipe, channel }
}

impl AddressRouter {
    #[verifier::type_invariant]
    spec fn apart(self) -> bool {
        self.local != self.target
    }

    /// A router for the node `node` that transmits to `peer`.
    ///
    /// Fails where an identifier is reserved or where both are the same,
    /// which would make the node receive what it sends.
    pub fn new(base: [u8; 5], node: u8, peer: u8, mode: RoutingMode) -> (made: Result<
        Self,
        RouteError,
    >)
        ensures
            match made {
                Ok(router) => {
                    &&& route_fault(node, peer) is None
                    &&& router@ == (Routes { base: base@, local: node, target: peer, mode })
                    &&& router@.receive() != router@.transmit()
                },
                Err(fault) => route_fault(node, peer) == Some(fault),
            },
    {
        if node < NODE_MIN || node > NODE_MAX {
            return Err(RouteError::NodeOutOfRange);
        }
        if peer < NODE_MIN || peer > NODE_MAX {
            return Err(RouteError::PeerOutOfRange);
        }
        if node == peer {
            return Err(RouteError::AddressCollision);
        }
        proof {
            lemma_pairs_differ(base@, node, peer);
        }
        Ok(AddressRouter { base, local: node, target: peer, mode })
    }

    /// Makes known to the caller's proof that the two pairs differ. Does
    /// nothing when run.
    pub fn pairs_apart(&self)
        ensures
            self@.receive() != self@.transmit(),
            self@.base.len() == PIPE_LEN,
    {
        proof {
            use_type_invariant(self);
            lemma_pairs_differ(self.base@, self.local, self.target);
        }
    }

    /// The pair this node listens on.
    pub fn receive(&self) -> (address: PeerAddress)
        ensures
            address@ == self@.receive(),
            address@ != self@.transmit(),
    {
        proof {
            use_type_invariant(self);
            lemma_pairs_differ(self.base@, self.local, self.target);
        }
        derive(&self.base, self.local)
    }

    /// The pair this node transmits to.
    pub fn transmit(&self) -> (address: PeerAddress)
        ensures
            address@ == self@.transmit(),
            address@ != self@.receive(),
    {
        proof {
            use_type_invariant(self);
            lemma_pairs_differ(self.base@, self.local, self.target);
        }
        derive(&self.base, self.target)
    }

    /// Whether the transmit pair stays as configured or follows each datagram.
    pub fn mode(&self) -> (mode: RoutingMode)
        ensures
            mode == self@.mode,
    {
        self.mode
    }

    /// Points the router at the destination octet of the next datagram.
    ///
    /// Returns the pair to set the radio to, `None` where the radio is
    /// already set, and an error where the datagram is addressed to this
    /// node itself; the router is then left as it was.
    pub fn select(&mut self, octet: u8) -> (chosen: Result<Option<PeerAddress>, RouteError>)
        ensures
            final(self)@ == routed(old(self)@, octet).0,
            final(self)@.receive() != final(self)@.transmit(),
            match routed(old(self)@, octet).1 {
                Selection::Keep => chosen == Ok::<Option<PeerAddress>, RouteError>(None),
                Selection::Retune(pair) => chosen matches Ok(Some(address)) && address@ == pair,
                Selection::Refuse => chosen == Err::<Option<PeerAddress>, RouteError>(
                    RouteError::AddressCollision,
                ),
            },
    {
        proof {
            use_type_invariant(&*self);
            lemma_pairs_differ(self.base@, self.local, self.target);
            lemma_pairs_differ(self.base@, self.local, octet);
        }
        match self.mode {
            RoutingMode::FixedPeer => Ok(None),
            RoutingMode::PerDestination => {
                if octet == self.target {
                    Ok(None)
                } else if octet == self.local {
                    Err(RouteError::AddressCollision)
                } else {
                    self.target = octet;
                    Ok(Some(derive(&self.base, octet)))
                }
            },
        }
    }
}

} // verus!
