use radio_link::router::AddressRouter;
use radio_link::router::PeerAddress;
use radio_link::router::RouteError;
use radio_link::router::RoutingMode;
use radio_link::router::MAX_CHANNEL;

const BASE: [u8; 5] = [0x72, 0x78, 0x30, 0x30, 0x30];

fn pair(octet: u8, channel: u8) -> PeerAddress {
    PeerAddress { pipe: [0x72, 0x78, 0x30, 0x30, octet], channel }
}

#[test]
fn the_pairs_are_derived_from_the_identifiers() {
    let router = AddressRouter::new(BASE, 7, 8, RoutingMode::FixedPeer).unwrap();
    assert_eq!(router.receive(), pair(7, 7));
    assert_eq!(router.transmit(), pair(8, 8));
    assert_eq!(router.mode(), RoutingMode::FixedPeer);
}

#[test]
fn channels_stop_at_the_highest_channel() {
    let router = AddressRouter::new(BASE, 125, 126, RoutingMode::FixedPeer).unwrap();
    assert_eq!(router.receive(), pair(125, 125));
    assert_eq!(router.transmit(), pair(126, 125));
    let far = AddressRouter::new(BASE, 254, 200, RoutingMode::FixedPeer).unwrap();
    assert_eq!(far.receive(), pair(254, MAX_CHANNEL));
    assert_eq!(far.transmit(), pair(200, MAX_CHANNEL));
}

#[test]
fn reserved_identifiers_are_refused() {
    for mode in [RoutingMode::FixedPeer, RoutingMode::PerDestination] {
        assert_eq!(AddressRouter::new(BASE, 0, 8, mode).unwrap_err(), RouteError::NodeOutOfRange);
        assert_eq!(
            AddressRouter::new(BASE, 255, 8, mode).unwrap_err(),
            RouteError::NodeOutOfRange
        );
        assert_eq!(AddressRouter::new(BASE, 7, 0, mode).unwrap_err(), RouteError::PeerOutOfRange);
        assert_eq!(
            AddressRouter::new(BASE, 7, 255, mode).unwrap_err(),
            RouteError::PeerOutOfRange
        );
        assert_eq!(AddressRouter::new(BASE, 0, 0, mode).unwrap_err(), RouteError::NodeOutOfRange);
    }
}

#[test]
fn a_node_cannot_transmit_to_itself() {
    for id in [1u8, 7, 125, 126, 254] {
        assert_eq!(
            AddressRouter::new(BASE, id, id, RoutingMode::PerDestination).unwrap_err(),
            RouteError::AddressCollision
        );
    }
}

#[test]
fn every_pair_of_distinct_identifiers_gives_distinct_pairs() {
    for node in 1..=254u8 {
        for peer in [1u8, 2, 124, 125, 126, 127, 253, 254] {
            if node == peer {
                continue;
            }
            let router = AddressRouter::new(BASE, node, peer, RoutingMode::FixedPeer).unwrap();
            assert_ne!(router.receive(), router.transmit());
        }
    }
}

#[test]
fn a_fixed_peer_is_never_changed() {
    let mut router = AddressRouter::new(BASE, 7, 8, RoutingMode::FixedPeer).unwrap();
    for octet in 0..=255u8 {
        assert_eq!(router.select(octet), Ok(None));
        assert_eq!(router.transmit(), pair(8, 8));
    }
}

#[test]
fn the_transmit_pair_follows_the_destination() {
    let mut router = AddressRouter::new(BASE, 7, 8, RoutingMode::PerDestination).unwrap();
    assert_eq!(router.select(8), Ok(None));
    assert_eq!(router.select(9), Ok(Some(pair(9, 9))));
    assert_eq!(router.transmit(), pair(9, 9));
    assert_eq!(router.select(9), Ok(None));
    assert_eq!(router.select(200), Ok(Some(pair(200, 125))));
    assert_eq!(router.select(200), Ok(None));
    assert_eq!(router.select(8), Ok(Some(pair(8, 8))));
    assert_eq!(router.receive(), pair(7, 7));
}

#[test]
fn a_datagram_for_this_node_is_refused_and_changes_nothing() {
    let mut router = AddressRouter::new(BASE, 7, 8, RoutingMode::PerDestination).unwrap();
    assert_eq!(router.select(7), Err(RouteError::AddressCollision));
    assert_eq!(router.transmit(), pair(8, 8));
    assert_eq!(router.select(9), Ok(Some(pair(9, 9))));
    assert_eq!(router.select(7), Err(RouteError::AddressCollision));
    assert_eq!(router.transmit(), pair(9, 9));
}

#[test]
fn reserved_destinations_are_routed_like_any_other() {
    let mut router = AddressRouter::new(BASE, 7, 8, RoutingMode::PerDestination).unwrap();
    assert_eq!(router.select(0), Ok(Some(pair(0, 0))));
    assert_eq!(router.select(255), Ok(Some(pair(255, 125))));
}

#[test]
fn the_pairs_stay_apart_through_every_selection() {
    let mut router = AddressRouter::new(BASE, 100, 101, RoutingMode::PerDestination).unwrap();
    for round in 0..3u8 {
        for octet in 0..=255u8 {
            let chosen = router.select(octet.wrapping_mul(7).wrapping_add(round));
            if let Ok(Some(address)) = chosen {
                assert_eq!(address, router.transmit());
            }
            assert_ne!(router.receive(), router.transmit());
            assert_eq!(router.receive(), pair(100, 100));
        }
    }
}

#[test]
fn the_base_address_is_kept_but_for_its_last_byte() {
    let router = AddressRouter::new([1, 2, 3, 4, 5], 9, 10, RoutingMode::FixedPeer).unwrap();
    assert_eq!(router.receive().pipe, [1, 2, 3, 4, 9]);
    assert_eq!(router.transmit().pipe, [1, 2, 3, 4, 10]);
}
