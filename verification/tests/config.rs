use radio_link::chunker::split;
use radio_link::config::assemble;
use radio_link::config::poll_policy;
use radio_link::config::ConfigError;
use radio_link::config::LinkSettings;
use radio_link::reassembler::DrainOutcome;
use radio_link::router::PeerAddress;
use radio_link::router::RouteError;
use radio_link::router::RoutingMode;
use radio_link::rx_pump::PollPolicy;
use radio_link::rx_pump::RxEvent;
use radio_link::rx_pump::Tier;
use radio_link::tx_pump::SendReport;
use radio_link::tx_pump::TxAction;

fn settings() -> LinkSettings {
    LinkSettings {
        base: [0x72, 0x78, 0x30, 0x30, 0x30],
        node: 7,
        peer: 8,
        mode: RoutingMode::PerDestination,
        delay_micros: 20,
        mtu: 900,
        capacity: 4096,
        per_batch: 2,
        max_retries: 15,
        retry_delay: 10,
    }
}

fn fault(change: fn(&mut LinkSettings)) -> ConfigError {
    let mut changed = settings();
    change(&mut changed);
    assemble(&changed).unwrap_err()
}

#[test]
fn the_poll_policy_halves_the_delay() {
    assert_eq!(
        poll_policy(20),
        PollPolicy { idle_micros: 1000, burst_micros: 10, burst_budget: 2048 }
    );
    assert_eq!(poll_policy(0).burst_micros, 0);
    assert_eq!(poll_policy(1).burst_micros, 0);
    assert_eq!(poll_policy(u64::MAX).burst_micros, u64::MAX / 2);
}

#[test]
fn good_settings_assemble_a_node() {
    let link = assemble(&settings()).unwrap();
    assert_eq!(
        link.radio.receive,
        PeerAddress { pipe: [0x72, 0x78, 0x30, 0x30, 7], channel: 7 }
    );
    assert_eq!(
        link.radio.transmit,
        PeerAddress { pipe: [0x72, 0x78, 0x30, 0x30, 8], channel: 8 }
    );
    assert_ne!(link.radio.receive, link.radio.transmit);
    assert_eq!(link.radio.max_retries, 15);
    assert_eq!(link.radio.retry_delay, 10);
    assert_eq!(link.rx.tier(), Tier::Idle);
    assert_eq!(link.rx.buffered(), 0);
    assert_eq!(link.rx.pause(), 1000);
    assert_eq!(link.tx.transmit(), link.radio.transmit);
    assert_eq!(link.tx.receive(), link.radio.receive);
}

#[test]
fn an_assembled_node_carries_a_datagram_from_one_pump_to_the_other() {
    let mut sender = assemble(&settings()).unwrap();
    let mut receiver = assemble(&LinkSettings { node: 8, peer: 7, ..settings() }).unwrap();
    let mut datagram: Vec<u8> = (0..900usize).map(|i| (i % 251) as u8).collect();
    datagram[..20].copy_from_slice(&[
        0x45, 0, 3, 132, 0, 0, 0, 0, 64, 17, 0, 0, 172, 0, 0, 7, 172, 0, 0, 8,
    ]);
    let mut flight = sender.tx.accept(&datagram).unwrap();
    let mut action = flight.open();
    let mut delivered = Vec::new();
    while let TxAction::Transmit { chunks, .. } = action {
        let step = receiver.rx.step(RxEvent::Chunks(chunks));
        if let DrainOutcome::Datagram(bytes) = step.outcome {
            delivered.push(bytes);
        }
        action = flight.step(SendReport::Sent);
    }
    assert_eq!(delivered, vec![datagram.clone()]);
    assert_eq!(split(&datagram).len(), 29);
}

#[test]
fn reserved_identifiers_stop_the_node() {
    assert_eq!(fault(|s| s.node = 0), ConfigError::Route(RouteError::NodeOutOfRange));
    assert_eq!(fault(|s| s.node = 255), ConfigError::Route(RouteError::NodeOutOfRange));
    assert_eq!(fault(|s| s.peer = 0), ConfigError::Route(RouteError::PeerOutOfRange));
    assert_eq!(fault(|s| s.peer = 255), ConfigError::Route(RouteError::PeerOutOfRange));
}

#[test]
fn colliding_pairs_stop_the_node() {
    assert_eq!(fault(|s| s.peer = 7), ConfigError::Route(RouteError::AddressCollision));
}

#[test]
fn an_mtu_outside_the_buffer_stops_the_node() {
    assert_eq!(fault(|s| s.mtu = 0), ConfigError::MtuOutOfRange);
    assert_eq!(fault(|s| s.mtu = 4097), ConfigError::MtuOutOfRange);
    assert_eq!(fault(|s| s.capacity = 899), ConfigError::MtuOutOfRange);
    assert!(assemble(&LinkSettings { mtu: 4096, ..settings() }).is_ok());
    assert!(assemble(&LinkSettings { mtu: 1, ..settings() }).is_ok());
}

#[test]
fn a_batch_outside_the_queue_stops_the_node() {
    assert_eq!(fault(|s| s.per_batch = 0), ConfigError::BatchOutOfRange);
    assert_eq!(fault(|s| s.per_batch = 4), ConfigError::BatchOutOfRange);
    for per_batch in 1..=3 {
        assert!(assemble(&LinkSettings { per_batch, ..settings() }).is_ok());
    }
}

#[test]
fn radio_parameters_out_of_range_stop_the_node() {
    assert_eq!(fault(|s| s.max_retries = 16), ConfigError::RetriesOutOfRange);
    assert_eq!(fault(|s| s.retry_delay = 16), ConfigError::RetryDelayOutOfRange);
    assert!(assemble(&LinkSettings { max_retries: 0, retry_delay: 0, ..settings() }).is_ok());
    assert!(assemble(&LinkSettings { max_retries: 15, retry_delay: 15, ..settings() }).is_ok());
}

#[test]
fn the_first_fault_is_the_one_reported() {
    let all_wrong = LinkSettings {
        node: 0,
        peer: 0,
        mtu: 0,
        per_batch: 0,
        max_retries: 99,
        retry_delay: 99,
        ..settings()
    };
    assert_eq!(
        assemble(&all_wrong).unwrap_err(),
        ConfigError::Route(RouteError::NodeOutOfRange)
    );
    let rest = LinkSettings { node: 7, peer: 8, ..all_wrong };
    assert_eq!(assemble(&rest).unwrap_err(), ConfigError::MtuOutOfRange);
    let rest = LinkSettings { mtu: 900, ..rest };
    assert_eq!(assemble(&rest).unwrap_err(), ConfigError::BatchOutOfRange);
    let rest = LinkSettings { per_batch: 2, ..rest };
    assert_eq!(assemble(&rest).unwrap_err(), ConfigError::RetriesOutOfRange);
    let rest = LinkSettings { max_retries: 3, ..rest };
    assert_eq!(assemble(&rest).unwrap_err(), ConfigError::RetryDelayOutOfRange);
}
