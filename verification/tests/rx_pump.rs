use radio_link::chunker::reset_sentinel;
use radio_link::chunker::split;
use radio_link::reassembler::DrainOutcome;
use radio_link::rx_pump::PollPolicy;
use radio_link::rx_pump::RxAction;
use radio_link::rx_pump::RxEvent;
use radio_link::rx_pump::RxPump;
use radio_link::rx_pump::Tier;
use radio_link::rx_pump::BURST_BUDGET;
use radio_link::rx_pump::IDLE_MICROS;

const POLICY: PollPolicy = PollPolicy { idle_micros: 1000, burst_micros: 10, burst_budget: 3 };

fn ipv4(len: usize) -> Vec<u8> {
    let mut bytes: Vec<u8> = (0..len).map(|i| (i % 251) as u8).collect();
    let header = [
        0x45,
        0,
        (len / 256) as u8,
        (len % 256) as u8,
        0,
        0,
        0,
        0,
        64,
        17,
        0,
        0,
        172,
        0,
        0,
        1,
        172,
        0,
        0,
        2,
    ];
    bytes[..20].copy_from_slice(&header);
    bytes
}

fn pending(sleep_micros: u64) -> RxAction {
    RxAction { outcome: DrainOutcome::Pending, sleep_micros }
}

#[test]
fn the_defaults_are_a_millisecond_and_two_thousand_polls() {
    assert_eq!(IDLE_MICROS, 1000);
    assert_eq!(BURST_BUDGET, 2048);
}

#[test]
fn a_new_pump_is_idle_and_empty() {
    let pump = RxPump::new(POLICY, 4096);
    assert_eq!(pump.tier(), Tier::Idle);
    assert_eq!(pump.budget(), 0);
    assert_eq!(pump.buffered(), 0);
    assert_eq!(pump.pause(), 1000);
}

#[test]
fn an_idle_pump_stays_idle_while_nothing_arrives() {
    let mut pump = RxPump::new(POLICY, 4096);
    for _ in 0..10 {
        assert_eq!(pump.step(RxEvent::Quiet), pending(1000));
        assert_eq!(pump.tier(), Tier::Idle);
    }
}

#[test]
fn data_starts_a_burst() {
    let mut pump = RxPump::new(POLICY, 4096);
    let first = split(&ipv4(96))[0].clone();
    assert_eq!(pump.step(RxEvent::Chunks(vec![first])), pending(10));
    assert_eq!(pump.tier(), Tier::Burst);
    assert_eq!(pump.budget(), 3);
    assert_eq!(pump.buffered(), 32);
    assert_eq!(pump.pause(), 10);
}

#[test]
fn a_burst_ends_after_its_budget_of_empty_polls() {
    let mut pump = RxPump::new(POLICY, 4096);
    pump.step(RxEvent::Chunks(vec![vec![0u8; 8]]));
    assert_eq!(pump.step(RxEvent::Quiet), pending(10));
    assert_eq!(pump.budget(), 2);
    assert_eq!(pump.step(RxEvent::Quiet), pending(10));
    assert_eq!(pump.budget(), 1);
    assert_eq!(pump.step(RxEvent::Quiet), pending(1000));
    assert_eq!(pump.tier(), Tier::Idle);
    assert_eq!(pump.step(RxEvent::Quiet), pending(1000));
    assert_eq!(pump.budget(), 0);
}

#[test]
fn what_has_accumulated_outlasts_a_burst() {
    let mut pump = RxPump::new(POLICY, 4096);
    pump.step(RxEvent::Chunks(vec![vec![0u8; 8]]));
    for _ in 0..5 {
        pump.step(RxEvent::Quiet);
    }
    assert_eq!(pump.tier(), Tier::Idle);
    assert_eq!(pump.buffered(), 8);
}

#[test]
fn data_in_a_burst_does_not_use_up_the_budget() {
    let mut pump = RxPump::new(POLICY, 4096);
    pump.step(RxEvent::Chunks(vec![vec![0u8; 8]]));
    pump.step(RxEvent::Quiet);
    assert_eq!(pump.budget(), 2);
    assert_eq!(pump.step(RxEvent::Chunks(vec![vec![0u8; 8]])), pending(10));
    assert_eq!(pump.budget(), 2);
    assert_eq!(pump.buffered(), 16);
}

#[test]
fn a_delivered_datagram_restores_the_budget() {
    let datagram = ipv4(96);
    let chunks = split(&datagram);
    let mut pump = RxPump::new(POLICY, 4096);
    pump.step(RxEvent::Chunks(vec![chunks[0].clone()]));
    pump.step(RxEvent::Quiet);
    pump.step(RxEvent::Quiet);
    assert_eq!(pump.budget(), 1);
    let action = pump.step(RxEvent::Chunks(vec![chunks[1].clone(), chunks[2].clone()]));
    assert_eq!(
        action,
        RxAction { outcome: DrainOutcome::Datagram(datagram), sleep_micros: 10 }
    );
    assert_eq!(pump.budget(), 3);
    assert_eq!(pump.buffered(), 0);
}

#[test]
fn a_reset_or_an_overflow_does_not_restore_the_budget() {
    let mut pump = RxPump::new(POLICY, 40);
    pump.step(RxEvent::Chunks(vec![vec![0u8; 8]]));
    pump.step(RxEvent::Quiet);
    let reset = pump.step(RxEvent::Chunks(vec![reset_sentinel()]));
    assert_eq!(reset, RxAction { outcome: DrainOutcome::Reset, sleep_micros: 10 });
    assert_eq!(pump.budget(), 2);
    assert_eq!(pump.buffered(), 0);
    pump.step(RxEvent::Chunks(vec![vec![0u8; 32]]));
    let overflow = pump.step(RxEvent::Chunks(vec![vec![0u8; 32]]));
    assert_eq!(overflow, RxAction { outcome: DrainOutcome::Overflow, sleep_micros: 10 });
    assert_eq!(pump.budget(), 2);
    assert_eq!(pump.buffered(), 0);
}

#[test]
fn a_policy_without_a_budget_never_leaves_the_idle_cadence() {
    let policy = PollPolicy { idle_micros: 500, burst_micros: 5, burst_budget: 0 };
    let mut pump = RxPump::new(policy, 4096);
    let datagram = ipv4(40);
    let action = pump.step(RxEvent::Chunks(split(&datagram)));
    assert_eq!(
        action,
        RxAction { outcome: DrainOutcome::Datagram(datagram), sleep_micros: 500 }
    );
    assert_eq!(pump.tier(), Tier::Idle);
}
