use arbiter::backtest::RawSwapEvent;
use arbiter::bindings::{Address, SafeCastLib};
use arbiter::errors::SimError;
use arbiter::monitor::{
    backoff_delay, monitor_step, MonitorAction, MonitorConfig, MonitorEvent, MonitorState,
    DELAY_CAP,
};

fn swap(block: u64) -> RawSwapEvent {
    RawSwapEvent {
        block_number: block,
        log_index: 0,
        amount_in: 5,
        amount_out: 4,
        asset_in: 0,
        asset_out: 1,
        price: 1_000_000,
    }
}

#[test]
fn event_is_emitted_and_advances_resume_point() {
    let cfg = MonitorConfig { max_retries: 3, backoff_base: 100 };
    let s = MonitorState { last_confirmed_block: 10, retries_used: 2 };
    let (next, action) = monitor_step(&cfg, &s, &MonitorEvent::Swap(swap(15)));
    assert_eq!(next.last_confirmed_block, 15);
    assert_eq!(next.retries_used, 0); // a delivery resets the retry budget
    match action {
        MonitorAction::Emit(t) => assert_eq!(t.block_or_step, 15),
        _ => panic!("an arriving event must be emitted"),
    }
}

#[test]
fn stale_event_keeps_resume_point() {
    let cfg = MonitorConfig { max_retries: 3, backoff_base: 100 };
    let s = MonitorState { last_confirmed_block: 20, retries_used: 0 };
    let (next, _) = monitor_step(&cfg, &s, &MonitorEvent::Swap(swap(15)));
    assert_eq!(next.last_confirmed_block, 20);
}

#[test]
fn disconnects_reconnect_with_exponential_backoff_then_fail() {
    let cfg = MonitorConfig { max_retries: 3, backoff_base: 100 };
    let mut s = MonitorState { last_confirmed_block: 42, retries_used: 0 };
    let mut delays = Vec::new();
    for _ in 0..3 {
        let (next, action) = monitor_step(&cfg, &s, &MonitorEvent::Disconnected);
        match action {
            MonitorAction::Reconnect { from_block, delay_ms } => {
                assert_eq!(from_block, 42); // resumes from last confirmed block
                delays.push(delay_ms);
            }
            _ => panic!("within budget the monitor reconnects"),
        }
        s = next;
    }
    assert_eq!(delays, vec![100, 200, 400]);
    // The budget is exhausted: the failure is surfaced, not swallowed.
    let (_, action) = monitor_step(&cfg, &s, &MonitorEvent::Disconnected);
    assert!(matches!(action, MonitorAction::Fail));
}

#[test]
fn cancellation_stops_cleanly() {
    let cfg = MonitorConfig { max_retries: 3, backoff_base: 100 };
    let s = MonitorState { last_confirmed_block: 7, retries_used: 1 };
    let (next, action) = monitor_step(&cfg, &s, &MonitorEvent::Cancelled);
    assert!(matches!(action, MonitorAction::Stop));
    assert_eq!(next, s);
}

#[test]
fn backoff_saturates_at_the_cap() {
    let cfg = MonitorConfig { max_retries: 100, backoff_base: 50_000 };
    assert_eq!(backoff_delay(&cfg, 0), 50_000);
    assert_eq!(backoff_delay(&cfg, 1), DELAY_CAP);
    assert_eq!(backoff_delay(&cfg, 63), DELAY_CAP);
}

#[test]
fn address_must_have_twenty_bytes() {
    assert_eq!(
        Address::from_bytes(vec![1, 2, 3]).unwrap_err(),
        SimError::InvalidConfig
    );
    let a = Address::from_bytes(vec![0xAB; 20]).unwrap();
    assert_eq!(a.bytes.len(), 20);
}

#[test]
fn new_binds_the_given_address() {
    let a = Address::from_bytes(vec![7; 20]).unwrap();
    let lib = SafeCastLib::new(a.clone());
    assert_eq!(lib.address, a);
}

#[test]
fn deploy_rejects_constructor_args() {
    let d = SafeCastLib::deploy(vec![]).unwrap();
    assert!(d.constructor_args.is_empty());
    assert_eq!(
        SafeCastLib::deploy(vec![1]).unwrap_err(),
        SimError::InvalidConfig
    );
}
