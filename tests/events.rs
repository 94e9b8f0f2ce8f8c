use vaultpair::events::{get_events, get_events_latest, push, Event, MAX_EVENTS};
use vaultpair::types::TokenId;

fn ev(n: u64) -> Event {
    Event::Deposit { who: format!("u{n}"), token: TokenId::USDC, amount: n as u128, ts: n }
}

#[test]
fn push_keeps_newest_entries() {
    let mut log = Vec::new();
    for n in 0..(MAX_EVENTS as u64 + 3) {
        push(&mut log, ev(n));
    }
    assert_eq!(log.len(), MAX_EVENTS);
    assert_eq!(log[0], ev(3));
    assert_eq!(log[MAX_EVENTS - 1], ev(MAX_EVENTS as u64 + 2));
}

#[test]
fn paging_and_latest() {
    let mut log = Vec::new();
    for n in 0..5 {
        push(&mut log, ev(n));
    }
    assert_eq!(get_events(&log, 1, 2), vec![ev(1), ev(2)]);
    assert_eq!(get_events(&log, 4, 10), vec![ev(4)]);
    assert_eq!(get_events(&log, 9, 10), Vec::<Event>::new());
    assert_eq!(get_events(&log, 0, u128::MAX).len(), 5);
    assert_eq!(get_events_latest(&log, 2), vec![ev(3), ev(4)]);
    assert_eq!(get_events_latest(&log, 99).len(), 5);
    assert_eq!(get_events_latest(&log, 0), Vec::<Event>::new());
}
