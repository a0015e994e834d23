use anke::bucket::AsyncBucket;
use anke::pipeline::{ChainRun, ChainStep, IDLE_BACKOFF_MS};
use anke::sieve::{plan_poll, PollAction, PollCycle, PollPlan};
use anke::token::{id_to_token, token_to_id};

#[test]
fn refill_after_two_periods_allows_two_then_short_by_one() {
    let mut b = AsyncBucket::new(500, 50);
    assert_eq!(b.available(), 0);
    assert_eq!(b.try_take_at(1000, 2), Ok(()));
    assert_eq!(b.try_take_at(1000, 1), Err(1));
}

#[test]
fn partial_period_is_not_lost() {
    let mut b = AsyncBucket::new(500, 50);
    assert_eq!(b.update_at(400), 0);
    assert_eq!(b.update_at(700), 1);
    assert_eq!(b.update_at(999), 1);
    assert_eq!(b.update_at(1200), 2);
}

#[test]
fn tokens_stay_within_capacity() {
    let mut b = AsyncBucket::new(10, 5);
    let mut now: u64 = 0;
    for step in 0..200u64 {
        now += (step * 7) % 53;
        let _ = b.try_take_at(now, (step % 4) as usize);
        assert!(b.available() <= 5);
    }
    assert_eq!(b.update_at(now + 1_000_000), 5);
}

#[test]
fn deficit_is_requested_minus_available() {
    let mut b = AsyncBucket::new(100, 10);
    assert_eq!(b.update_at(300), 3);
    assert_eq!(b.try_take_at(300, 7), Err(4));
    assert_eq!(b.available(), 3);
    assert_eq!(b.try_take_at(300, 3), Ok(()));
    assert_eq!(b.available(), 0);
}

#[test]
fn seeded_bucket_holds_the_seed() {
    let b = AsyncBucket::new(1000, 5).init(8);
    assert_eq!(b.available(), 8);
}

#[test]
fn seed_above_capacity_is_cut_to_capacity_on_refill() {
    let mut b = AsyncBucket::new(1, 5).init(8);
    assert_eq!(b.update_at(u64::MAX), 5);
}

#[test]
fn clock_driven_take_uses_seeded_tokens() {
    let mut b = AsyncBucket::new(3_600_000, 10).init(3);
    assert_eq!(b.try_take(2), Ok(()));
    assert_eq!(b.try_take(2), Err(1));
}

#[test]
fn wait_is_one_period_per_missing_token() {
    let b = AsyncBucket::new(250, 4);
    assert_eq!(b.wait_ms(3), 750);
    assert_eq!(b.wait_ms(0), 0);
    let slow = AsyncBucket::new(u64::MAX / 2, 4);
    assert_eq!(slow.wait_ms(3), u64::MAX);
}

#[test]
fn token_text_round_trips() {
    assert_eq!(id_to_token(0), "0");
    assert_eq!(id_to_token(9), "9");
    assert_eq!(id_to_token(1234567), "1234567");
    assert_eq!(id_to_token(u64::MAX), "18446744073709551615");
    assert_eq!(token_to_id("1234567"), Some(1234567));
    assert_eq!(token_to_id("0"), Some(0));
    assert_eq!(token_to_id("007"), Some(7));
    assert_eq!(token_to_id("18446744073709551615"), Some(u64::MAX));
    for n in [0u64, 1, 10, 99, 100, 4_000_000_001, u64::MAX] {
        assert_eq!(token_to_id(&id_to_token(n)), Some(n));
    }
}

#[test]
fn malformed_tokens_have_no_frontier() {
    assert_eq!(token_to_id(""), None);
    assert_eq!(token_to_id("abc"), None);
    assert_eq!(token_to_id("12a"), None);
    assert_eq!(token_to_id("-5"), None);
    assert_eq!(token_to_id(" 5"), None);
    assert_eq!(token_to_id("18446744073709551616"), None);
    assert_eq!(token_to_id("99999999999999999999999"), None);
}

#[test]
fn plan_without_token_bootstraps() {
    assert_eq!(plan_poll(None, 16, -1), PollPlan { limit: 16, until: 0, bootstrap: true });
    assert_eq!(plan_poll(Some("junk"), 16, 30), PollPlan { limit: 16, until: 0, bootstrap: true });
}

#[test]
fn plan_with_token_is_incremental() {
    assert_eq!(plan_poll(Some("500"), 16, 30), PollPlan { limit: 30, until: 500, bootstrap: false });
}

fn drain(c: &mut PollCycle) -> (Vec<u64>, Vec<String>) {
    let mut enq = Vec::new();
    let mut stores = Vec::new();
    loop {
        match c.next_action() {
            PollAction::Enqueue(id) => enq.push(id),
            PollAction::Store(t) => stores.push(t),
            PollAction::Done => break,
        }
    }
    (enq, stores)
}

#[test]
fn frontier_is_the_largest_new_identifier() {
    let f: u64 = 1000;
    let mut c = PollCycle::start(Some("1000"), 16, 30);
    assert!(c.offer(Some(f + 1)));
    assert!(c.offer(Some(f + 3)));
    assert!(c.offer(Some(f + 2)));
    assert!(!c.offer(None));
    let (enq, stores) = drain(&mut c);
    assert_eq!(enq, vec![f + 1, f + 2, f + 3]);
    assert_eq!(stores, vec!["1003".to_string()]);
}

#[test]
fn nothing_new_stores_the_old_frontier() {
    let mut c = PollCycle::start(Some("77"), 16, 30);
    assert!(!c.offer(Some(77)));
    let (enq, stores) = drain(&mut c);
    assert!(enq.is_empty());
    assert_eq!(stores, vec!["77".to_string()]);
}

#[test]
fn bootstrap_is_bounded_by_fresh_limit() {
    let mut c = PollCycle::start(None, 2, 30);
    assert_eq!(c.plan().bootstrap, true);
    assert!(c.offer(Some(50)));
    assert!(c.offer(Some(49)));
    assert!(!c.offer(Some(48)));
    assert!(!c.offer(Some(47)));
    let (enq, stores) = drain(&mut c);
    assert_eq!(enq, vec![49, 50]);
    assert_eq!(stores, vec!["50".to_string()]);
}

#[test]
fn incremental_stops_at_the_frontier_and_the_limit() {
    let mut c = PollCycle::start(Some("40"), 16, 3);
    assert!(c.offer(Some(45)));
    assert!(c.offer(Some(44)));
    assert!(!c.offer(Some(40)));
    assert!(!c.offer(Some(43)));
    let (enq, _) = drain(&mut c);
    assert_eq!(enq, vec![44, 45]);

    let mut d = PollCycle::start(Some("40"), 16, 2);
    assert!(d.offer(Some(50)));
    assert!(d.offer(Some(49)));
    assert!(!d.offer(Some(48)));
    let (enq, stores) = drain(&mut d);
    assert_eq!(enq, vec![49, 50]);
    assert_eq!(stores, vec!["50".to_string()]);
}

#[test]
fn negative_limit_accepts_nothing() {
    let mut c = PollCycle::start(Some("10"), 16, -1);
    assert!(!c.offer(Some(11)));
    let (enq, stores) = drain(&mut c);
    assert!(enq.is_empty());
    assert_eq!(stores, vec!["10".to_string()]);
}

#[test]
fn store_comes_once_after_every_enqueue() {
    let mut c = PollCycle::start(Some("5"), 16, 30);
    c.offer(Some(9));
    c.offer(Some(7));
    c.offer(None);
    assert!(matches!(c.next_action(), PollAction::Enqueue(7)));
    assert!(matches!(c.next_action(), PollAction::Enqueue(9)));
    match c.next_action() {
        PollAction::Store(t) => assert_eq!(t, "9"),
        _ => panic!("expected the store"),
    }
    assert!(matches!(c.next_action(), PollAction::Done));
    assert!(matches!(c.next_action(), PollAction::Done));
}

#[test]
fn interrupted_cycle_is_redone_from_the_same_token() {
    let stored = Some("100");
    let listing = [104u64, 103, 101, 100, 99];
    let mut first = PollCycle::start(stored, 16, 30);
    for p in listing {
        if !first.offer(Some(p)) {
            break;
        }
    }
    let mut sent = Vec::new();
    for _ in 0..2 {
        if let PollAction::Enqueue(id) = first.next_action() {
            sent.push(id);
        }
    }
    // the process stops here: the token store still holds "100"
    let mut again = PollCycle::start(stored, 16, 30);
    for p in listing {
        if !again.offer(Some(p)) {
            break;
        }
    }
    let (enq, stores) = drain(&mut again);
    assert_eq!(sent, vec![101, 103]);
    for id in &sent {
        assert!(enq.contains(id));
    }
    assert_eq!(enq, vec![101, 103, 104]);
    assert_eq!(stores, vec!["104".to_string()]);
}

#[test]
fn chain_stops_at_the_first_swallow() {
    let mut run = ChainRun::new(3);
    assert_eq!(run.step(), ChainStep::Invoke(0));
    assert_eq!(run.record(true), ChainStep::Invoke(1));
    assert_eq!(run.record(false), ChainStep::Swallowed);
    assert_eq!(run.step(), ChainStep::Swallowed);
    assert_eq!(run.record(true), ChainStep::Swallowed);
}

#[test]
fn chain_delivers_when_every_filter_keeps() {
    let mut run = ChainRun::new(2);
    assert_eq!(run.step(), ChainStep::Invoke(0));
    assert_eq!(run.record(true), ChainStep::Invoke(1));
    assert_eq!(run.record(true), ChainStep::Delivered);
    assert_eq!(run.record(false), ChainStep::Delivered);
}

#[test]
fn empty_chain_delivers_at_once() {
    let run = ChainRun::new(0);
    assert_eq!(run.step(), ChainStep::Delivered);
    assert_eq!(IDLE_BACKOFF_MS, 3000);
}
