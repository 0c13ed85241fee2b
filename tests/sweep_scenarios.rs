use member_sweep::cache::CacheStore;
use member_sweep::engine::{ConnectError, Resolution, ScrapeError, ScraperEngine, TransientError};
use member_sweep::record::{RawMember, TelegramMember};
use member_sweep::sweep::{default_patterns, merge_batch, RateLimiter, ScrapingTask, Sweep, SweepStep};

fn raw(id: i64, name: &str) -> RawMember {
    RawMember {
        id,
        username: Some(name.to_string()),
        first_name: Some(format!("User{}", id)),
        last_name: None,
        phone: None,
        is_premium: id % 10 == 0,
        last_online: 1_700_000_000,
    }
}

fn ids(from: i64, to: i64, name: &str) -> Vec<RawMember> {
    (from..to).map(|i| raw(i, name)).collect()
}

fn connected_engine() -> ScraperEngine {
    let mut e = ScraperEngine::new();
    assert_eq!(e.prepare_connect(12345, "hash", "session.bin"), Ok(()));
    assert_eq!(e.connect(Ok(())), Ok(()));
    e
}

/// Runs a sweep to its end against `transport`, returning the records and
/// the number of queries made.
fn run<F>(engine: &mut ScraperEngine, target: &str, max: u32, mut transport: F) -> (Vec<TelegramMember>, usize)
where
    F: FnMut(&str, u32) -> Result<Vec<RawMember>, TransientError>,
{
    let mut sweep = engine.scrape_channel(target.to_string(), max, Resolution::Found).unwrap();
    let mut calls = 0;
    loop {
        match sweep.next_step() {
            SweepStep::Search { prefix, limit } => {
                calls += 1;
                let outcome = transport(&prefix, limit);
                let pause = engine.absorb(&mut sweep, outcome);
                assert_eq!(pause, 2);
            }
            SweepStep::Finished => break,
        }
    }
    (engine.collect(&sweep), calls)
}

fn overlap_transport(prefix: &str, _limit: u32) -> Result<Vec<RawMember>, TransientError> {
    match prefix {
        "" => Ok(ids(0, 50, "plain")),
        "a" => Ok(ids(40, 90, "a")),
        _ => Ok(Vec::new()),
    }
}

fn id_list(records: &[TelegramMember]) -> Vec<i64> {
    records.iter().map(|m| m.id).collect()
}

#[test]
fn overlapping_prefixes_fill_to_cap_in_first_seen_order() {
    let mut e = connected_engine();
    let (records, _) = run(&mut e, "chan", 70, overlap_transport);
    assert_eq!(records.len(), 70);
    assert_eq!(id_list(&records), (0..70).collect::<Vec<i64>>());
    assert_eq!(records[45].username.as_deref(), Some("plain"));
    assert_eq!(records[55].username.as_deref(), Some("a"));
    assert!(records.iter().all(|m| m.source_channel == "chan"));
}

#[test]
fn zero_cap_makes_no_queries() {
    let mut e = connected_engine();
    let (records, calls) = run(&mut e, "chan", 0, overlap_transport);
    assert!(records.is_empty());
    assert_eq!(calls, 0);
}

#[test]
fn zero_cap_succeeds_without_resolution() {
    let e = connected_engine();
    for resolution in [Resolution::NotFound, Resolution::Failed, Resolution::Found] {
        let sweep = e.scrape_channel("nobody".to_string(), 0, resolution).unwrap();
        assert!(matches!(sweep.next_step(), SweepStep::Finished));
        assert!(e.collect(&sweep).is_empty());
    }
    assert_eq!(e.cached_count(), 0);
}

#[test]
fn zero_cap_before_connect_still_fails() {
    let e = ScraperEngine::new();
    assert!(matches!(e.scrape_channel("x".to_string(), 0, Resolution::Found), Err(ScrapeError::NotConnected)));
}

#[test]
fn unresolvable_target_leaves_cache_unchanged() {
    let mut e = connected_engine();
    let _ = run(&mut e, "chan", 10, overlap_transport);
    let before = e.cached_count();
    assert!(matches!(e.scrape_channel("nobody".to_string(), 10, Resolution::NotFound), Err(ScrapeError::Resolution)));
    assert_eq!(e.cached_count(), before);
    assert_eq!(before, 10);
}

#[test]
fn backend_failure_on_resolve_is_reported() {
    let e = connected_engine();
    assert!(matches!(e.scrape_channel("x".to_string(), 10, Resolution::Failed), Err(ScrapeError::Backend)));
}

#[test]
fn scrape_before_connect_fails() {
    let e = ScraperEngine::new();
    assert!(matches!(e.scrape_channel("x".to_string(), 10, Resolution::Found), Err(ScrapeError::NotConnected)));
}

#[test]
fn duplicate_ids_keep_first_seen_record() {
    let mut e = connected_engine();
    let (records, _) = run(&mut e, "chan", 100, |prefix, _| match prefix {
        "" => Ok(vec![raw(5, "first"), raw(6, "six"), raw(5, "again")]),
        "a" => Ok(vec![raw(5, "second"), raw(7, "seven")]),
        _ => Ok(Vec::new()),
    });
    assert_eq!(id_list(&records), vec![5, 6, 7]);
    assert_eq!(records[0].username.as_deref(), Some("first"));
}

#[test]
fn cap_is_exact_when_enough_ids_exist() {
    let mut e = connected_engine();
    let (records, _) = run(&mut e, "chan", 30, overlap_transport);
    assert_eq!(id_list(&records), (0..30).collect::<Vec<i64>>());
}

#[test]
fn cap_not_reached_returns_all_distinct() {
    let mut e = connected_engine();
    let (records, calls) = run(&mut e, "chan", 500, overlap_transport);
    assert_eq!(id_list(&records), (0..90).collect::<Vec<i64>>());
    assert_eq!(calls, 10);
}

#[test]
fn repeated_runs_give_identical_order() {
    let mut e1 = connected_engine();
    let mut e2 = connected_engine();
    let (a, _) = run(&mut e1, "chan", 70, overlap_transport);
    let (b, _) = run(&mut e2, "chan", 70, overlap_transport);
    assert_eq!(id_list(&a), id_list(&b));
}

#[test]
fn failed_prefix_is_skipped() {
    let mut e = connected_engine();
    let (records, calls) = run(&mut e, "chan", 1000, |prefix, _| match prefix {
        "" => Ok(ids(0, 50, "plain")),
        "a" => Err(TransientError),
        "e" => Ok(ids(100, 110, "e")),
        _ => Ok(Vec::new()),
    });
    let mut expected: Vec<i64> = (0..50).collect();
    expected.extend(100..110);
    assert_eq!(id_list(&records), expected);
    assert_eq!(calls, 10);
}

#[test]
fn limit_shrinks_as_records_arrive() {
    let mut e = connected_engine();
    let mut limits = Vec::new();
    let _ = run(&mut e, "chan", 70, |prefix, limit| {
        limits.push(limit);
        overlap_transport(prefix, limit)
    });
    assert_eq!(limits, vec![70, 20]);
}

#[test]
fn connect_arguments_are_checked() {
    let e = ScraperEngine::new();
    assert_eq!(e.prepare_connect(0, "hash", "s"), Err(ConnectError::InvalidArgument));
    assert_eq!(e.prepare_connect(-3, "hash", "s"), Err(ConnectError::InvalidArgument));
    assert_eq!(e.prepare_connect(1, "", "s"), Err(ConnectError::InvalidArgument));
    assert_eq!(e.prepare_connect(1, "hash", ""), Err(ConnectError::InvalidArgument));
    assert_eq!(e.prepare_connect(1, "hash", "s"), Ok(()));
}

#[test]
fn second_connect_is_refused() {
    let mut e = connected_engine();
    assert_eq!(e.prepare_connect(1, "hash", "s"), Err(ConnectError::AlreadyConnected));
    assert_eq!(e.connect(Ok(())), Err(ConnectError::AlreadyConnected));
    assert!(e.is_connected());
}

#[test]
fn failed_connect_leaves_engine_disconnected() {
    let mut e = ScraperEngine::new();
    assert_eq!(e.connect(Err(ConnectError::Auth)), Err(ConnectError::Auth));
    assert!(!e.is_connected());
    assert_eq!(e.connect(Err(ConnectError::Network)), Err(ConnectError::Network));
    assert_eq!(e.connect(Err(ConnectError::Session)), Err(ConnectError::Session));
    assert_eq!(e.connect(Ok(())), Ok(()));
    assert!(e.is_connected());
}

#[test]
fn cache_survives_between_scrapes() {
    let mut e = connected_engine();
    let _ = run(&mut e, "chan", 10, overlap_transport);
    let (records, _) = run(&mut e, "chan", 15, overlap_transport);
    assert_eq!(id_list(&records), (0..15).collect::<Vec<i64>>());
    assert_eq!(e.cached_count(), 25);
}

#[test]
fn default_sweep_prefixes() {
    let p = default_patterns();
    assert_eq!(p, vec!["", "a", "e", "i", "o", "u", "s", "t", "n", "r"]);
}

#[test]
fn rate_limiter_spacing() {
    assert_eq!(RateLimiter::new().wait_before_next(), 2);
    assert_eq!(RateLimiter::with_spacing(7).wait_before_next(), 7);
}

#[test]
fn explicit_sweep_with_custom_patterns() {
    let task = ScrapingTask { target: "g".to_string(), max_members: 3, patterns: vec!["x".to_string()] };
    let s = Sweep::new(task, RateLimiter::with_spacing(1));
    match s.next_step() {
        SweepStep::Search { prefix, limit } => {
            assert_eq!(prefix, "x");
            assert_eq!(limit, 3);
        }
        SweepStep::Finished => panic!("expected a search"),
    }
    let empty = Sweep::new(ScrapingTask { target: "g".to_string(), max_members: 3, patterns: Vec::new() }, RateLimiter::new());
    assert!(matches!(empty.next_step(), SweepStep::Finished));
}

#[test]
fn merge_batch_stops_at_room() {
    let mut cache = CacheStore::new();
    let added = merge_batch(&mut cache, &ids(0, 10, "n"), &"c".to_string(), 4);
    assert_eq!(added, 4);
    assert_eq!(cache.len(), 4);
    let again = merge_batch(&mut cache, &ids(2, 8, "n"), &"c".to_string(), 10);
    assert_eq!(again, 4);
    assert_eq!(id_list(&cache.snapshot(100)), vec![0, 1, 2, 3, 4, 5, 6, 7]);
}
