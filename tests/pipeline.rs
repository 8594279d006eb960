use std::collections::HashMap;

use state_metrics::aggregate::{aggregate, Mean};
use state_metrics::batch::{combine_batch, BatchFailure, EntityValue, TaskReport};
use state_metrics::catalog::{
    resolve_cached, resolve_listing, CachedEntry, CatalogAction, CatalogError, CatalogEvent, CatalogState,
    ListingEntry,
};
use state_metrics::entity::{all_entities, entity_by_code, entity_by_name, ENTITY_COUNT};
use state_metrics::keys::cache_key;
use state_metrics::parks::{parks_per_state, Park};
use state_metrics::retry::{classify, Classified, FetchError, FetchStep, RetryPolicy};
use state_metrics::task::{Action, Event, TaskError, TaskState};

fn policy() -> RetryPolicy {
    RetryPolicy { base_delay_ms: 100, max_delay_ms: 1_000, max_attempts: 5 }
}

/// Runs one cache-first task against an in-memory cache and a scripted
/// transport; counts the requests made and records the sleeps.
fn drive(
    cache: &mut HashMap<String, String>,
    key: &str,
    script: &mut Vec<Result<(u16, String), ()>>,
    requests: &mut usize,
    sleeps: &mut Vec<u64>,
) -> Result<String, TaskError> {
    let p = policy();
    let mut state = TaskState::ReadingCache;
    let mut event = Event::CacheRead(cache.get(key).cloned());
    loop {
        let (next, action) = state.step(&p, event, 7);
        state = next;
        event = match action {
            Action::Request => {
                *requests += 1;
                match script.remove(0) {
                    Ok((status, body)) => Event::Response { status, body },
                    Err(()) => Event::TransportFailed,
                }
            }
            Action::Sleep { delay_ms } => {
                sleeps.push(delay_ms);
                Event::WaitOver
            }
            Action::Write(payload) => {
                cache.insert(key.to_string(), payload);
                Event::Stored(true)
            }
            Action::Complete(payload) => return Ok(payload),
            Action::Abort(err) => return Err(err),
            Action::Nothing => panic!("unexpected event"),
        };
    }
}

#[test]
fn aggregate_of_nothing_is_no_data() {
    assert_eq!(aggregate(&vec![]), None);
}

#[test]
fn aggregate_mean_of_three() {
    let m = aggregate(&vec![10, 20, 30]).unwrap();
    assert_eq!(m, Mean { sum: 60, count: 3 });
    assert_eq!(m.sum, 20 * m.count as i128);
}

#[test]
fn aggregate_single_value_is_itself() {
    for x in [i64::MIN, -5, 0, 42, i64::MAX] {
        assert_eq!(aggregate(&vec![x]), Some(Mean { sum: x as i128, count: 1 }));
    }
}

#[test]
fn aggregate_ignores_order() {
    assert_eq!(aggregate(&vec![3, -1, 8, 8]), aggregate(&vec![8, 3, 8, -1]));
}

#[test]
fn aggregate_zero_mean_is_data() {
    assert_eq!(aggregate(&vec![-4, 4]), Some(Mean { sum: 0, count: 2 }));
}

#[test]
fn aggregate_large_values_do_not_overflow() {
    let m = aggregate(&vec![i64::MAX, i64::MAX, i64::MAX]).unwrap();
    assert_eq!(m.sum, 3 * i64::MAX as i128);
}

#[test]
fn classify_statuses() {
    assert_eq!(classify(429), Classified::Transient);
    assert_eq!(classify(200), Classified::Success);
    assert_eq!(classify(204), Classified::Success);
    assert_eq!(classify(401), Classified::Permanent);
    assert_eq!(classify(500), Classified::Permanent);
    assert_eq!(classify(302), Classified::Permanent);
}

#[test]
fn backoff_delay_doubles_and_caps() {
    let p = policy();
    assert_eq!(p.backoff_delay(1, 0), 100);
    assert_eq!(p.backoff_delay(2, 0), 200);
    assert_eq!(p.backoff_delay(3, 0), 400);
    assert_eq!(p.backoff_delay(4, 0), 800);
    assert_eq!(p.backoff_delay(5, 0), 1_000);
    assert_eq!(p.backoff_delay(40, u64::MAX), 1_000);
}

#[test]
fn backoff_jitter_is_bounded() {
    let p = policy();
    assert_eq!(p.backoff_delay(1, 7), 107);
    assert_eq!(p.backoff_delay(1, 101), 100);
    assert_eq!(p.backoff_delay(1, 100), 200);
    assert_eq!(p.backoff_delay(4, 300), 1_000);
}

#[test]
fn decide_gives_up_after_last_attempt() {
    let p = policy();
    assert_eq!(p.decide(4, 429, 0), FetchStep::Retry { delay_ms: 800 });
    assert_eq!(
        p.decide(5, 429, 0),
        FetchStep::GiveUp(FetchError::RetriesExhausted { attempts: 5 })
    );
    assert_eq!(p.decide(1, 403, 0), FetchStep::GiveUp(FetchError::Rejected { status: 403 }));
    assert_eq!(p.decide(3, 200, 0), FetchStep::Deliver);
}

#[test]
fn transient_responses_then_success() {
    let mut cache = HashMap::new();
    let mut script = vec![
        Ok((429, String::new())),
        Ok((429, String::new())),
        Ok((429, String::new())),
        Ok((200, "payload".to_string())),
    ];
    let (mut requests, mut sleeps) = (0, Vec::new());
    let r = drive(&mut cache, "k", &mut script, &mut requests, &mut sleeps);
    assert_eq!(r, Ok("payload".to_string()));
    assert_eq!(requests, 4);
    assert_eq!(sleeps, vec![107, 207, 407]);
    assert!(sleeps.windows(2).all(|w| w[0] <= w[1]));
    assert!(sleeps.iter().all(|d| *d <= 1_000));
}

#[test]
fn too_many_transient_responses_fail() {
    let mut cache = HashMap::new();
    let mut script: Vec<Result<(u16, String), ()>> = (0..6).map(|_| Ok((429, String::new()))).collect();
    let (mut requests, mut sleeps) = (0, Vec::new());
    let r = drive(&mut cache, "k", &mut script, &mut requests, &mut sleeps);
    assert_eq!(r, Err(TaskError::Fetch(FetchError::RetriesExhausted { attempts: 5 })));
    assert_eq!(requests, 5);
    assert_eq!(sleeps.len(), 4);
    assert!(cache.is_empty());
}

#[test]
fn cached_payload_needs_no_request() {
    let mut cache = HashMap::new();
    cache.insert("k".to_string(), "stored".to_string());
    let mut script = Vec::new();
    let (mut requests, mut sleeps) = (0, Vec::new());
    let r = drive(&mut cache, "k", &mut script, &mut requests, &mut sleeps);
    assert_eq!(r, Ok("stored".to_string()));
    assert_eq!(requests, 0);
}

#[test]
fn permanent_failure_is_not_retried() {
    let mut cache = HashMap::new();
    let mut script = vec![Ok((401, String::new())), Ok((200, "late".to_string()))];
    let (mut requests, mut sleeps) = (0, Vec::new());
    let r = drive(&mut cache, "k", &mut script, &mut requests, &mut sleeps);
    assert_eq!(r, Err(TaskError::Fetch(FetchError::Rejected { status: 401 })));
    assert_eq!(requests, 1);
    assert!(sleeps.is_empty());
}

#[test]
fn transport_failure_is_permanent() {
    let mut cache = HashMap::new();
    let mut script = vec![Err(())];
    let (mut requests, mut sleeps) = (0, Vec::new());
    let r = drive(&mut cache, "k", &mut script, &mut requests, &mut sleeps);
    assert_eq!(r, Err(TaskError::Fetch(FetchError::Transport)));
}

#[test]
fn failed_cache_write_fails_task() {
    let p = policy();
    let (s, a) = TaskState::ReadingCache.step(&p, Event::CacheRead(None), 0);
    assert!(matches!(a, Action::Request));
    let (s, a) = s.step(&p, Event::Response { status: 200, body: "x".to_string() }, 0);
    assert!(matches!(a, Action::Write(ref w) if w == "x"));
    let (s, a) = s.step(&p, Event::Stored(false), 0);
    assert!(matches!(a, Action::Abort(TaskError::CacheWrite)));
    assert!(matches!(s, TaskState::Failed(TaskError::CacheWrite)));
}

#[test]
fn unexpected_event_changes_nothing() {
    let p = policy();
    let (s, a) = TaskState::ReadingCache.step(&p, Event::WaitOver, 0);
    assert!(matches!(a, Action::Nothing));
    assert!(matches!(s, TaskState::ReadingCache));
}

#[test]
fn batch_fails_but_keeps_sibling_cache() {
    let ca = entity_by_code("CA").unwrap();
    let nv = entity_by_code("NV").unwrap();
    let mut cache = HashMap::new();
    let (mut requests, mut sleeps) = (0, Vec::new());
    let mut ok_script = vec![Ok((200, "ca-payload".to_string()))];
    let a = drive(&mut cache, "FIPS:06_ANN", &mut ok_script, &mut requests, &mut sleeps);
    let mut bad_script = vec![Ok((500, String::new()))];
    let b = drive(&mut cache, "FIPS:32_ANN", &mut bad_script, &mut requests, &mut sleeps);
    let reports = vec![
        TaskReport { entity: ca, outcome: a.map(|_| vec![60, 62]) },
        TaskReport { entity: nv, outcome: b.map(|_| vec![50]) },
    ];
    let r = combine_batch(&reports);
    assert_eq!(
        r,
        Err(BatchFailure {
            entity: nv,
            error: TaskError::Fetch(FetchError::Rejected { status: 500 })
        })
    );
    assert_eq!(cache.get("FIPS:06_ANN"), Some(&"ca-payload".to_string()));
    let mut retry_requests = 0;
    let mut empty = Vec::new();
    let again = drive(&mut cache, "FIPS:06_ANN", &mut empty, &mut retry_requests, &mut sleeps);
    assert_eq!(again, Ok("ca-payload".to_string()));
    assert_eq!(retry_requests, 0);
}

#[test]
fn batch_reports_first_failure() {
    let al = entity_by_code("AL").unwrap();
    let ak = entity_by_code("AK").unwrap();
    let az = entity_by_code("AZ").unwrap();
    let reports = vec![
        TaskReport { entity: al, outcome: Ok(vec![1]) },
        TaskReport { entity: ak, outcome: Err(TaskError::CacheWrite) },
        TaskReport { entity: az, outcome: Err(TaskError::Fetch(FetchError::Transport)) },
    ];
    assert_eq!(
        combine_batch(&reports),
        Err(BatchFailure { entity: ak, error: TaskError::CacheWrite })
    );
}

#[test]
fn batch_success_aggregates_each_entity() {
    let al = entity_by_code("AL").unwrap();
    let ak = entity_by_code("AK").unwrap();
    let reports = vec![
        TaskReport { entity: al, outcome: Ok(vec![10, 20, 30]) },
        TaskReport { entity: ak, outcome: Ok(vec![]) },
    ];
    assert_eq!(
        combine_batch(&reports),
        Ok(vec![
            EntityValue { entity: al, value: Some(Mean { sum: 60, count: 3 }) },
            EntityValue { entity: ak, value: None },
        ])
    );
    assert_eq!(combine_batch(&vec![]), Ok(vec![]));
}

#[test]
fn rerun_with_failing_transport_is_identical() {
    let keys = ["FIPS:01_ANN", "FIPS:02_ANN"];
    let mut cache = HashMap::new();
    let (mut requests, mut sleeps) = (0, Vec::new());
    let mut script = vec![
        Ok((429, String::new())),
        Ok((200, "p1".to_string())),
        Ok((200, "p2".to_string())),
    ];
    let first: Vec<_> = keys
        .iter()
        .map(|k| drive(&mut cache, k, &mut script, &mut requests, &mut sleeps))
        .collect();
    let mut failing: Vec<Result<(u16, String), ()>> = vec![Err(()), Err(())];
    let mut second_requests = 0;
    let second: Vec<_> = keys
        .iter()
        .map(|k| drive(&mut cache, k, &mut failing, &mut second_requests, &mut sleeps))
        .collect();
    assert_eq!(first, second);
    assert_eq!(second_requests, 0);
    let al = entity_by_code("AL").unwrap();
    let report = |r: &Result<String, TaskError>| TaskReport {
        entity: al,
        outcome: r.clone().map(|p| vec![p.len() as i64]),
    };
    let a: Vec<_> = first.iter().map(report).collect();
    let b: Vec<_> = second.iter().map(report).collect();
    assert_eq!(combine_batch(&a), combine_batch(&b));
}

#[test]
fn lookup_names_and_codes() {
    let ca = entity_by_name("California").unwrap();
    assert_eq!(ca.code(), "CA");
    assert_eq!(ca.name(), "California");
    assert_eq!(entity_by_code("DC").unwrap().name(), "District of Columbia");
    assert_eq!(entity_by_name("Puerto Rico"), None);
    assert_eq!(entity_by_name("california"), None);
    assert_eq!(entity_by_code("XX"), None);
    assert_eq!(entity_by_name(""), None);
}

#[test]
fn all_entities_are_distinct() {
    let all = all_entities();
    assert_eq!(all.len(), ENTITY_COUNT);
    assert_eq!(ENTITY_COUNT, 51);
    for (i, e) in all.iter().enumerate() {
        assert_eq!(entity_by_code(e.code()), Some(*e));
        assert_eq!(entity_by_name(e.name()), Some(*e));
        for f in all.iter().skip(i + 1) {
            assert_ne!(e.code(), f.code());
        }
    }
}

fn listing(name: &str, id: &str) -> ListingEntry {
    ListingEntry { name: name.to_string(), provider_id: id.to_string() }
}

#[test]
fn listing_drops_unknown_names() {
    let entries = vec![
        listing("Alabama", "FIPS:01"),
        listing("Puerto Rico", "FIPS:72"),
        listing("Wyoming", "FIPS:56"),
    ];
    let catalog = resolve_listing(&entries);
    assert_eq!(catalog.len(), 2);
    assert_eq!(catalog[0].provider_id, "FIPS:01");
    assert_eq!(catalog[0].entity.code(), "AL");
    assert_eq!(catalog[1].provider_id, "FIPS:56");
    assert_eq!(catalog[1].entity.code(), "WY");
}

#[test]
fn listing_of_only_unknown_names_is_empty() {
    let entries = vec![listing("Guam", "FIPS:66"), listing("", "x")];
    assert!(resolve_listing(&entries).is_empty());
    assert!(resolve_listing(&vec![]).is_empty());
}

#[test]
fn cached_catalog_round_trip() {
    let cached = vec![
        CachedEntry { provider_id: "FIPS:06".to_string(), code: "CA".to_string() },
        CachedEntry { provider_id: "FIPS:11".to_string(), code: "DC".to_string() },
    ];
    let catalog = resolve_cached(&cached).unwrap();
    assert_eq!(catalog.len(), 2);
    assert_eq!(catalog[0].entity.name(), "California");
    assert_eq!(catalog[1].provider_id, "FIPS:11");
}

#[test]
fn cached_catalog_with_unknown_code_is_rejected() {
    let cached = vec![
        CachedEntry { provider_id: "FIPS:06".to_string(), code: "CA".to_string() },
        CachedEntry { provider_id: "FIPS:72".to_string(), code: "PR".to_string() },
    ];
    assert!(resolve_cached(&cached).is_none());
}

#[test]
fn cache_keys_join_entity_and_metric() {
    assert_eq!(cache_key("FIPS:06", "ANN-TAVG-NORMAL"), "FIPS:06_ANN-TAVG-NORMAL");
    assert_eq!(cache_key("", ""), "_");
    assert_ne!(cache_key("FIPS:06", "DJF-TAVG-NORMAL"), cache_key("FIPS:07", "DJF-TAVG-NORMAL"));
}

fn park(states: &str, code: &str) -> Park {
    Park { states: states.to_string(), park_code: code.to_string(), designation: String::new() }
}

#[test]
fn park_states_split_at_commas() {
    assert_eq!(park("CA,NV", "deva").get_states(), vec!["CA", "NV"]);
    assert_eq!(park("WY", "yell").get_states(), vec!["WY"]);
    assert_eq!(park("", "none").get_states(), vec![""]);
    assert_eq!(park("ID,,MT,", "x").get_states(), vec!["ID", "", "MT", ""]);
}

#[test]
fn parks_counted_once_per_state() {
    let parks = vec![
        park("CA,NV", "deva"),
        park("CA", "yose"),
        park("CA", "yose"),
        park("WY,MT,ID", "yell"),
        park("PR", "saju"),
    ];
    let counts = parks_per_state(&parks);
    assert_eq!(counts.len(), 51);
    let count_of = |code: &str| counts.iter().find(|c| c.entity.code() == code).unwrap().count;
    assert_eq!(count_of("CA"), 2);
    assert_eq!(count_of("NV"), 1);
    assert_eq!(count_of("MT"), 1);
    assert_eq!(count_of("TX"), 0);
    let total: usize = counts.iter().map(|c| c.count).sum();
    assert_eq!(total, 6);
}

#[test]
fn malformed_payload_fails_batch() {
    let tx = entity_by_code("TX").unwrap();
    let reports = vec![TaskReport { entity: tx, outcome: Err(TaskError::Malformed) }];
    assert_eq!(combine_batch(&reports), Err(BatchFailure { entity: tx, error: TaskError::Malformed }));
}

#[test]
fn cache_keys_escape_separator() {
    assert_eq!(cache_key("A_B", "C"), "A\\_B_C");
    assert_eq!(cache_key("A\\", "C"), "A\\\\_C");
    assert_ne!(cache_key("A_B", "C"), cache_key("A", "B_C"));
    assert_ne!(cache_key("A\\", "_C"), cache_key("A", "\\_C"));
}

#[test]
fn listing_keeps_each_id_once_last_wins() {
    let entries = vec![
        listing("Alabama", "FIPS:01"),
        listing("Texas", "FIPS:48"),
        listing("Alaska", "FIPS:01"),
        listing("Guam", "FIPS:01"),
    ];
    let catalog = resolve_listing(&entries);
    assert_eq!(catalog.len(), 2);
    assert_eq!(catalog[0].provider_id, "FIPS:01");
    assert_eq!(catalog[0].entity.code(), "AK");
    assert_eq!(catalog[1].entity.code(), "TX");
}

#[test]
fn catalog_uses_valid_cache_without_listing() {
    let cached = vec![CachedEntry { provider_id: "FIPS:06".to_string(), code: "CA".to_string() }];
    let (s, a) = CatalogState::ReadingCache.step(CatalogEvent::CacheRead(Some(cached)));
    assert!(matches!(s, CatalogState::Finished));
    match a {
        CatalogAction::Complete(c) => {
            assert_eq!(c.len(), 1);
            assert_eq!(c[0].entity.code(), "CA");
        }
        other => panic!("unexpected {:?}", other),
    }
}

#[test]
fn catalog_lists_on_miss_or_invalid_cache() {
    let (s, a) = CatalogState::ReadingCache.step(CatalogEvent::CacheRead(None));
    assert!(matches!(s, CatalogState::Listing));
    assert!(matches!(a, CatalogAction::RequestListing));
    let bad = vec![CachedEntry { provider_id: "FIPS:72".to_string(), code: "PR".to_string() }];
    let (_, a) = CatalogState::ReadingCache.step(CatalogEvent::CacheRead(Some(bad)));
    assert!(matches!(a, CatalogAction::RequestListing));
}

#[test]
fn catalog_listing_is_stored_before_completion() {
    let listed = CatalogEvent::Listed {
        status: 200,
        listing: vec![listing("Ohio", "FIPS:39"), listing("Guam", "FIPS:66")],
    };
    let (s, a) = CatalogState::Listing.step(listed);
    match a {
        CatalogAction::Write(w) => {
            assert_eq!(w.len(), 1);
            assert_eq!(w[0].provider_id, "FIPS:39");
            assert_eq!(w[0].code, "OH");
        }
        other => panic!("unexpected {:?}", other),
    }
    let (s, a) = s.step(CatalogEvent::Stored(true));
    assert!(matches!(s, CatalogState::Finished));
    match a {
        CatalogAction::Complete(c) => assert_eq!(c[0].entity.name(), "Ohio"),
        other => panic!("unexpected {:?}", other),
    }
}

#[test]
fn catalog_failures() {
    let (_, a) = CatalogState::Listing.step(CatalogEvent::Listed { status: 429, listing: vec![] });
    assert!(matches!(a, CatalogAction::Abort(CatalogError::RateLimited)));
    let (_, a) = CatalogState::Listing.step(CatalogEvent::Listed { status: 401, listing: vec![] });
    assert!(matches!(a, CatalogAction::Abort(CatalogError::Rejected { status: 401 })));
    let (_, a) = CatalogState::Listing.step(CatalogEvent::ListingFailed);
    assert!(matches!(a, CatalogAction::Abort(CatalogError::Transport)));
    let (s, _) = CatalogState::Listing.step(CatalogEvent::Listed { status: 200, listing: vec![] });
    let (_, a) = s.step(CatalogEvent::Stored(false));
    assert!(matches!(a, CatalogAction::Abort(CatalogError::CacheWrite)));
    let (s, a) = CatalogState::Finished.step(CatalogEvent::ListingFailed);
    assert!(matches!(s, CatalogState::Finished));
    assert!(matches!(a, CatalogAction::Nothing));
}
