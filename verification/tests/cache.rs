use shared_redis::cache::CacheManager;
use shared_redis::cache::CachedResponse;
use shared_redis::cache::Timestamp;
use shared_redis::protocol::Event;
use shared_redis::protocol::Outcome;
use shared_redis::protocol::Request;
use shared_redis::protocol::Step;
use shared_redis::protocol::Waiting;

fn keys(names: &[&str]) -> Vec<String> {
    names.iter().map(|name| name.to_string()).collect()
}

fn outcome(step: Step) -> Outcome {
    match step {
        Step::Finish(outcome) => outcome,
        Step::Ask { request, .. } => panic!("unexpected request {:?}", request),
    }
}

#[test]
fn manager_remembers_its_settings() {
    let manager = CacheManager::new(true, 90);
    assert!(manager.is_available());
    assert_eq!(manager.ttl_seconds(), 90);
    assert!(!CacheManager::new(false, 90).is_available());
}

#[test]
fn envelope_keeps_what_it_is_given() {
    let at = Timestamp { secs: 1_700_000_000, nanos: 5 };
    let envelope = CachedResponse::new(vec![1, 2, 3], "k".to_string(), at);
    assert_eq!(envelope.data, vec![1, 2, 3]);
    assert_eq!(envelope.cache_key, "k");
    assert_eq!(envelope.cached_at, at);
}

#[test]
fn cache_response_wraps_the_value_under_the_key_of_the_request() {
    let manager = CacheManager::new(false, 60);
    let at = Timestamp { secs: 1_700_000_000, nanos: 999_999_999 };
    let envelope = manager.cache_response("p", "abc", 7u8, at);
    assert_eq!(envelope.data, 7);
    assert_eq!(envelope.cached_at, at);
    assert_eq!(
        envelope.cache_key,
        "p:ba7816bf8f01cfea414140de5dae2223b00361a396177a9cb410ff61f20015ad"
    );
    assert_eq!(envelope.cache_key, CacheManager::generate_cache_key("p", "abc"));
}

#[test]
fn disabled_store_ends_every_operation_at_once() {
    let manager = CacheManager::new(false, 60);
    for key in ["", "k", "user:1", "\u{e9}"] {
        assert!(matches!(manager.get(key), Step::Finish(Outcome::Miss)));
        assert!(matches!(
            manager.set(key, "{}".to_string()),
            Step::Finish(Outcome::Stored(false))
        ));
        assert!(matches!(manager.delete(key), Step::Finish(Outcome::Removed(false))));
        assert!(matches!(
            manager.get_cached_response("p", key),
            Step::Finish(Outcome::Miss)
        ));
    }
    assert!(matches!(manager.clear_pattern("*"), Step::Finish(Outcome::Cleared(0))));
}

#[test]
fn disabled_store_reports_that_it_is_unavailable() {
    match outcome(CacheManager::new(false, 60).get_cache_info()) {
        Outcome::Stats(table) => {
            assert_eq!(table.len(), 1);
            assert_eq!(table.get("status"), Some(&"unavailable".to_string()));
        }
        other => panic!("unexpected outcome {:?}", other),
    }
}

#[test]
fn get_asks_for_the_key() {
    match CacheManager::new(true, 60).get("k") {
        Step::Ask { request: Request::Get { key }, waiting: Waiting::Fetch { key: kept } } => {
            assert_eq!(key, "k");
            assert_eq!(kept, "k");
        }
        other => panic!("unexpected step {:?}", other),
    }
}

#[test]
fn get_cached_response_asks_for_the_key_of_the_request() {
    match CacheManager::new(true, 60).get_cached_response("p", "abc") {
        Step::Ask { request: Request::Get { key }, waiting: Waiting::Fetch { .. } } => {
            assert_eq!(key, "p:ba7816bf8f01cfea414140de5dae2223b00361a396177a9cb410ff61f20015ad");
        }
        other => panic!("unexpected step {:?}", other),
    }
}

#[test]
fn set_asks_to_store_with_the_configured_lifetime() {
    match CacheManager::new(true, 3600).set("k", "{\"data\":1}".to_string()) {
        Step::Ask { request: Request::SetEx { key, value, seconds }, waiting: Waiting::Store } => {
            assert_eq!(key, "k");
            assert_eq!(value, "{\"data\":1}");
            assert_eq!(seconds, 3600);
        }
        other => panic!("unexpected step {:?}", other),
    }
}

#[test]
fn delete_asks_to_delete_the_key() {
    match CacheManager::new(true, 60).delete("k") {
        Step::Ask { request: Request::Del { key }, waiting: Waiting::Remove } => {
            assert_eq!(key, "k");
        }
        other => panic!("unexpected step {:?}", other),
    }
}

#[test]
fn clear_pattern_asks_for_the_matching_keys() {
    match CacheManager::new(true, 60).clear_pattern("bulk_*") {
        Step::Ask { request: Request::Keys { pattern }, waiting: Waiting::List } => {
            assert_eq!(pattern, "bulk_*");
        }
        other => panic!("unexpected step {:?}", other),
    }
}

#[test]
fn get_cache_info_asks_for_the_report() {
    assert!(matches!(
        CacheManager::new(true, 60).get_cache_info(),
        Step::Ask { request: Request::InfoMemory, waiting: Waiting::Info }
    ));
}

#[test]
fn fetched_text_is_handed_to_the_decoder() {
    let step = CacheManager::resume(
        Waiting::Fetch { key: "k".to_string() },
        Event::Text("{\"data\":1}".to_string()),
    );
    match step {
        Step::Ask { request: Request::Decode { text }, waiting: Waiting::Decode { key } } => {
            assert_eq!(text, "{\"data\":1}");
            assert_eq!(key, "k");
        }
        other => panic!("unexpected step {:?}", other),
    }
}

#[test]
fn fetched_bytes_that_are_no_text_are_deleted() {
    let step = CacheManager::resume(Waiting::Fetch { key: "k".to_string() }, Event::Unreadable);
    match step {
        Step::Ask { request: Request::Del { key }, waiting: Waiting::Purge } => {
            assert_eq!(key, "k");
        }
        other => panic!("unexpected step {:?}", other),
    }
}

#[test]
fn store_response_stores_under_the_key_of_the_envelope() {
    let manager = CacheManager::new(true, 45);
    let at = Timestamp { secs: 3, nanos: 4 };
    let envelope = manager.cache_response("p", "abc", 7u8, at);
    match manager.store_response(&envelope, "{\"data\":7}".to_string()) {
        Step::Ask { request: Request::SetEx { key, value, seconds }, waiting: Waiting::Store } => {
            assert_eq!(key, "p:ba7816bf8f01cfea414140de5dae2223b00361a396177a9cb410ff61f20015ad");
            assert_eq!(value, "{\"data\":7}");
            assert_eq!(seconds, 45);
        }
        other => panic!("unexpected step {:?}", other),
    }
    assert!(matches!(
        CacheManager::new(false, 45).store_response(&envelope, "{}".to_string()),
        Step::Finish(Outcome::Stored(false))
    ));
}

#[test]
fn fetch_that_finds_nothing_is_a_miss() {
    let events =
        [Event::Failed, Event::Done, Event::Count(1), Event::Keys(keys(&["k"])), Event::Decoded(true)];
    for event in events {
        let step = CacheManager::resume(Waiting::Fetch { key: "k".to_string() }, event);
        assert!(matches!(step, Step::Finish(Outcome::Miss)));
    }
}

#[test]
fn decoded_text_is_a_hit() {
    let step = CacheManager::resume(Waiting::Decode { key: "k".to_string() }, Event::Decoded(true));
    assert!(matches!(step, Step::Finish(Outcome::Hit)));
}

#[test]
fn text_that_does_not_decode_is_deleted() {
    let step = CacheManager::resume(Waiting::Decode { key: "k".to_string() }, Event::Decoded(false));
    match step {
        Step::Ask { request: Request::Del { key }, waiting: Waiting::Purge } => {
            assert_eq!(key, "k");
        }
        other => panic!("unexpected step {:?}", other),
    }
}

#[test]
fn decode_without_a_verdict_is_a_miss() {
    for event in [Event::Failed, Event::Unreadable, Event::Text("x".to_string())] {
        let step = CacheManager::resume(Waiting::Decode { key: "k".to_string() }, event);
        assert!(matches!(step, Step::Finish(Outcome::Miss)));
    }
}

#[test]
fn purge_ends_in_a_miss_whatever_the_store_says() {
    for event in [Event::Count(1), Event::Count(0), Event::Failed] {
        assert!(matches!(
            CacheManager::resume(Waiting::Purge, event),
            Step::Finish(Outcome::Miss)
        ));
    }
}

#[test]
fn store_succeeds_when_the_store_is_done() {
    assert!(matches!(
        CacheManager::resume(Waiting::Store, Event::Done),
        Step::Finish(Outcome::Stored(true))
    ));
    assert!(matches!(
        CacheManager::resume(Waiting::Store, Event::Failed),
        Step::Finish(Outcome::Stored(false))
    ));
}

#[test]
fn remove_succeeds_when_an_entry_is_gone() {
    assert!(matches!(
        CacheManager::resume(Waiting::Remove, Event::Count(1)),
        Step::Finish(Outcome::Removed(true))
    ));
    assert!(matches!(
        CacheManager::resume(Waiting::Remove, Event::Count(3)),
        Step::Finish(Outcome::Removed(true))
    ));
    assert!(matches!(
        CacheManager::resume(Waiting::Remove, Event::Count(0)),
        Step::Finish(Outcome::Removed(false))
    ));
    assert!(matches!(
        CacheManager::resume(Waiting::Remove, Event::Failed),
        Step::Finish(Outcome::Removed(false))
    ));
}

#[test]
fn listing_that_fails_or_is_empty_clears_nothing() {
    assert!(matches!(
        CacheManager::resume(Waiting::List, Event::Failed),
        Step::Finish(Outcome::Cleared(0))
    ));
    assert!(matches!(
        CacheManager::resume(Waiting::List, Event::Keys(Vec::new())),
        Step::Finish(Outcome::Cleared(0))
    ));
}

#[test]
fn sweep_deletes_the_listed_keys_in_order_and_adds_the_counts() {
    let mut step = CacheManager::resume(Waiting::List, Event::Keys(keys(&["a", "b", "c"])));
    let mut asked = Vec::new();
    let answers = [Event::Count(1), Event::Failed, Event::Count(1)];
    for answer in answers {
        match step {
            Step::Ask { request: Request::Del { key }, waiting } => {
                asked.push(key);
                step = CacheManager::resume(waiting, answer);
            }
            other => panic!("unexpected step {:?}", other),
        }
    }
    assert_eq!(asked, keys(&["a", "b", "c"]));
    assert!(matches!(step, Step::Finish(Outcome::Cleared(2))));
}

#[test]
fn sweep_count_stops_at_the_highest_number() {
    let waiting = Waiting::Sweep { keys: keys(&["a"]), next: 0, deleted: u32::MAX - 1 };
    assert!(matches!(
        CacheManager::resume(waiting, Event::Count(5)),
        Step::Finish(Outcome::Cleared(u32::MAX))
    ));
}

#[test]
fn sweep_past_the_last_key_ends() {
    let waiting = Waiting::Sweep { keys: keys(&["a"]), next: 7, deleted: 2 };
    assert!(matches!(
        CacheManager::resume(waiting, Event::Count(1)),
        Step::Finish(Outcome::Cleared(3))
    ));
}

#[test]
fn report_is_read_into_a_table() {
    let step = CacheManager::resume(
        Waiting::Info,
        Event::Text("# Memory\r\nused_memory:2048\r\nmaxmemory_policy:noeviction\r\n".to_string()),
    );
    match outcome(step) {
        Outcome::Stats(table) => {
            assert_eq!(table.len(), 2);
            assert_eq!(table.get("used_memory"), Some(&"2048".to_string()));
            assert_eq!(table.get("maxmemory_policy"), Some(&"noeviction".to_string()));
        }
        other => panic!("unexpected outcome {:?}", other),
    }
}

#[test]
fn report_that_cannot_be_had_is_empty() {
    match outcome(CacheManager::resume(Waiting::Info, Event::Failed)) {
        Outcome::Stats(table) => assert_eq!(table.len(), 0),
        other => panic!("unexpected outcome {:?}", other),
    }
}
