use shared_redis::config::connection_plan;
use shared_redis::config::get_cache_ttl;
use shared_redis::config::is_cache_enabled;
use shared_redis::config::reads_true;
use shared_redis::config::seconds_or;
use shared_redis::config::ConnectPlan;
use shared_redis::config::ENV_CACHE_ENABLED;
use shared_redis::config::ENV_CACHE_TTL_SECONDS;
use shared_redis::config::ENV_REDIS_URL;
use shared_redis::operations::idempotent_expiry;
use shared_redis::operations::ENV_IDEMPOTENT_EXPIRY;

#[test]
fn variable_names() {
    assert_eq!(ENV_REDIS_URL, "REDIS_URL");
    assert_eq!(ENV_CACHE_ENABLED, "CACHE_ENABLED");
    assert_eq!(ENV_CACHE_TTL_SECONDS, "CACHE_TTL_SECONDS");
    assert_eq!(ENV_IDEMPOTENT_EXPIRY, "IDEMPOTENT_EXPIRY_IN_SEC");
}

#[test]
fn caching_is_on_by_default() {
    assert!(is_cache_enabled(None));
}

#[test]
fn caching_is_on_for_true_in_any_case() {
    assert!(is_cache_enabled(Some("true")));
    assert!(is_cache_enabled(Some("TRUE")));
    assert!(is_cache_enabled(Some("True")));
    assert!(is_cache_enabled(Some("tRuE")));
}

#[test]
fn caching_is_off_for_anything_else() {
    assert!(!is_cache_enabled(Some("false")));
    assert!(!is_cache_enabled(Some("")));
    assert!(!is_cache_enabled(Some("1")));
    assert!(!is_cache_enabled(Some("yes")));
    assert!(!is_cache_enabled(Some(" true")));
    assert!(!is_cache_enabled(Some("truest")));
}

#[test]
fn reads_true_is_exact() {
    assert!(reads_true("true"));
    assert!(!reads_true("TRUE"));
    assert!(!reads_true("tru"));
    assert!(!reads_true("true "));
    assert!(!reads_true(""));
}

#[test]
fn ttl_defaults_to_an_hour() {
    assert_eq!(get_cache_ttl(None), 3600);
    assert_eq!(get_cache_ttl(Some("")), 3600);
    assert_eq!(get_cache_ttl(Some("soon")), 3600);
    assert_eq!(get_cache_ttl(Some("-5")), 3600);
    assert_eq!(get_cache_ttl(Some("18446744073709551616")), 3600);
}

#[test]
fn ttl_is_the_configured_number() {
    assert_eq!(get_cache_ttl(Some("60")), 60);
    assert_eq!(get_cache_ttl(Some("+90")), 90);
    assert_eq!(get_cache_ttl(Some("0")), 0);
    assert_eq!(get_cache_ttl(Some("18446744073709551615")), u64::MAX);
}

#[test]
fn seconds_or_falls_back() {
    assert_eq!(seconds_or(None, 7), 7);
    assert_eq!(seconds_or(Some("x"), 7), 7);
    assert_eq!(seconds_or(Some("8"), 7), 8);
}

#[test]
fn idempotent_expiry_defaults_to_two_minutes() {
    assert_eq!(idempotent_expiry(None), 120);
    assert_eq!(idempotent_expiry(Some("nope")), 120);
    assert_eq!(idempotent_expiry(Some("30")), 30);
}

#[test]
fn no_connection_while_caching_is_off() {
    assert!(matches!(connection_plan(false, None), ConnectPlan::Disabled));
    assert!(matches!(
        connection_plan(false, Some("redis://h:1".to_string())),
        ConnectPlan::Disabled
    ));
}

#[test]
fn no_connection_without_a_uri() {
    assert!(matches!(connection_plan(true, None), ConnectPlan::Unconfigured));
}

#[test]
fn connects_to_the_configured_uri() {
    match connection_plan(true, Some("redis://h:1".to_string())) {
        ConnectPlan::Connect(uri) => assert_eq!(uri, "redis://h:1"),
        other => panic!("unexpected plan {:?}", other),
    }
}
