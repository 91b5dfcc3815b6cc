use local_memory::config::Config;
use local_memory::storage::tier::current_timestamp;
use local_memory::storage::tier::duration_to_expiration;
use local_memory::storage::tier::expiration_after;
use local_memory::storage::tier::is_expired;
use local_memory::storage::tier::is_expired_at;
use local_memory::storage::tier::timestamp_from;
use local_memory::storage::tier::MemoryTier;
use local_memory::storage::TierConfig;
use std::time::Duration;
use std::time::UNIX_EPOCH;

#[test]
fn test_tier_from_str() {
    assert_eq!(MemoryTier::from_str("episodic").unwrap(), MemoryTier::Episodic);
    assert_eq!(MemoryTier::from_str("EPISODIC").unwrap(), MemoryTier::Episodic);
    assert_eq!(MemoryTier::from_str("semantic").unwrap(), MemoryTier::Semantic);
    assert!(MemoryTier::from_str("invalid").is_err());
}

#[test]
fn test_tier_default() {
    assert_eq!(MemoryTier::default(), MemoryTier::Semantic);
}

#[test]
fn test_tier_config_default() {
    let config = TierConfig::default();
    assert_eq!(config.default_tier, MemoryTier::Semantic);
    assert_eq!(config.default_episodic_ttl_seconds, Some(3600));
}

#[test]
fn tier_test_tier_config_default() {
    let config = local_memory::config::TierConfig::default();
    assert_eq!(config.default_tier, local_memory::config::MemoryTier::Semantic);
    assert_eq!(config.default_episodic_ttl_seconds, Some(3600));
}

#[test]
fn tier_test_test_tier_config_default() {
    let config = Config::default().tier;
    assert_eq!(config.default_tier, MemoryTier::Semantic);
    assert_eq!(config.default_episodic_ttl_seconds, Some(3600));
}

#[test]
fn test_expiration_check() {
    // No expiration means not expired
    assert!(!is_expired(None));

    // Past timestamp means expired
    let past = current_timestamp() - 1000;
    assert!(is_expired(Some(past)));

    // Future timestamp means not expired
    let future = current_timestamp() + 1000;
    assert!(!is_expired(Some(future)));
}

#[test]
fn test_duration_to_expiration() {
    let duration = Duration::from_secs(60);
    let expiration = duration_to_expiration(duration);
    let now = current_timestamp();
    assert!(expiration >= now + 60 && expiration <= now + 61);
}

#[test]
fn test_is_expired_helper() {
    assert!(!is_expired(None));

    let past = current_timestamp() - 1000;
    assert!(is_expired(Some(past)));

    let future = current_timestamp() + 1000;
    assert!(!is_expired(Some(future)));
}

#[test]
fn tier_from_str_ignores_case_and_nothing_else() {
    assert_eq!(MemoryTier::from_str("Semantic"), Ok(MemoryTier::Semantic));
    assert_eq!(MemoryTier::from_str("sEmAnTiC"), Ok(MemoryTier::Semantic));
    assert_eq!(MemoryTier::from_str("Episodic"), Ok(MemoryTier::Episodic));
    assert_eq!(
        MemoryTier::from_str("invalid"),
        Err("Invalid memory tier: invalid".to_string())
    );
    assert_eq!(MemoryTier::from_str(""), Err("Invalid memory tier: ".to_string()));
    assert_eq!(
        MemoryTier::from_str(" semantic"),
        Err("Invalid memory tier:  semantic".to_string())
    );
    assert_eq!(
        MemoryTier::from_str("SEMANTICS"),
        Err("Invalid memory tier: SEMANTICS".to_string())
    );
}

#[test]
fn tier_from_lowercase_is_exact() {
    assert_eq!(MemoryTier::from_lowercase("episodic"), Some(MemoryTier::Episodic));
    assert_eq!(MemoryTier::from_lowercase("semantic"), Some(MemoryTier::Semantic));
    assert_eq!(MemoryTier::from_lowercase("EPISODIC"), None);
    assert_eq!(MemoryTier::from_lowercase(""), None);
}

#[test]
fn tier_names_are_lower_case() {
    assert_eq!(MemoryTier::Episodic.name(), "episodic");
    assert_eq!(MemoryTier::Semantic.name(), "semantic");
    assert_eq!(MemoryTier::from_str(&MemoryTier::Episodic.name()), Ok(MemoryTier::Episodic));
    assert_eq!(MemoryTier::from_str(&MemoryTier::Semantic.name()), Ok(MemoryTier::Semantic));
}

#[test]
fn expiry_is_reached_at_the_stated_second() {
    assert!(!is_expired_at(None, 0));
    assert!(!is_expired_at(None, u64::MAX));
    assert!(!is_expired_at(Some(1000), 999));
    assert!(is_expired_at(Some(1000), 1000));
    assert!(is_expired_at(Some(1000), 1001));
    assert!(is_expired_at(Some(0), 0));
    assert!(is_expired(Some(0)));
    assert!(!is_expired(Some(u64::MAX)));
}

#[test]
fn expiration_adds_the_lifetime() {
    assert_eq!(expiration_after(1000, 60), 1060);
    assert_eq!(expiration_after(0, 0), 0);
    assert_eq!(expiration_after(u64::MAX - 5, 5), u64::MAX);
    assert_eq!(expiration_after(u64::MAX - 5, 6), u64::MAX);
    assert_eq!(expiration_after(u64::MAX, u64::MAX), u64::MAX);
}

#[test]
fn the_clock_reads_after_the_epoch_and_does_not_run_backwards_much() {
    let first = current_timestamp();
    let second = current_timestamp();
    assert!(first > 1_600_000_000);
    assert!(second >= first && second <= first + 5);
}

#[test]
fn a_reading_of_the_clock_becomes_a_timestamp() {
    assert_eq!(timestamp_from(Ok(Duration::from_secs(60))), 60);
    assert_eq!(timestamp_from(Ok(Duration::from_millis(1999))), 1);
    assert_eq!(timestamp_from(Ok(Duration::ZERO)), 0);
    assert_eq!(timestamp_from(Ok(Duration::from_secs(u64::MAX))), u64::MAX);
    let before_the_epoch = UNIX_EPOCH.duration_since(UNIX_EPOCH + Duration::from_secs(5));
    assert!(before_the_epoch.is_err());
    assert_eq!(timestamp_from(before_the_epoch), 0);
}
