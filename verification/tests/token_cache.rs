use salesforce_exporter::token_cache::{
    cache_dir, now_plus_ttl, CacheBase, CachedToken, TokenCache, TokenStep, CACHE_TTL_SECS,
    TOKEN_FILE,
};

fn token(access_token: &str, expires_at: u64) -> CachedToken {
    CachedToken { access_token: access_token.to_string(), expires_at }
}

fn used(step: TokenStep) -> Option<String> {
    match step {
        TokenStep::Use(access_token) => Some(access_token),
        _ => None,
    }
}

#[test]
fn tokens_are_valid_before_they_expire() {
    assert!(token("t", 101).is_valid(100));
    assert!(!token("t", 100).is_valid(100));
    assert!(!token("t", 99).is_valid(100));
}

#[test]
fn tokens_are_kept_for_ninety_minutes() {
    assert_eq!(CACHE_TTL_SECS, 5400);
    assert_eq!(now_plus_ttl(1000), 6400);
    let fresh = CachedToken::fresh("t".to_string(), 1000);
    assert_eq!(fresh.access_token, "t");
    assert_eq!(fresh.expires_at, 6400);
    assert_eq!(TOKEN_FILE, "token.json");
}

#[test]
fn a_fresh_token_serves_until_it_expires() {
    let mut cache = TokenCache::new();
    assert!(matches!(cache.ask(1000), TokenStep::ReadFile));
    assert!(matches!(cache.load(None, 1000), TokenStep::Refresh));
    cache.store(&CachedToken::fresh("t".to_string(), 1000));
    assert_eq!(used(cache.ask(1000)), Some("t".to_string()));
    assert_eq!(used(cache.ask(6399)), Some("t".to_string()));
    assert!(matches!(cache.ask(6400), TokenStep::ReadFile));
}

#[test]
fn a_token_from_the_file_comes_into_memory() {
    let mut cache = TokenCache::new();
    assert_eq!(used(cache.load(Some(token("disk", 50)), 49)), Some("disk".to_string()));
    assert_eq!(used(cache.ask(49)), Some("disk".to_string()));
}

#[test]
fn an_expired_token_from_the_file_is_passed_over() {
    let mut cache = TokenCache::new();
    cache.store(&token("memory", 10));
    assert!(matches!(cache.load(Some(token("disk", 50)), 50), TokenStep::Refresh));
    assert_eq!(used(cache.ask(9)), Some("memory".to_string()));
}

#[test]
fn a_stale_token_is_forgotten() {
    let mut cache = TokenCache::new();
    cache.store(&token("new", 100));
    assert!(!cache.invalidate("old"));
    assert_eq!(used(cache.ask(0)), Some("new".to_string()));
    assert!(cache.invalidate("new"));
    assert!(matches!(cache.ask(0), TokenStep::ReadFile));
    assert!(!cache.invalidate("new"));
}

#[test]
fn the_cache_is_under_the_home_directory() {
    let dir = cache_dir(true, true);
    assert_eq!(dir.base, CacheBase::Home);
    assert_eq!(dir.components, vec![".cache", "justice-link"]);
    assert_eq!(cache_dir(true, false).base, CacheBase::Home);
}

#[test]
fn the_cache_is_under_the_profile_or_with_temporary_files() {
    let dir = cache_dir(false, true);
    assert_eq!(dir.base, CacheBase::UserProfile);
    assert_eq!(dir.components, vec!["AppData", "Local", "justice-link", "cache"]);
    let dir = cache_dir(false, false);
    assert_eq!(dir.base, CacheBase::Temporary);
    assert_eq!(dir.components, vec!["justice-link"]);
}
