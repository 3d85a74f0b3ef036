use proxypass::spnego::{spnego_cache, SpnegoCache, TOKEN_TTL_NANOS};

#[test]
fn empty_cache_has_no_token() {
    let c = SpnegoCache::new();
    assert_eq!(c.get(0), None);
    assert_eq!(spnego_cache().get(5), None);
}

#[test]
fn stored_token_returned_within_an_hour() {
    let mut c = SpnegoCache::new();
    c.set("Negotiate abc".to_string(), 1_000);
    assert_eq!(c.get(1_000), Some("Negotiate abc".to_string()));
    assert_eq!(c.get(1_000 + TOKEN_TTL_NANOS - 1), Some("Negotiate abc".to_string()));
}

#[test]
fn stored_token_expires_after_an_hour() {
    let mut c = SpnegoCache::new();
    c.set("Basic xyz".to_string(), 1_000);
    assert_eq!(c.get(1_000 + TOKEN_TTL_NANOS), None);
    assert_eq!(TOKEN_TTL_NANOS, 3_600_000_000_000);
}

#[test]
fn earlier_clock_counts_as_no_time() {
    let mut c = SpnegoCache::new();
    c.set("t".to_string(), 5_000);
    assert_eq!(c.get(10), Some("t".to_string()));
}

#[test]
fn cleared_cache_forgets_token() {
    let mut c = SpnegoCache::new();
    c.set("t".to_string(), 0);
    c.clear();
    assert_eq!(c.get(1), None);
}

#[test]
fn newer_token_replaces_older() {
    let mut c = SpnegoCache::new();
    c.set("a".to_string(), 0);
    c.set("b".to_string(), 10);
    assert_eq!(c.get(20), Some("b".to_string()));
}
