use jwksproxy::text::{decimal_digits, parse_u64};
use jwksproxy::upstream::{
    cache_after_refresh, check_cluster_jwks_uri, check_jwks_status, refresh_due, UpstreamError,
};

#[test]
fn accepts_absolute_jwks_uri() {
    assert!(check_cluster_jwks_uri("https://kubernetes.default.svc/openid/v1/jwks").is_ok());
}

#[test]
fn rejects_missing_or_relative_jwks_uri() {
    assert!(matches!(check_cluster_jwks_uri(""), Err(UpstreamError::MissingJwksUri)));
    assert_eq!(
        check_cluster_jwks_uri("").unwrap_err().message(),
        "cluster OpenID configuration did not include jwks_uri"
    );
    assert_eq!(
        check_cluster_jwks_uri("/openid/v1/jwks").unwrap_err().message(),
        "cluster jwks_uri must be an absolute URL: '/openid/v1/jwks'"
    );
}

#[test]
fn accepts_only_ok_status() {
    assert!(check_jwks_status(200).is_ok());
    assert_eq!(
        check_jwks_status(404).unwrap_err().message(),
        "cluster JWKS endpoint returned HTTP 404"
    );
    assert_eq!(
        check_jwks_status(204).unwrap_err().message(),
        "cluster JWKS endpoint returned HTTP 204"
    );
}

#[test]
fn refreshes_once_the_age_is_reached() {
    assert!(!refresh_due(3599, 3600));
    assert!(refresh_due(3600, 3600));
    assert!(refresh_due(7200, 3600));
}

#[test]
fn decimal_digits_round_trip() {
    for n in [0u64, 7, 10, 200, 65535, 1_000_000, u64::MAX] {
        let text = decimal_digits(n);
        assert_eq!(text, n.to_string());
        assert_eq!(parse_u64(&text), Some(n));
    }
}

#[test]
fn successful_refresh_replaces_the_cache() {
    let (cache, failure) = cache_after_refresh("old keys", Ok("new keys"));
    assert_eq!(cache, "new keys");
    assert_eq!(failure, None);
}

#[test]
fn failed_refresh_keeps_the_stale_cache() {
    let (cache, failure) =
        cache_after_refresh("old keys", Err("cluster JWKS endpoint returned HTTP 503".to_string()));
    assert_eq!(cache, "old keys");
    assert_eq!(failure.as_deref(), Some("cluster JWKS endpoint returned HTTP 503"));
}
