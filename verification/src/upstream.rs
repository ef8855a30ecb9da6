//! Decisions about what the cluster's API server returns: the discovered
//! key-set URL, the status of a key-set fetch and the key set served from
//! it, when the cached key set is due for a refresh, and what a refresh
//! leaves in the cache.

use vstd::prelude::*;
use vstd::string::StringExecFns;
use crate::certificates::transform_outcome;
use crate::certificates::CertificateError;
use crate::certificates::CertificateFault;
use crate::certificates::Certificates;
use crate::text::decimal_digits;
use crate::text::decimal_text;

verus! {

/// What `reqwest::Url::parse` accepts: an absolute URL.
pub uninterp spec fn url_parses(text: Seq<char>) -> bool;

/// Whether `text` parses with `reqwest::Url::parse`. Trusted: exactly on the
/// text the named predicate accepts.
#[verifier::external_body]
pub(crate) fn absolute_url(text: &str) -> (r: bool)
    ensures
        r == url_parses(text@),
{
    reqwest::Url::parse(text).is_ok()
}

/// Why an answer of the API server cannot be used; the spec view of
/// [`UpstreamError`].
pub enum UpstreamFault {
    MissingJwksUri,
    NotAbsoluteUrl { uri: Seq<char> },
    UnexpectedStatus { status: u16 },
}

/// Why an answer of the API server cannot be used.
#[derive(Debug)]
pub enum UpstreamError {
    MissingJwksUri,
    NotAbsoluteUrl { uri: String },
    UnexpectedStatus { status: u16 },
}

impl View for UpstreamError {
    type V = UpstreamFault;

    open spec fn view(&self) -> UpstreamFault {
        match self {
            UpstreamError::MissingJwksUri => UpstreamFault::MissingJwksUri,
            UpstreamError::NotAbsoluteUrl { uri } => UpstreamFault::NotAbsoluteUrl { uri: uri@ },
            UpstreamError::UnexpectedStatus { status } => UpstreamFault::UnexpectedStatus {
                status: *status,
            },
        }
    }
}

/// The text a fault is reported with.
pub open spec fn upstream_fault_message(fault: UpstreamFault) -> Seq<char> {
    match fault {
        UpstreamFault::MissingJwksUri => "cluster OpenID configuration did not include jwks_uri"@,
        UpstreamFault::NotAbsoluteUrl { uri } => "cluster jwks_uri must be an absolute URL: '"@
            + uri + "'"@,
        UpstreamFault::UnexpectedStatus { status } => "cluster JWKS endpoint returned HTTP "@
            + decimal_text(status as nat),
    }
}

impl UpstreamError {
    /// The text this fault is reported with.
    pub fn message(&self) -> (m: String)
        ensures
            m@ == upstream_fault_message(self@),
    {
        match self {
            UpstreamError::MissingJwksUri => String::from_str(
                "cluster OpenID configuration did not include jwks_uri",
            ),
            UpstreamError::NotAbsoluteUrl { uri } => {
                let mut m = String::from_str("cluster jwks_uri must be an absolute URL: '");
                m.append(uri.as_str());
                m.append("'");
                m
            },
            UpstreamError::UnexpectedStatus { status } => {
                let digits = decimal_digits(*status as u64);
                String::from_str("cluster JWKS endpoint returned HTTP ").concat(digits.as_str())
            },
        }
    }
}

/// Accepts the key-set URL that the cluster's discovery document announces
/// when it is present and an absolute URL.
pub fn check_cluster_jwks_uri(jwks_uri: &str) -> (r: Result<(), UpstreamError>)
    ensures
        r is Ok <==> jwks_uri@.len() > 0 && url_parses(jwks_uri@),
        r matches Err(e) ==> e@ == (if jwks_uri@.len() == 0 {
            UpstreamFault::MissingJwksUri
        } else {
            UpstreamFault::NotAbsoluteUrl { uri: jwks_uri@ }
        }),
{
    if jwks_uri.is_empty() {
        return Err(UpstreamError::MissingJwksUri);
    }
    if !absolute_url(jwks_uri) {
        return Err(UpstreamError::NotAbsoluteUrl { uri: String::from_str(jwks_uri) });
    }
    Ok(())
}

/// Accepts a key-set fetch only when the server answered 200 OK.
pub fn check_jwks_status(status: u16) -> (r: Result<(), UpstreamError>)
    ensures
        r is Ok <==> status == 200,
        r matches Err(e) ==> e@ == (UpstreamFault::UnexpectedStatus { status }),
{
    if status != 200 {
        return Err(UpstreamError::UnexpectedStatus { status });
    }
    Ok(())
}

/// Why a fetched key set is not served: the API server's answer, or the
/// certificates that could not be attached.
#[derive(Debug)]
pub enum FetchError {
    Upstream(UpstreamError),
    Certificates(CertificateError),
}

/// The outcome of attaching certificates within a fetch; `None` when the
/// fetch failed before that.
pub open spec fn certificate_step(r: Result<Vec<u8>, FetchError>) -> Option<
    Result<Seq<u8>, CertificateFault>,
> {
    match r {
        Ok(out) => Some(Ok(out@)),
        Err(FetchError::Certificates(e)) => Some(Err(e@)),
        Err(FetchError::Upstream(_)) => None,
    }
}

/// The key set served from a fetch that the API server answered with
/// `status` and `body`: the body with certificates attached, on every
/// fetch, when the answer is 200 OK; the fetch fails when the status is
/// another or when the certificates cannot be attached.
pub fn served_key_set(certificates: &Certificates, status: u16, body: &[u8]) -> (r: Result<
    Vec<u8>,
    FetchError,
>)
    ensures
        status != 200 ==> (r matches Err(FetchError::Upstream(e)) && e@
            == (UpstreamFault::UnexpectedStatus { status })),
        status == 200 ==> (certificate_step(r) matches Some(outcome) && (certificates is Disabled
            ==> outcome == Ok::<Seq<u8>, CertificateFault>(body@)) && (
        certificates matches Certificates::EphemeralIssuer(issuer) ==> transform_outcome(
            body@,
            issuer@,
            outcome,
        ))),
{
    if let Err(e) = check_jwks_status(status) {
        return Err(FetchError::Upstream(e));
    }
    match certificates.transform(body) {
        Ok(out) => Ok(out),
        Err(e) => Err(FetchError::Certificates(e)),
    }
}

/// The cached key set is refreshed once its age in whole seconds reaches
/// the configured maximum. Since the maximum is a whole number of seconds,
/// this is the comparison of the exact age with it.
pub fn refresh_due(age_secs: u64, max_key_age_secs: u64) -> (r: bool)
    ensures
        r == (age_secs >= max_key_age_secs),
{
    age_secs >= max_key_age_secs
}

/// The cache after a refresh attempt, and the failure to report if any: a
/// fetched key set replaces the cached one; when the fetch failed, the
/// cached key set stays as it was and the failure is handed back.
pub fn cache_after_refresh<T>(cached: T, refreshed: Result<T, String>) -> (r: (T, Option<String>))
    ensures
        match refreshed {
            Ok(fresh) => r.0 == fresh && r.1 is None,
            Err(failure) => r.0 == cached && r.1 == Some(failure),
        },
{
    match refreshed {
        Ok(fresh) => (fresh, None),
        Err(failure) => (cached, Some(failure)),
    }
}

} // verus!
