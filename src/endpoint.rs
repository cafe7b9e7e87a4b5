//! The target of a run: whether a URL is well formed, and the host and port
//! that the reachability probe connects to.
use vstd::prelude::*;

verus! {

/// Whether the URL parser accepts the text as an absolute URL.
pub uninterp spec fn url_accepts(s: Seq<char>) -> bool;

/// The host of the URL that the text writes, if it names one.
pub uninterp spec fn url_host(s: Seq<char>) -> Option<Seq<char>>;

/// The explicit port of the URL that the text writes, else the default port
/// of its scheme, if the scheme has one.
pub uninterp spec fn url_port(s: Seq<char>) -> Option<u16>;

/// Relies on `url::Url::parse`, then `Url::host_str` and
/// `Url::port_or_known_default` on what it parsed: whether the text is
/// accepted, its host and its port all depend on the text alone.
#[verifier::external_body]
fn url_parts(s: &str) -> (r: Option<(Option<String>, Option<u16>)>)
    ensures
        r is Some == url_accepts(s@),
        r matches Some((h, p)) ==> p == url_port(s@) && (h is Some <==> url_host(s@) is Some)
            && (h matches Some(x) ==> url_host(s@) == Some(x@)),
{
    url::Url::parse(s).ok().map(|u| (u.host_str().map(|h| h.to_string()), u.port_or_known_default()))
}

/// Whether `s` is a well-formed absolute URL.
pub fn is_valid_url(s: &str) -> (r: bool)
    ensures
        r == url_accepts(s@),
{
    url_parts(s).is_some()
}

/// Why the target cannot be probed.
#[derive(PartialEq, Eq, Structural, Clone, Copy, Debug)]
pub enum EndpointError {
    /// The text is not a well-formed URL.
    InvalidUrl,
    /// The URL names no host.
    NoHost,
}

/// Port used when the URL gives none and its scheme has no default.
pub const FALLBACK_PORT: u16 = 80;

/// Host and port of the target URL: the explicit port, else the scheme's
/// default port, else `FALLBACK_PORT`.
pub fn resolve_endpoint(s: &str) -> (r: Result<(String, u16), EndpointError>)
    ensures
        r == Err::<(String, u16), EndpointError>(EndpointError::InvalidUrl) <==> !url_accepts(s@),
        r == Err::<(String, u16), EndpointError>(EndpointError::NoHost) <==> url_accepts(s@)
            && url_host(s@) is None,
        r is Ok <==> url_accepts(s@) && url_host(s@) is Some,
        r matches Ok((h, p)) ==> url_host(s@) == Some(h@) && p == match url_port(s@) {
            Some(q) => q,
            None => FALLBACK_PORT,
        },
{
    match url_parts(s) {
        None => Err(EndpointError::InvalidUrl),
        Some((host, port)) => {
            let host = match host {
                Some(h) => h,
                None => {
                    return Err(EndpointError::NoHost);
                },
            };
            let port = match port {
                Some(p) => p,
                None => FALLBACK_PORT,
            };
            Ok((host, port))
        },
    }
}

} // verus!
