//! How the HTTP transport reports failures to the guest: a ureq transport
//! error mapped onto the portable error codes, and the body size cap.
use vstd::prelude::*;

use crate::text::{ascii_lower_seq, contains_ascii_lowercase, contains_seq};

verus! {

#[verifier::external_type_specification]
#[verifier::external_body]
pub struct ExTransport(ureq::Transport);

/// The kinds of `ureq::ErrorKind`, one for one.
#[derive(Clone, Copy, Debug, PartialEq, Eq, Structural)]
pub enum TransportKind {
    InvalidUrl,
    UnknownScheme,
    Dns,
    InsecureRequestHttpsOnly,
    ConnectionFailed,
    TooManyRedirects,
    BadStatus,
    BadHeader,
    Io,
    InvalidProxyUrl,
    ProxyConnect,
    ProxyUnauthorized,
    Http,
}

/// The portable failure codes the guest sees.
#[derive(Clone, Copy, Debug, PartialEq, Eq, Structural)]
pub enum NetErrorCode {
    Dns,
    Connect,
    InvalidRequest,
    Redirect,
    Protocol,
    Tls,
    Timeout,
}

/// The kind `ureq::Transport::kind` reports for a transport failure.
pub uninterp spec fn transport_kind_of(error: ureq::Transport) -> TransportKind;

/// `ureq::Transport::kind`: which kind of transport failure `error` is, one
/// variant for each of ureq's kinds.
#[verifier::external_body]
fn transport_kind(error: &ureq::Transport) -> (k: TransportKind)
    ensures
        k == transport_kind_of(*error),
{
    match error.kind() {
        ureq::ErrorKind::InvalidUrl => TransportKind::InvalidUrl,
        ureq::ErrorKind::UnknownScheme => TransportKind::UnknownScheme,
        ureq::ErrorKind::Dns => TransportKind::Dns,
        ureq::ErrorKind::InsecureRequestHttpsOnly => TransportKind::InsecureRequestHttpsOnly,
        ureq::ErrorKind::ConnectionFailed => TransportKind::ConnectionFailed,
        ureq::ErrorKind::TooManyRedirects => TransportKind::TooManyRedirects,
        ureq::ErrorKind::BadStatus => TransportKind::BadStatus,
        ureq::ErrorKind::BadHeader => TransportKind::BadHeader,
        ureq::ErrorKind::Io => TransportKind::Io,
        ureq::ErrorKind::InvalidProxyUrl => TransportKind::InvalidProxyUrl,
        ureq::ErrorKind::ProxyConnect => TransportKind::ProxyConnect,
        ureq::ErrorKind::ProxyUnauthorized => TransportKind::ProxyUnauthorized,
        ureq::ErrorKind::HTTP => TransportKind::Http,
    }
}

/// `<ureq::Transport as Display>::fmt`: the error's own description. It
/// ends with the description of the underlying I/O error, whose wording
/// depends on the C library and the locale, so nothing is promised of it.
#[verifier::external_body]
fn transport_text(error: &ureq::Transport) -> String {
    error.to_string()
}

/// The code for a transport failure of `kind` described by `message`. ureq
/// folds a timeout into `Io`, so there the description decides.
pub open spec fn spec_classify(kind: TransportKind, message: Seq<char>) -> NetErrorCode {
    match kind {
        TransportKind::Dns => NetErrorCode::Dns,
        TransportKind::ConnectionFailed => NetErrorCode::Connect,
        TransportKind::InvalidUrl | TransportKind::UnknownScheme | TransportKind::BadHeader =>
            NetErrorCode::InvalidRequest,
        TransportKind::TooManyRedirects => NetErrorCode::Redirect,
        TransportKind::BadStatus | TransportKind::Http => NetErrorCode::Protocol,
        TransportKind::InsecureRequestHttpsOnly => NetErrorCode::Tls,
        TransportKind::InvalidProxyUrl | TransportKind::ProxyConnect
        | TransportKind::ProxyUnauthorized => NetErrorCode::Connect,
        TransportKind::Io => if contains_seq(ascii_lower_seq(message), "timed out"@) || contains_seq(
            ascii_lower_seq(message),
            "timeout"@,
        ) {
            NetErrorCode::Timeout
        } else {
            NetErrorCode::Connect
        },
    }
}

/// The portable code for a transport failure of `kind` described by
/// `message`.
pub fn classify_kind(kind: TransportKind, message: &str) -> (code: NetErrorCode)
    ensures
        code == spec_classify(kind, message@),
{
    match kind {
        TransportKind::Dns => NetErrorCode::Dns,
        TransportKind::ConnectionFailed => NetErrorCode::Connect,
        TransportKind::InvalidUrl | TransportKind::UnknownScheme | TransportKind::BadHeader =>
            NetErrorCode::InvalidRequest,
        TransportKind::TooManyRedirects => NetErrorCode::Redirect,
        TransportKind::BadStatus | TransportKind::Http => NetErrorCode::Protocol,
        TransportKind::InsecureRequestHttpsOnly => NetErrorCode::Tls,
        TransportKind::InvalidProxyUrl | TransportKind::ProxyConnect
        | TransportKind::ProxyUnauthorized => NetErrorCode::Connect,
        TransportKind::Io => {
            if contains_ascii_lowercase(message, "timed out") || contains_ascii_lowercase(
                message,
                "timeout",
            ) {
                NetErrorCode::Timeout
            } else {
                NetErrorCode::Connect
            }
        },
    }
}

/// Maps a ureq transport error onto the portable codes, with the error's
/// own description.
pub fn classify(error: &ureq::Transport) -> (r: (NetErrorCode, String))
    ensures
        r.0 == spec_classify(transport_kind_of(*error), r.1@),
{
    let kind = transport_kind(error);
    let message = transport_text(error);
    let code = classify_kind(kind, message.as_str());
    (code, message)
}

/// A body of `body_len` bytes may take `read` more without passing
/// `max_bytes`; a body past the limit is refused rather than truncated.
pub fn chunk_fits(body_len: usize, read: usize, max_bytes: usize) -> (fits: bool)
    requires
        body_len + read <= usize::MAX,
    ensures
        fits == (body_len + read <= max_bytes),
{
    body_len + read <= max_bytes
}

} // verus!
