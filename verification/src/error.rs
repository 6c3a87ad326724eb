//! Errors of the library and the messages they are shown with.
use vstd::prelude::*;
use crate::text::{nat_decimal, push_chars, push_str_chars, u64_decimal};

verus! {

broadcast use vstd::string::group_string_axioms;

/// Failures of bridge requests, stream encoding and the DTLS channel.
#[derive(Debug)]
pub enum HueError {
    MissingBridgeIp,
    MissingAppKey,
    MissingClientKey,
    TlsPin(String),
    Request(String),
    Bridge(String),
    Authentication,
    HttpStatus(u16),
    UnexpectedResponse(String),
    InvalidEntertainmentConfigId(String),
    InvalidHexSecret(String),
    Dtls(String),
    DtlsNotImplemented,
}

/// The message of a bridge-side error.
pub open spec fn hue_error_message(e: HueError) -> Seq<char> {
    match e {
        HueError::MissingBridgeIp => "bridge IP is required"@,
        HueError::MissingAppKey => "app key is required for this operation"@,
        HueError::MissingClientKey => "client key is required for Hue Entertainment DTLS"@,
        HueError::TlsPin(s) => "Hue TLS certificate pinning: "@ + s@,
        HueError::Request(s) => "Hue request failed: "@ + s@,
        HueError::Bridge(s) => "Hue bridge rejected the request: "@ + s@,
        HueError::Authentication => "Hue bridge authentication failed"@,
        HueError::HttpStatus(c) => "Hue bridge returned HTTP status "@ + nat_decimal(c as nat),
        HueError::UnexpectedResponse(s) => "unexpected Hue bridge response: "@ + s@,
        HueError::InvalidEntertainmentConfigId(s) => "invalid Hue Entertainment configuration id: "@
            + s@,
        HueError::InvalidHexSecret(s) => "invalid hex secret: "@ + s@,
        HueError::Dtls(s) => "Hue Entertainment DTLS failed: "@ + s@,
        HueError::DtlsNotImplemented => "Hue Entertainment DTLS is not implemented yet"@,
    }
}

/// `prefix` followed by `detail`.
fn prefixed(prefix: &str, detail: &String) -> (r: String)
    ensures
        r@ == prefix@ + detail@,
{
    let mut m = String::new();
    push_str_chars(&mut m, prefix);
    push_str_chars(&mut m, detail.as_str());
    m
}

impl HueError {
    /// The message the error is shown with.
    pub fn message(&self) -> (r: String)
        ensures
            r@ == hue_error_message(*self),
    {
        match self {
            HueError::MissingBridgeIp => "bridge IP is required".to_string(),
            HueError::MissingAppKey => "app key is required for this operation".to_string(),
            HueError::MissingClientKey => "client key is required for Hue Entertainment DTLS".to_string(),
            HueError::TlsPin(s) => prefixed("Hue TLS certificate pinning: ", s),
            HueError::Request(s) => prefixed("Hue request failed: ", s),
            HueError::Bridge(s) => prefixed("Hue bridge rejected the request: ", s),
            HueError::Authentication => "Hue bridge authentication failed".to_string(),
            HueError::HttpStatus(c) => {
                let mut m = String::new();
                push_str_chars(&mut m, "Hue bridge returned HTTP status ");
                let d = u64_decimal(*c as u64);
                push_chars(&mut m, &d);
                m
            },
            HueError::UnexpectedResponse(s) => prefixed("unexpected Hue bridge response: ", s),
            HueError::InvalidEntertainmentConfigId(s) => prefixed(
                "invalid Hue Entertainment configuration id: ",
                s,
            ),
            HueError::InvalidHexSecret(s) => prefixed("invalid hex secret: ", s),
            HueError::Dtls(s) => prefixed("Hue Entertainment DTLS failed: ", s),
            HueError::DtlsNotImplemented => "Hue Entertainment DTLS is not implemented yet".to_string(),
        }
    }
}

/// Failures of capture, the portal and configuration files.
#[derive(Debug)]
pub enum CoreError {
    GStreamer(String),
    MissingElement(&'static str),
    CaptureTimeout,
    Portal(String),
    /// A file could not be read or written; `source` is the system's description.
    Io { path: String, source: String },
}

/// The message of a capture-side error.
pub open spec fn core_error_message(e: CoreError) -> Seq<char> {
    match e {
        CoreError::GStreamer(s) => "GStreamer error: "@ + s@,
        CoreError::MissingElement(s) => "GStreamer element not found: "@ + s@,
        CoreError::CaptureTimeout => "capture timed out waiting for a frame"@,
        CoreError::Portal(s) => "portal error: "@ + s@,
        CoreError::Io { path, source } => "failed to access "@ + path@ + ": "@ + source@,
    }
}

impl CoreError {
    /// The message the error is shown with.
    pub fn message(&self) -> (r: String)
        ensures
            r@ == core_error_message(*self),
    {
        match self {
            CoreError::GStreamer(s) => prefixed("GStreamer error: ", s),
            CoreError::MissingElement(s) => {
                let mut m = String::new();
                push_str_chars(&mut m, "GStreamer element not found: ");
                push_str_chars(&mut m, s);
                m
            },
            CoreError::CaptureTimeout => "capture timed out waiting for a frame".to_string(),
            CoreError::Portal(s) => prefixed("portal error: ", s),
            CoreError::Io { path, source } => {
                let mut m = String::new();
                push_str_chars(&mut m, "failed to access ");
                push_str_chars(&mut m, path.as_str());
                push_str_chars(&mut m, ": ");
                push_str_chars(&mut m, source.as_str());
                m
            },
        }
    }
}

} // verus!
