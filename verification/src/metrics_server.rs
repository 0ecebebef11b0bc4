//! What the metrics server answers, and where it listens.

use vstd::prelude::*;
use vstd::string::*;
use crate::decimal::{nat_text, parse_u16, parsed_u16, push_nat};

verus! {

/// The port the server listens on where none is configured.
pub const DEFAULT_PORT: u16 = 8080;

/// The status of a successful answer.
pub const STATUS_OK: u16 = 200;

/// The status of an answer that could not be rendered.
pub const STATUS_INTERNAL_ERROR: u16 = 500;

/// An answer of the server: status, content type and body.
#[derive(Clone, Debug, PartialEq, Eq)]
pub struct Reply {
    pub status: u16,
    pub content_type: String,
    pub body: String,
}

/// The answer to a liveness check: always a success with the body `ok`.
pub fn health() -> (reply: Reply)
    ensures
        reply.status == STATUS_OK,
        reply.content_type@ == "text/plain; charset=utf-8"@,
        reply.body@ == "ok"@,
{
    Reply {
        status: STATUS_OK,
        content_type: String::from_str("text/plain; charset=utf-8"),
        body: String::from_str("ok"),
    }
}

/// The answer to a scrape. `encoded` is the exposition text of the metrics
/// store, or nothing where rendering failed: then the answer is an internal
/// error with an empty body.
pub fn metrics_handler(encoded: Option<String>) -> (reply: Reply)
    ensures
        match encoded {
            Some(text) => {
                &&& reply.status == STATUS_OK
                &&& reply.content_type@
                    == "application/openmetrics-text; version=1.0.0; charset=utf-8"@
                &&& reply.body@ == text@
            },
            None => {
                &&& reply.status == STATUS_INTERNAL_ERROR
                &&& reply.content_type@ == "text/plain; charset=utf-8"@
                &&& reply.body@ == Seq::<char>::empty()
            },
        },
{
    match encoded {
        Some(text) => Reply {
            status: STATUS_OK,
            content_type: String::from_str(
                "application/openmetrics-text; version=1.0.0; charset=utf-8",
            ),
            body: text,
        },
        None => Reply {
            status: STATUS_INTERNAL_ERROR,
            content_type: String::from_str("text/plain; charset=utf-8"),
            body: String::new(),
        },
    }
}

/// The port to listen on: the configured one where it is an unsigned
/// decimal of at most 65535, else the default.
pub fn metrics_port(configured: Option<&str>) -> (port: u16)
    ensures
        port == match configured {
            Some(text) => match parsed_u16(text@) {
                Some(p) => p,
                None => DEFAULT_PORT,
            },
            None => DEFAULT_PORT,
        },
{
    match configured {
        Some(text) => match parse_u16(text) {
            Some(p) => p,
            None => DEFAULT_PORT,
        },
        None => DEFAULT_PORT,
    }
}

/// The address to listen on: every interface, at `port`.
pub fn listening_address(port: u16) -> (address: String)
    ensures
        address@ == "0.0.0.0:"@ + nat_text(port as nat),
{
    let mut address: String = String::from_str("0.0.0.0:");
    push_nat(&mut address, port as u64);
    address
}

} // verus!
