//! The MCP transports a probe can speak.

use vstd::prelude::*;
use crate::text::str_eq;

verus! {

/// Transport used to reach an MCP server.
#[derive(Clone, Copy, Debug, PartialEq, Eq, Hash, Structural)]
pub enum TransportType {
    Stdio,
    Sse,
    StreamableHttp,
}

/// The wire name of a transport.
pub open spec fn transport_name(t: TransportType) -> Seq<char> {
    match t {
        TransportType::Stdio => "stdio"@,
        TransportType::Sse => "sse"@,
        TransportType::StreamableHttp => "streamable-http"@,
    }
}

/// The transport a name selects (`streamable_http` is accepted as an alias).
pub open spec fn transport_from_name(v: Seq<char>) -> Option<TransportType> {
    if v == "stdio"@ {
        Some(TransportType::Stdio)
    } else if v == "sse"@ {
        Some(TransportType::Sse)
    } else if v == "streamable-http"@ || v == "streamable_http"@ {
        Some(TransportType::StreamableHttp)
    } else {
        None
    }
}

impl TransportType {
    /// The wire name of the transport.
    pub fn as_str(self) -> (r: &'static str)
        ensures
            r@ == transport_name(self),
    {
        match self {
            TransportType::Stdio => "stdio",
            TransportType::Sse => "sse",
            TransportType::StreamableHttp => "streamable-http",
        }
    }

    /// Parse a transport name.
    pub fn parse(value: &str) -> (r: Option<TransportType>)
        ensures
            r == transport_from_name(value@),
    {
        if str_eq(value, "stdio") {
            Some(TransportType::Stdio)
        } else if str_eq(value, "sse") {
            Some(TransportType::Sse)
        } else if str_eq(value, "streamable-http") || str_eq(value, "streamable_http") {
            Some(TransportType::StreamableHttp)
        } else {
            None
        }
    }

    /// Whether the transport speaks HTTP.
    pub fn is_http(self) -> (r: bool)
        ensures
            r == !(self is Stdio),
    {
        match self {
            TransportType::Stdio => false,
            _ => true,
        }
    }
}

} // verus!
