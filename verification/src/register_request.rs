//! Registration requests of the HTTP control surface, and the response
//! computed from a registration's outcome. Parsing and transport live with
//! the server; the request and response values and the outcome mapping are
//! the library's.

use vstd::prelude::*;

verus! {

/// A TCP/UDP port handed back by a registration.
#[derive(Clone, Copy, Debug, PartialEq, Eq, Structural)]
pub struct Port(pub u16);

/// Registration data for an input delivered over RTP.
#[derive(Clone, Copy, Debug, PartialEq, Eq, Structural)]
pub struct RtpInputStream {
    pub port: Port,
}

/// Registration data for an input read from an MP4 container.
pub struct Mp4 {
    pub path: String,
}

/// Registration data for an output sent over RTP.
pub struct RtpOutputStream {
    pub port: Port,
    pub ip: String,
}

/// A request to register one input stream.
pub enum RegisterInput {
    RtpStream(RtpInputStream),
    Mp4(Mp4),
}

/// A request to register one output stream.
pub enum RegisterOutput {
    RtpStream(RtpOutputStream),
}

/// What a registration handler answers.
#[derive(Clone, Copy, Debug, PartialEq, Eq, Structural)]
pub enum Response {
    /// Registered; nothing more to report.
    Accepted,
    /// Registered, and this port was bound for the stream.
    RegisteredPort { port: u16 },
}

/// The response for a registration that may have bound a port.
pub fn port_response(port: Option<Port>) -> (r: Response)
    ensures
        r == match port {
            Some(p) => Response::RegisteredPort { port: p.0 },
            None => Response::Accepted,
        },
{
    match port {
        Some(p) => Response::RegisteredPort { port: p.0 },
        None => Response::Accepted,
    }
}

} // verus!
