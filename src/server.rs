//! The listening side: which port a server listens on, and which server a
//! configuration starts.
use vstd::prelude::*;
use crate::config::Configs;

verus! {

/// A server that speaks plain HTTP.
#[derive(Debug, Clone, Copy, PartialEq, Eq, Structural)]
pub struct WithoutTLS {
    /// The port to listen on; the HTTP port when not given.
    pub port: Option<u16>,
}

/// A server that terminates TLS.
#[derive(Debug, Clone, Copy, PartialEq, Eq, Structural)]
pub struct WithTLS {
    /// The port to listen on; the HTTPS port when not given.
    pub port: Option<u16>,
}

/// The default ports.
#[derive(Debug, Clone, Copy, PartialEq, Eq, Structural)]
pub enum PORTS {
    HTTP,
    HTTPS,
}

pub open spec fn port_number(p: PORTS) -> u16 {
    match p {
        PORTS::HTTP => 8080,
        PORTS::HTTPS => 443,
    }
}

impl PORTS {
    /// The port number.
    pub fn number(&self) -> (r: u16)
        ensures
            r == port_number(*self),
    {
        match self {
            PORTS::HTTP => 8080,
            PORTS::HTTPS => 443,
        }
    }
}

/// A server the proxy can start.
pub trait Server {
    /// The port the server listens on.
    fn listen_port(&self) -> u16;
}

impl WithoutTLS {
    /// The configured port, else the HTTP port.
    pub fn port_or_default(&self) -> (r: u16)
        ensures
            r == (match self.port {
                Some(p) => p,
                None => port_number(PORTS::HTTP),
            }),
    {
        match self.port {
            Some(p) => p,
            None => PORTS::HTTP.number(),
        }
    }
}

impl WithTLS {
    /// The configured port, else the HTTPS port.
    pub fn port_or_default(&self) -> (r: u16)
        ensures
            r == (match self.port {
                Some(p) => p,
                None => port_number(PORTS::HTTPS),
            }),
    {
        match self.port {
            Some(p) => p,
            None => PORTS::HTTPS.number(),
        }
    }
}

impl Server for WithoutTLS {
    fn listen_port(&self) -> u16 {
        self.port_or_default()
    }
}

impl Server for WithTLS {
    fn listen_port(&self) -> u16 {
        self.port_or_default()
    }
}

/// Why the proxy does not start.
#[derive(Debug, Clone, Copy, PartialEq, Eq, Structural)]
pub enum StartError {
    /// The configuration asks for TLS, which the proxy does not serve yet.
    TlsNotSupported,
}

/// The server a configuration starts: plain HTTP on the HTTP port, or
/// nothing when TLS is asked for.
pub fn start_plan(configs: &Configs) -> (r: Result<WithoutTLS, StartError>)
    ensures
        configs.is_tls_enabled ==> r == Err::<WithoutTLS, StartError>(StartError::TlsNotSupported),
        !configs.is_tls_enabled ==> r == Ok::<WithoutTLS, StartError>(
            WithoutTLS { port: Some(port_number(PORTS::HTTP)) },
        ),
{
    if configs.is_tls_enabled {
        Err(StartError::TlsNotSupported)
    } else {
        Ok(WithoutTLS { port: Some(PORTS::HTTP.number()) })
    }
}

} // verus!
