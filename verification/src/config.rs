//! The server configuration: listening ports, their protocols and
//! certificates, and the options of the proxy server.
use vstd::prelude::*;
use vstd::string::StringExecFns;

use crate::text::{int_text, push_int};

verus! {

/// The protocol served on a port.
#[derive(PartialEq, Eq, Structural, Clone, Copy)]
pub enum Protocol {
    TLS,
    HTTPS,
    HTTP,
    TCP,
    UDP,
}

impl Protocol {
    /// The name of the protocol.
    pub open spec fn name(self) -> Seq<char> {
        match self {
            Protocol::TLS => seq!['T', 'L', 'S'],
            Protocol::HTTPS => seq!['H', 'T', 'T', 'P', 'S'],
            Protocol::HTTP => seq!['H', 'T', 'T', 'P'],
            Protocol::TCP => seq!['T', 'C', 'P'],
            Protocol::UDP => seq!['U', 'D', 'P'],
        }
    }

    /// The name of the protocol, as text.
    pub fn to_string(&self) -> (r: String)
        ensures
            r@ == self.name(),
    {
        let s: &str = match self {
            Protocol::TLS => {
                proof { reveal_strlit("TLS"); }
                "TLS"
            },
            Protocol::HTTPS => {
                proof { reveal_strlit("HTTPS"); }
                "HTTPS"
            },
            Protocol::HTTP => {
                proof { reveal_strlit("HTTP"); }
                "HTTP"
            },
            Protocol::TCP => {
                proof { reveal_strlit("TCP"); }
                "TCP"
            },
            Protocol::UDP => {
                proof { reveal_strlit("UDP"); }
                "UDP"
            },
        };
        let r = s.to_owned();
        assert(r@ =~= self.name());
        r
    }
}

/// A certificate and its key, as file paths.
pub struct Certificate {
    pub crt: String,
    pub key: String,
}

impl Clone for Certificate {
    fn clone(&self) -> (r: Self)
        ensures
            r == *self,
    {
        Certificate { crt: self.crt.clone(), key: self.key.clone() }
    }
}

/// A port that the server listens on.
pub struct ServerPort {
    pub port: i32,
    pub name: Option<String>,
    pub protocol: Protocol,
    pub cert: Option<Certificate>,
}

impl Clone for ServerPort {
    fn clone(&self) -> (r: Self)
        ensures
            r == *self,
    {
        let name = match &self.name {
            Some(n) => Some(n.clone()),
            None => None,
        };
        let cert = match &self.cert {
            Some(c) => Some(c.clone()),
            None => None,
        };
        ServerPort { port: self.port, name, protocol: self.protocol, cert }
    }
}

impl ServerPort {
    /// The address to listen on: every interface, this port.
    pub fn addr(&self) -> (r: String)
        ensures
            r@ == "0.0.0.0:"@ + int_text(self.port as int),
    {
        let mut s = "0.0.0.0:".to_owned();
        push_int(&mut s, self.port);
        s
    }
}

/// The options that start the proxy server.
pub struct ServerOpt {
    pub upgrade: bool,
    pub daemon: bool,
    pub nocapture: bool,
    pub test: bool,
    pub conf: Option<String>,
}

/// The server configuration.
pub struct Config {
    pub name: String,
    pub upgrade: bool,
    pub daemon: bool,
    pub nocapture: bool,
    pub test: bool,
    pub conf: String,
    pub ports: Vec<ServerPort>,
}

impl Config {
    /// The options of the proxy server: the flags of this configuration and
    /// its server configuration path.
    pub fn pingora_server_opt(&self) -> (r: ServerOpt)
        ensures
            r.upgrade == self.upgrade,
            r.daemon == self.daemon,
            r.nocapture == self.nocapture,
            r.test == self.test,
            r.conf == Some(self.conf),
    {
        ServerOpt {
            upgrade: self.upgrade,
            daemon: self.daemon,
            nocapture: self.nocapture,
            test: self.test,
            conf: Some(self.conf.clone()),
        }
    }

    /// The ports of this configuration, in order.
    pub fn ports(&self) -> (r: Vec<ServerPort>)
        ensures
            r@ == self.ports@,
    {
        let r = self.ports.clone();
        assert(r@ =~= self.ports@);
        r
    }
}

/// What serving a port takes: the address to listen on, and the certificate
/// when the listener is TLS.
pub struct ServicePlan {
    pub addr: String,
    pub tls: Option<Certificate>,
}

/// Whether a port can be served: only HTTP and HTTPS are.
pub open spec fn servable(port: ServerPort) -> bool {
    port.protocol == Protocol::HTTP || port.protocol == Protocol::HTTPS
}

/// The plan for serving an HTTP or HTTPS port: an HTTP proxy on the port's
/// address, over TLS with the port's certificate when it has one, else over
/// plain TCP.
pub fn service_plan(port: &ServerPort) -> (r: ServicePlan)
    requires
        servable(*port),
    ensures
        r.addr@ == "0.0.0.0:"@ + int_text(port.port as int),
        r.tls == port.cert,
{
    let addr = port.addr();
    let tls = match &port.cert {
        Some(c) => Some(c.clone()),
        None => None,
    };
    ServicePlan { addr, tls }
}

} // verus!
