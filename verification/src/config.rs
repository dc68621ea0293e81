//! Configuration of the two roles.

use crate::layout::{NodeView, ScreenLayout, ScreenSize, Sides};
use crate::message::DEFAULT_PORT;
use crate::text;
use crate::text::push_decimal;
use vstd::prelude::*;

verus! {

/// A host and a port, joined by a colon.
pub open spec fn address_text(host: Seq<char>, port: u16) -> Seq<char> {
    host.push(':') + text::decimal(port as nat)
}

fn address(host: &str, port: u16) -> (addr: String)
    ensures
        addr@ == address_text(host@, port),
{
    let mut addr: String = host.to_string();
    addr.push(':');
    push_decimal(&mut addr, port as u64);
    addr
}

/// The address that a server binds unless told otherwise: all interfaces.
pub fn default_bind() -> (bind: String)
    ensures
        bind@ == "0.0.0.0"@,
{
    "0.0.0.0".to_string()
}

/// The port that a server binds unless told otherwise.
pub fn default_port() -> (port: u16)
    ensures
        port == DEFAULT_PORT,
{
    DEFAULT_PORT
}

/// Configuration for running as a server (primary).
#[derive(Clone, Debug, PartialEq, Eq)]
pub struct ServerConfig {
    /// Address to bind, e.g. `0.0.0.0`.
    pub bind: String,
    pub port: u16,
    /// Name of this machine's own screen within `layout`.
    pub local_screen: String,
    pub layout: ScreenLayout,
    /// Require TLS with trusted-fingerprint clients.
    pub tls: bool,
}

/// A configuration with another address and port, where they are given.
pub open spec fn overridden(
    before: ServerConfig,
    bind: Option<String>,
    port: Option<u16>,
) -> ServerConfig {
    ServerConfig {
        bind: match bind {
            Some(b) => b,
            None => before.bind,
        },
        port: match port {
            Some(p) => p,
            None => before.port,
        },
        ..before
    }
}

impl ServerConfig {
    /// The `host:port` that the server listens on.
    pub fn listen_addr(&self) -> (addr: String)
        ensures
            addr@ == address_text(self.bind@, self.port),
    {
        address(self.bind.as_str(), self.port)
    }

    /// Puts an address and a port in place of the configured ones, where they are given.
    pub fn override_listen(&mut self, bind: Option<String>, port: Option<u16>)
        ensures
            *final(self) == overridden(*old(self), bind, port),
    {
        match bind {
            Some(b) => {
                self.bind = b;
            },
            None => {},
        }
        match port {
            Some(p) => {
                self.port = p;
            },
            None => {},
        }
    }
}

impl Default for ServerConfig {
    fn default() -> (c: Self)
        ensures
            c.bind@ == "0.0.0.0"@,
            c.port == DEFAULT_PORT,
            c.local_screen@ == "server"@,
            c.layout@ == map![
                "server"@ => NodeView {
                    size: ScreenSize { w: 1920, h: 1080 },
                    sides: Sides::none(),
                },
            ],
            !c.tls,
    {
        let mut layout = ScreenLayout::new();
        layout.add_screen("server", ScreenSize::new(1920, 1080));
        Self {
            bind: default_bind(),
            port: default_port(),
            local_screen: "server".to_string(),
            layout,
            tls: false,
        }
    }
}

/// Configuration for running as a client (secondary).
#[derive(Clone, Debug, PartialEq, Eq)]
pub struct ClientConfig {
    /// `host:port` of the server.
    pub server_addr: String,
    /// This client's screen name, which must match a screen in the server layout.
    pub name: String,
    pub screen: ScreenSize,
    pub tls: bool,
}

impl Default for ClientConfig {
    fn default() -> (c: Self)
        ensures
            c.server_addr@ == address_text("127.0.0.1"@, DEFAULT_PORT),
            c.name@ == "client"@,
            c.screen == (ScreenSize { w: 1280, h: 800 }),
            !c.tls,
    {
        Self {
            server_addr: address("127.0.0.1", DEFAULT_PORT),
            name: "client".to_string(),
            screen: ScreenSize::new(1280, 800),
            tls: false,
        }
    }
}

/// An address is the host as it is, a colon, and the port in decimal.
pub proof fn lemma_addresses_hold_host_and_port(host: Seq<char>, port: u16)
    ensures
        ({
            let addr = address_text(host, port);
            &&& addr.len() > host.len() + 1
            &&& addr.take(host.len() as int) == host
            &&& addr[host.len() as int] == ':'
            &&& text::number(addr.skip(host.len() as int + 1)) == port
            &&& addr.skip(host.len() as int + 1) == text::decimal(port as nat)
        }),
{
    let addr = address_text(host, port);
    text::lemma_decimal_stands_for_the_number(port as nat);
    text::lemma_decimal_is_digits(port as nat);
    assert(addr.take(host.len() as int) =~= host);
    assert(addr.skip(host.len() as int + 1) =~= text::decimal(port as nat));
}

/// An address or a port that is given goes before the configured one, each for itself, and all else
/// stays.
pub proof fn lemma_given_values_go_first(
    before: ServerConfig,
    bind: Option<String>,
    port: Option<u16>,
)
    ensures
        ({
            let after = overridden(before, bind, port);
            &&& bind matches Some(b) ==> after.bind == b
            &&& bind is None ==> after.bind == before.bind
            &&& port matches Some(p) ==> after.port == p
            &&& port is None ==> after.port == before.port
            &&& after.local_screen == before.local_screen
            &&& after.layout == before.layout
            &&& after.tls == before.tls
        }),
{
}

} // verus!
