//! The honeypot capability: one closed set of variants, each bound to a
//! port and a protocol.
use vstd::prelude::*;

verus! {

#[derive(Debug, Clone, Copy, PartialEq, Eq, Structural)]
pub enum HoneypotType {
    Ssh,
    Http,
    Mysql,
}

/// The protocol's display name.
pub open spec fn type_label(t: HoneypotType) -> Seq<char> {
    match t {
        HoneypotType::Ssh => "SSH"@,
        HoneypotType::Http => "HTTP"@,
        HoneypotType::Mysql => "MySQL"@,
    }
}

impl HoneypotType {
    /// The protocol's display name: `SSH`, `HTTP` or `MySQL`.
    pub fn label(&self) -> (r: &'static str)
        ensures
            r@ == type_label(*self),
    {
        match self {
            HoneypotType::Ssh => "SSH",
            HoneypotType::Http => "HTTP",
            HoneypotType::Mysql => "MySQL",
        }
    }
}

/// SSH honeypot (medium interaction).
#[derive(Debug, Clone, Copy, PartialEq, Eq, Structural)]
pub struct SshHoneypot {
    port: u16,
}

/// HTTP honeypot (high interaction).
#[derive(Debug, Clone, Copy, PartialEq, Eq, Structural)]
pub struct HttpHoneypot {
    port: u16,
}

/// MySQL honeypot (low interaction).
#[derive(Debug, Clone, Copy, PartialEq, Eq, Structural)]
pub struct MysqlHoneypot {
    port: u16,
}

impl SshHoneypot {
    pub closed spec fn port_spec(&self) -> u16 {
        self.port
    }

    pub fn new(port: u16) -> (r: Self)
        ensures
            r.port_spec() == port,
    {
        SshHoneypot { port }
    }

    pub fn port(&self) -> (r: u16)
        ensures
            r == self.port_spec(),
    {
        self.port
    }

    pub fn service_type(&self) -> (r: HoneypotType)
        ensures
            r == HoneypotType::Ssh,
    {
        HoneypotType::Ssh
    }
}

impl HttpHoneypot {
    pub closed spec fn port_spec(&self) -> u16 {
        self.port
    }

    pub fn new(port: u16) -> (r: Self)
        ensures
            r.port_spec() == port,
    {
        HttpHoneypot { port }
    }

    pub fn port(&self) -> (r: u16)
        ensures
            r == self.port_spec(),
    {
        self.port
    }

    pub fn service_type(&self) -> (r: HoneypotType)
        ensures
            r == HoneypotType::Http,
    {
        HoneypotType::Http
    }
}

impl MysqlHoneypot {
    pub closed spec fn port_spec(&self) -> u16 {
        self.port
    }

    pub fn new(port: u16) -> (r: Self)
        ensures
            r.port_spec() == port,
    {
        MysqlHoneypot { port }
    }

    pub fn port(&self) -> (r: u16)
        ensures
            r == self.port_spec(),
    {
        self.port
    }

    pub fn service_type(&self) -> (r: HoneypotType)
        ensures
            r == HoneypotType::Mysql,
    {
        HoneypotType::Mysql
    }
}

/// A deployed honeypot of one of the three protocols.
#[derive(Debug, Clone, Copy, PartialEq, Eq, Structural)]
pub enum Honeypot {
    Ssh(SshHoneypot),
    Http(HttpHoneypot),
    Mysql(MysqlHoneypot),
}

impl Honeypot {
    pub open spec fn port_of(&self) -> u16 {
        match self {
            Honeypot::Ssh(h) => h.port_spec(),
            Honeypot::Http(h) => h.port_spec(),
            Honeypot::Mysql(h) => h.port_spec(),
        }
    }

    pub open spec fn type_of(&self) -> HoneypotType {
        match self {
            Honeypot::Ssh(_) => HoneypotType::Ssh,
            Honeypot::Http(_) => HoneypotType::Http,
            Honeypot::Mysql(_) => HoneypotType::Mysql,
        }
    }

    /// A honeypot of type `honeypot_type` on `port`.
    pub fn create(honeypot_type: HoneypotType, port: u16) -> (r: Self)
        ensures
            r.port_of() == port,
            r.type_of() == honeypot_type,
    {
        match honeypot_type {
            HoneypotType::Ssh => Honeypot::Ssh(SshHoneypot::new(port)),
            HoneypotType::Http => Honeypot::Http(HttpHoneypot::new(port)),
            HoneypotType::Mysql => Honeypot::Mysql(MysqlHoneypot::new(port)),
        }
    }

    pub fn port(&self) -> (r: u16)
        ensures
            r == self.port_of(),
    {
        match self {
            Honeypot::Ssh(h) => h.port(),
            Honeypot::Http(h) => h.port(),
            Honeypot::Mysql(h) => h.port(),
        }
    }

    pub fn service_type(&self) -> (r: HoneypotType)
        ensures
            r == self.type_of(),
    {
        match self {
            Honeypot::Ssh(h) => h.service_type(),
            Honeypot::Http(h) => h.service_type(),
            Honeypot::Mysql(h) => h.service_type(),
        }
    }
}

} // verus!
