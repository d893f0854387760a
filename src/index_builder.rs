//! Where the target index lives and how to reach it.
use vstd::prelude::*;
use crate::protocol::{scheme_of, Protocol};

verus! {

pub const DEFAULT_HOST: &'static str = "localhost";

pub const DEFAULT_PORT: u16 = 9200;

/// User name and password for basic authentication.
#[derive(Debug)]
pub struct Credentials {
    pub username: String,
    pub password: String,
}

/// The settings of one target index.
#[derive(Debug)]
pub struct IndexBuilder {
    pub host: Option<String>,
    pub port: Option<u16>,
    pub index_name: String,
    pub do_certificate_validation: bool,
    pub credentials: Option<Credentials>,
    pub protocol: Protocol,
}

/// Sets the host, from either a `String` or a `&str`.
pub trait WithHost<T> {
    fn with_host(self, host: T) -> Self;
}

/// The decimal digits of `n`, most significant first.
pub open spec fn decimal(n: nat) -> Seq<char>
    decreases n,
{
    if n < 10 {
        seq![digit_char(n)]
    } else {
        decimal(n / 10).push(digit_char(n % 10))
    }
}

pub open spec fn digit_char(d: nat) -> char {
    if d == 0 {
        '0'
    } else if d == 1 {
        '1'
    } else if d == 2 {
        '2'
    } else if d == 3 {
        '3'
    } else if d == 4 {
        '4'
    } else if d == 5 {
        '5'
    } else if d == 6 {
        '6'
    } else if d == 7 {
        '7'
    } else if d == 8 {
        '8'
    } else {
        '9'
    }
}

fn digit_str(d: u16) -> (r: &'static str)
    requires
        d < 10,
    ensures
        r@ == seq![digit_char(d as nat)],
{
    proof {
        reveal_strlit("0");
        reveal_strlit("1");
        reveal_strlit("2");
        reveal_strlit("3");
        reveal_strlit("4");
        reveal_strlit("5");
        reveal_strlit("6");
        reveal_strlit("7");
        reveal_strlit("8");
        reveal_strlit("9");
    }
    let r = if d == 0 {
        "0"
    } else if d == 1 {
        "1"
    } else if d == 2 {
        "2"
    } else if d == 3 {
        "3"
    } else if d == 4 {
        "4"
    } else if d == 5 {
        "5"
    } else if d == 6 {
        "6"
    } else if d == 7 {
        "7"
    } else if d == 8 {
        "8"
    } else {
        "9"
    };
    assert(r@ =~= seq![digit_char(d as nat)]);
    r
}

fn append_decimal(s: &mut String, n: u16)
    ensures
        final(s)@ == old(s)@ + decimal(n as nat),
    decreases n,
{
    if n >= 10 {
        append_decimal(s, n / 10);
    }
    s.append(digit_str(n % 10));
    assert(final(s)@ =~= old(s)@ + decimal(n as nat));
}

pub open spec fn opt_host(h: Option<String>) -> Seq<char> {
    match h {
        Some(h) => h@,
        None => DEFAULT_HOST@,
    }
}

pub open spec fn opt_port(p: Option<u16>) -> u16 {
    match p {
        Some(p) => p,
        None => DEFAULT_PORT,
    }
}

impl IndexBuilder {
    /// Settings for the index `index_name`: default host and port, HTTPS,
    /// certificates checked, no credentials.
    pub fn with_name(index_name: String) -> (r: IndexBuilder)
        ensures
            r == (IndexBuilder {
                host: None,
                port: None,
                index_name,
                do_certificate_validation: true,
                credentials: None,
                protocol: Protocol::Https,
            }),
    {
        IndexBuilder {
            host: None,
            port: None,
            index_name,
            do_certificate_validation: true,
            credentials: None,
            protocol: Protocol::Https,
        }
    }

    pub fn with_port(self, port: u16) -> (r: IndexBuilder)
        ensures
            r == (IndexBuilder { port: Some(port), ..self }),
    {
        IndexBuilder { port: Some(port), ..self }
    }

    pub fn with_host_name(self, host: &str) -> (r: IndexBuilder)
        ensures
            r.host is Some && r.host->Some_0@ == host@,
            r.port == self.port && r.index_name == self.index_name && r.protocol == self.protocol,
            r.do_certificate_validation == self.do_certificate_validation,
            r.credentials == self.credentials,
    {
        IndexBuilder { host: Some(host.to_string()), ..self }
    }

    pub fn without_certificate_validation(self) -> (r: IndexBuilder)
        ensures
            r == (IndexBuilder { do_certificate_validation: false, ..self }),
    {
        IndexBuilder { do_certificate_validation: false, ..self }
    }

    pub fn with_credentials(self, credentials: Credentials) -> (r: IndexBuilder)
        ensures
            r == (IndexBuilder { credentials: Some(credentials), ..self }),
    {
        IndexBuilder { credentials: Some(credentials), ..self }
    }

    pub fn with_protocol(self, protocol: Protocol) -> (r: IndexBuilder)
        ensures
            r == (IndexBuilder { protocol, ..self }),
    {
        IndexBuilder { protocol, ..self }
    }

    /// The host, `localhost` where none was set.
    pub fn host(&self) -> (r: &str)
        ensures
            r@ == opt_host(self.host),
    {
        match &self.host {
            Some(h) => h.as_str(),
            None => DEFAULT_HOST,
        }
    }

    /// The port, 9200 where none was set.
    pub fn port(&self) -> (r: u16)
        ensures
            r == opt_port(self.port),
    {
        match self.port {
            Some(p) => p,
            None => DEFAULT_PORT,
        }
    }

    pub fn index_name(&self) -> (r: &str)
        ensures
            r@ == self.index_name@,
    {
        self.index_name.as_str()
    }

    /// The store's base URL: `scheme://host:port`.
    pub fn url(&self) -> (r: String)
        ensures
            r@ == scheme_of(self.protocol) + "://"@ + opt_host(self.host) + ":"@ + decimal(
                opt_port(self.port) as nat,
            ),
    {
        let mut s = String::new();
        s.append(self.protocol.scheme());
        s.append("://");
        s.append(self.host());
        s.append(":");
        append_decimal(&mut s, self.port());
        assert(s@ =~= scheme_of(self.protocol) + "://"@ + opt_host(self.host) + ":"@ + decimal(
            opt_port(self.port) as nat,
        ));
        s
    }

    /// Whether `indices`, the names of the store's indices, holds this
    /// index's name exactly.
    pub fn has_index(&self, indices: &Vec<String>) -> (r: bool)
        ensures
            r == exists|k: int| 0 <= k < indices@.len() && (#[trigger] indices@[k])@ == self.index_name@,
    {
        let mut i: usize = 0;
        while i < indices.len()
            invariant
                i <= indices@.len(),
                forall|k: int| 0 <= k < i ==> (#[trigger] indices@[k])@ != self.index_name@,
            decreases indices@.len() - i,
        {
            if indices[i] == self.index_name {
                return true;
            }
            i = i + 1;
        }
        false
    }
}

impl WithHost<String> for IndexBuilder {
    fn with_host(self, host: String) -> IndexBuilder {
        IndexBuilder { host: Some(host), ..self }
    }
}

impl<'a> WithHost<&'a str> for IndexBuilder {
    fn with_host(self, host: &'a str) -> IndexBuilder {
        self.with_host_name(host)
    }
}

} // verus!
