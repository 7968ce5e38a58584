//! Settings of the web service: where it listens, the session store and
//! the gRPC service it forwards to.

use vstd::prelude::*;
use crate::grpc_service::config::{host_port, ServerConfig};
use crate::text::{decimal, digits_value, is_digit, lemma_decimal_round_trip, push_decimal};

verus! {

/// Where the web service listens.
pub struct WebConfig {
    /// Web host.
    pub host: String,
    /// Web port.
    pub port: u16,
}

impl WebConfig {
    /// The address `host:port` of the web server.
    pub fn addr(&self) -> (a: String)
        ensures
            a@ == host_port(self.host@, self.port),
    {
        let mut a = self.host.clone();
        a.append(":");
        proof { reveal_strlit(":"); }
        push_decimal(&mut a, self.port as u64);
        proof {
            assert(a@ =~= host_port(self.host@, self.port));
        }
        a
    }
}

impl Default for WebConfig {
    fn default() -> (c: Self)
        ensures
            c.host@ == Seq::<char>::empty(),
            c.port == 0,
    {
        WebConfig { host: String::new(), port: 0 }
    }
}

/// The session store's connection text:
/// `redis://default:{password}@{host}:{port}/0`.
pub open spec fn redis_url(password: Seq<char>, host: Seq<char>, port: u16) -> Seq<char> {
    seq!['r', 'e', 'd', 'i', 's', ':', '/', '/', 'd', 'e', 'f', 'a', 'u', 'l', 't', ':']
        + password + seq!['@'] + host_port(host, port) + seq!['/', '0']
}

/// The connection text names the configured settings: after the scheme and
/// user come the password and `@`, then the host, a `:` that is the text's
/// last colon, the digits of the port, which read back as the port, and
/// `/0`.
pub proof fn lemma_redis_url_names_settings(password: Seq<char>, host: Seq<char>, port: u16)
    ensures
        redis_url(password, host, port).subrange(0, 16) == seq![
            'r', 'e', 'd', 'i', 's', ':', '/', '/', 'd', 'e', 'f', 'a', 'u', 'l', 't', ':',
        ],
        redis_url(password, host, port).subrange(16, 16 + password.len() as int) == password,
        redis_url(password, host, port)[16 + password.len() as int] == '@',
        redis_url(password, host, port).subrange(
            17 + password.len() as int,
            17 + password.len() as int + host.len() as int,
        ) == host,
        redis_url(password, host, port)[17 + password.len() as int + host.len() as int] == ':',
        forall|i: int|
            18 + password.len() as int + host.len() as int <= i < redis_url(password, host, port).len() - 2
                ==> is_digit(#[trigger] redis_url(password, host, port)[i]),
        digits_value(
            redis_url(password, host, port).subrange(
                18 + password.len() as int + host.len() as int,
                redis_url(password, host, port).len() - 2,
            ),
        ) == port,
        redis_url(password, host, port).subrange(
            redis_url(password, host, port).len() - 2,
            redis_url(password, host, port).len() as int,
        ) == seq!['/', '0'],
{
    let u = redis_url(password, host, port);
    let d = decimal(port as nat);
    lemma_decimal_round_trip(port as nat);
    let a = 17 + password.len() as int + host.len() as int;
    assert(u.len() == a + 1 + d.len() + 2);
    assert(u.subrange(0, 16) =~= seq![
        'r', 'e', 'd', 'i', 's', ':', '/', '/', 'd', 'e', 'f', 'a', 'u', 'l', 't', ':',
    ]);
    assert(u.subrange(16, 16 + password.len() as int) =~= password);
    assert(u.subrange(17 + password.len() as int, a as int) =~= host);
    assert(u.subrange(a + 1, u.len() - 2) =~= d);
    assert forall|i: int| a + 1 <= i < u.len() - 2 implies is_digit(#[trigger] u[i]) by {
        assert(u[i] == d[i - a - 1]);
    }
    assert(u.subrange(u.len() - 2, u.len() as int) =~= seq!['/', '0']);
}

/// Connection settings of the session store.
pub struct RedisConfig {
    /// Redis host.
    pub host: String,
    /// Redis port.
    pub port: u16,
    /// Redis password.
    pub password: String,
}

impl RedisConfig {
    /// The connection text of the session store.
    pub fn connection_url(&self) -> (u: String)
        ensures
            u@ == redis_url(self.password@, self.host@, self.port),
            u@.subrange(16, 16 + self.password@.len() as int) == self.password@,
            u@.subrange(17 + self.password@.len() as int, 17 + self.password@.len() as int + self.host@.len() as int)
                == self.host@,
            digits_value(u@.subrange(18 + self.password@.len() as int + self.host@.len() as int, u@.len() - 2))
                == self.port,
    {
        proof {
            lemma_redis_url_names_settings(self.password@, self.host@, self.port);
        }
        proof {
            reveal_strlit("redis://default:");
            reveal_strlit("@");
            reveal_strlit(":");
            reveal_strlit("/0");
        }
        let mut u = String::from_str("redis://default:");
        u.append(self.password.as_str());
        u.append("@");
        u.append(self.host.as_str());
        u.append(":");
        push_decimal(&mut u, self.port as u64);
        u.append("/0");
        proof {
            assert(u@ =~= redis_url(self.password@, self.host@, self.port));
        }
        u
    }
}

impl Default for RedisConfig {
    fn default() -> (c: Self)
        ensures
            c.host@ == Seq::<char>::empty(),
            c.port == 0,
            c.password@ == Seq::<char>::empty(),
    {
        RedisConfig { host: String::new(), port: 0, password: String::new() }
    }
}

/// Settings of the web service.
pub struct Settings {
    pub server: WebConfig,
    pub redis: RedisConfig,
    pub grpc: ServerConfig,
}

impl Default for Settings {
    fn default() -> (s: Self)
        ensures
            s.server.host@ == Seq::<char>::empty(),
            s.server.port == 0,
            s.redis.host@ == Seq::<char>::empty(),
            s.redis.port == 0,
            s.redis.password@ == Seq::<char>::empty(),
            s.grpc.host@ == Seq::<char>::empty(),
            s.grpc.port == 0,
    {
        Settings {
            server: WebConfig::default(),
            redis: RedisConfig::default(),
            grpc: ServerConfig::default(),
        }
    }
}

} // verus!
