//! Settings of the gRPC service: its address, the model database and the
//! log level.

use vstd::prelude::*;
use crate::text::{all_digits, decimal, digits_value, is_digit, push_decimal};

verus! {

/// The text `host:port` that the services bind to or connect to.
pub open spec fn host_port(host: Seq<char>, port: u16) -> Seq<char> {
    host + seq![':'] + decimal(port as nat)
}

/// Where the gRPC service listens.
pub struct ServerConfig {
    /// Host of the gRPC server.
    pub host: String,
    /// Port of the gRPC server.
    pub port: u16,
}

impl ServerConfig {
    /// The address `host:port` of the gRPC server.
    pub fn addr(&self) -> (a: String)
        ensures
            a@ == host_port(self.host@, self.port),
    {
        let mut a = self.host.clone();
        a.append(":");
        proof { reveal_strlit(":"); }
        push_decimal(&mut a, self.port as u64);
        proof {
            assert(a@ =~= host_port(self.host@, self.port));
        }
        a
    }
}


/// Verbosity of the service logs.
#[derive(Clone, Copy, Debug, PartialEq, Eq, Structural)]
pub enum LogLevel {
    Trace,
    Debug,
    Info,
    Warn,
    Error,
}

/// The code of `c`, lower-cased where `c` is an ASCII capital letter.
pub open spec fn ascii_lower(c: char) -> int {
    if 'A' <= c && c <= 'Z' {
        c as int + 32
    } else {
        c as int
    }
}

/// Equality of two texts up to the case of ASCII letters.
pub open spec fn eq_ignore_ascii_case(a: Seq<char>, b: Seq<char>) -> bool {
    &&& a.len() == b.len()
    &&& forall|i: int| 0 <= i < a.len() ==> #[trigger] ascii_lower(a[i]) == ascii_lower(b[i])
}

/// The digits of an unsigned number as `usize::from_str` reads them:
/// an optional leading `+` followed by at least one decimal digit.
pub open spec fn unsigned_digits(s: Seq<char>) -> Option<Seq<char>> {
    let d = if s.len() > 0 && s[0] == '+' { s.drop_first() } else { s };
    if d.len() > 0 && all_digits(d) { Some(d) } else { None }
}

/// The level that a number from 1 to 5 names.
pub open spec fn level_of_number(n: nat) -> Option<LogLevel> {
    if n == 1 { Some(LogLevel::Error) }
    else if n == 2 { Some(LogLevel::Warn) }
    else if n == 3 { Some(LogLevel::Info) }
    else if n == 4 { Some(LogLevel::Debug) }
    else if n == 5 { Some(LogLevel::Trace) }
    else { None }
}

/// The level that a text names: a number from 1 (error) to 5 (trace), or one
/// of `error`, `warn`, `info`, `debug`, `trace` in any ASCII case.
pub open spec fn parse_level(s: Seq<char>) -> Option<LogLevel> {
    let numeric = match unsigned_digits(s) {
        Some(d) => level_of_number(digits_value(d)),
        None => None,
    };
    if numeric is Some {
        numeric
    } else if eq_ignore_ascii_case(s, seq!['e', 'r', 'r', 'o', 'r']) {
        Some(LogLevel::Error)
    } else if eq_ignore_ascii_case(s, seq!['w', 'a', 'r', 'n']) {
        Some(LogLevel::Warn)
    } else if eq_ignore_ascii_case(s, seq!['i', 'n', 'f', 'o']) {
        Some(LogLevel::Info)
    } else if eq_ignore_ascii_case(s, seq!['d', 'e', 'b', 'u', 'g']) {
        Some(LogLevel::Debug)
    } else if eq_ignore_ascii_case(s, seq!['t', 'r', 'a', 'c', 'e']) {
        Some(LogLevel::Trace)
    } else {
        None
    }
}

/// The upper-case name of a level.
pub open spec fn level_name(l: LogLevel) -> Seq<char> {
    match l {
        LogLevel::Trace => seq!['T', 'R', 'A', 'C', 'E'],
        LogLevel::Debug => seq!['D', 'E', 'B', 'U', 'G'],
        LogLevel::Info => seq!['I', 'N', 'F', 'O'],
        LogLevel::Warn => seq!['W', 'A', 'R', 'N'],
        LogLevel::Error => seq!['E', 'R', 'R', 'O', 'R'],
    }
}

#[verifier::external_type_specification]
#[verifier::external_body]
pub struct ExParseLevelError(tracing::metadata::ParseLevelError);

/// `tracing::Level::from_str`: the level that `s` names, by number (1 to 5)
/// or by name in any ASCII case; the parse error where it names none.
#[verifier::external_body]
fn level_from_str(s: &str) -> (r: Result<LogLevel, tracing::metadata::ParseLevelError>)
    ensures
        match parse_level(s@) {
            Some(l) => r matches Ok(m) && m == l,
            None => r is Err,
        },
{
    match s.parse::<tracing::Level>() {
        Ok(tracing::Level::ERROR) => Ok(LogLevel::Error),
        Ok(tracing::Level::WARN) => Ok(LogLevel::Warn),
        Ok(tracing::Level::INFO) => Ok(LogLevel::Info),
        Ok(tracing::Level::DEBUG) => Ok(LogLevel::Debug),
        Ok(_) => Ok(LogLevel::Trace),
        Err(e) => Err(e),
    }
}

/// A log level text that names no level.
#[derive(Debug, PartialEq, Eq, Structural)]
pub struct LevelParseError;

/// The text of a log level parse error.
pub open spec fn level_error_text() -> Seq<char> {
    "error parsing level: expected one of \"error\", \"warn\", \"info\", \"debug\", \"trace\", or a number 1-5"@
}

impl LevelParseError {
    /// What went wrong, as the message of the configuration error.
    pub fn message(&self) -> (m: &'static str)
        ensures
            m@ == level_error_text(),
    {
        "error parsing level: expected one of \"error\", \"warn\", \"info\", \"debug\", \"trace\", or a number 1-5"
    }
}

/// The log level used where the configuration names none.
pub fn default_log_level() -> (l: LogLevel)
    ensures
        l == LogLevel::Info,
{
    LogLevel::Info
}

/// Reads the log level from its configuration text.
pub fn try_deserialize_log_level(s: &str) -> (r: Result<LogLevel, LevelParseError>)
    ensures
        match parse_level(s@) {
            Some(l) => r == Ok::<LogLevel, LevelParseError>(l),
            None => r == Err::<LogLevel, LevelParseError>(LevelParseError),
        },
{
    match level_from_str(s) {
        Ok(l) => Ok(l),
        Err(_) => Err(LevelParseError),
    }
}

impl LogLevel {
    /// The upper-case name of the level (`"INFO"`, ...).
    pub fn as_str(&self) -> (s: &'static str)
        ensures
            s@ == level_name(*self),
    {
        proof {
            reveal_strlit("TRACE");
            reveal_strlit("DEBUG");
            reveal_strlit("INFO");
            reveal_strlit("WARN");
            reveal_strlit("ERROR");
        }
        match self {
            LogLevel::Trace => "TRACE",
            LogLevel::Debug => "DEBUG",
            LogLevel::Info => "INFO",
            LogLevel::Warn => "WARN",
            LogLevel::Error => "ERROR",
        }
    }
}

/// A level's name reads back as that level.
pub proof fn lemma_level_name_round_trip(l: LogLevel)
    ensures
        parse_level(level_name(l)) == Some(l),
{
    let s = level_name(l);
    assert(!is_digit(s[0]));
    assert(unsigned_digits(s) is None);
    match l {
        LogLevel::Trace => {
            assert(eq_ignore_ascii_case(s, seq!['t', 'r', 'a', 'c', 'e']));
            assert(!eq_ignore_ascii_case(s, seq!['e', 'r', 'r', 'o', 'r'])) by { assert(ascii_lower(s[0]) != ascii_lower('e')); }
            assert(!eq_ignore_ascii_case(s, seq!['d', 'e', 'b', 'u', 'g'])) by { assert(ascii_lower(s[0]) != ascii_lower('d')); }
        },
        LogLevel::Debug => {
            assert(eq_ignore_ascii_case(s, seq!['d', 'e', 'b', 'u', 'g']));
            assert(!eq_ignore_ascii_case(s, seq!['e', 'r', 'r', 'o', 'r'])) by { assert(ascii_lower(s[0]) != ascii_lower('e')); }
        },
        LogLevel::Info => {
            assert(eq_ignore_ascii_case(s, seq!['i', 'n', 'f', 'o']));
            assert(!eq_ignore_ascii_case(s, seq!['w', 'a', 'r', 'n'])) by { assert(ascii_lower(s[0]) != ascii_lower('w')); }
        },
        LogLevel::Warn => {
            assert(eq_ignore_ascii_case(s, seq!['w', 'a', 'r', 'n']));
        },
        LogLevel::Error => {
            assert(eq_ignore_ascii_case(s, seq!['e', 'r', 'r', 'o', 'r']));
        },
    }
}


/// The colon of `host:port` is its last colon, and the text after it reads
/// back as the port: an address parser that splits at the last colon finds
/// the port again, whatever the host holds (an IPv6 host holds colons).
pub proof fn lemma_addr_port_recoverable(host: Seq<char>, port: u16)
    ensures
        host_port(host, port)[host.len() as int] == ':',
        host_port(host, port).subrange(0, host.len() as int) == host,
        forall|i: int|
            host.len() < i < host_port(host, port).len() ==> #[trigger] host_port(host, port)[i] != ':',
        digits_value(host_port(host, port).subrange(host.len() as int + 1, host_port(host, port).len() as int))
            == port,
{
    let a = host_port(host, port);
    let d = decimal(port as nat);
    crate::text::lemma_decimal_round_trip(port as nat);
    assert(a.subrange(host.len() as int + 1, a.len() as int) =~= d);
    assert(a.subrange(0, host.len() as int) =~= host);
    assert forall|i: int| host.len() < i < a.len() implies #[trigger] a[i] != ':' by {
        assert(a[i] == d[i - host.len() - 1]);
        assert(is_digit(d[i - host.len() - 1]));
    }
}

impl ServerConfig {
    /// An empty host and port 0.
    pub fn empty() -> (c: Self)
        ensures
            c.host@ == Seq::<char>::empty(),
            c.port == 0,
    {
        ServerConfig { host: String::new(), port: 0 }
    }
}

impl Default for ServerConfig {
    fn default() -> (c: Self)
        ensures
            c.host@ == Seq::<char>::empty(),
            c.port == 0,
    {
        ServerConfig::empty()
    }
}

/// Connection settings of the model database.
pub struct DatabaseConfig {
    /// Database name.
    pub db_name: String,
    /// Database user name.
    pub user_name: String,
    /// Database password.
    pub password: String,
    /// Database host.
    pub host: String,
    /// Database port.
    pub port: u16,
}

/// Settings of the gRPC service.
pub struct Settings {
    pub server: ServerConfig,
    pub db: DatabaseConfig,
    pub log_level: LogLevel,
}

} // verus!
