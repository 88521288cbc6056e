//! The settings of a relay and what follows from them.

use crate::acceptor::{Acceptor, AcceptorModel};
use crate::gate::{Gate, GateModel};
use crate::numeral::{decimal, flag_value, number_or_default, push_decimal};
use crate::timer::{IdleTimer, TimerModel};
use vstd::prelude::*;

verus! {

/// Port the relay listens on when none is given.
pub const DEFAULT_LISTEN_PORT: u16 = 8888;

/// Destination port when none is given.
pub const DEFAULT_DESTINATION_PORT: u16 = 8080;

/// Number of chunks dropped when none is given.
pub const DEFAULT_SKIP_COUNT: usize = 0;

/// Idle timeout in seconds when none is given.
pub const DEFAULT_IDLE_TIMEOUT_SECS: u64 = 30;

/// Largest number of connections served at once when none is given.
pub const DEFAULT_MAX_CONNECTIONS: usize = 1000;

/// Why a set of settings is refused.
#[derive(Clone, Copy, Debug, PartialEq, Eq, Structural)]
pub enum ConfigError {
    /// A relay that admits no connection serves nobody.
    NoConnections,
}

/// The socket address `host:port`.
pub open spec fn address(host: Seq<char>, port: nat) -> Seq<char> {
    host + seq![':'] + decimal(port)
}

/// `secs` seconds in milliseconds, held at the largest `u64`.
pub open spec fn millis(secs: nat) -> nat {
    if secs * 1000 > u64::MAX {
        u64::MAX as nat
    } else {
        secs * 1000
    }
}

/// Mathematical value of a configuration.
pub struct ConfigModel {
    pub listen_port: u16,
    pub destination_host: Seq<char>,
    pub destination_port: u16,
    pub skip_count: nat,
    /// Zero switches the idle timeout off.
    pub idle_timeout_secs: nat,
    pub max_connections: nat,
}

impl ConfigModel {
    /// At least one connection is admitted.
    pub open spec fn wf(self) -> bool {
        self.max_connections >= 1
    }

    /// The settings that the texts of the command-line flags stand for.
    /// A numeric flag whose text is no number, or a number that its field
    /// cannot hold, stands for the field's default.
    pub open spec fn from_flags(
        listen_port: Seq<char>,
        destination_host: Seq<char>,
        destination_port: Seq<char>,
        skip_count: Seq<char>,
        idle_timeout_secs: Seq<char>,
        max_connections: Seq<char>,
    ) -> ConfigModel {
        ConfigModel {
            listen_port: flag_value(listen_port, DEFAULT_LISTEN_PORT as u64, u16::MAX as u64) as u16,
            destination_host,
            destination_port: flag_value(
                destination_port,
                DEFAULT_DESTINATION_PORT as u64,
                u16::MAX as u64,
            ) as u16,
            skip_count: flag_value(skip_count, DEFAULT_SKIP_COUNT as u64, usize::MAX as u64) as nat,
            idle_timeout_secs: flag_value(
                idle_timeout_secs,
                DEFAULT_IDLE_TIMEOUT_SECS,
                u64::MAX,
            ) as nat,
            max_connections: flag_value(
                max_connections,
                DEFAULT_MAX_CONNECTIONS as u64,
                usize::MAX as u64,
            ) as nat,
        }
    }
}

/// The settings of a relay. They never change once made.
#[derive(Debug)]
pub struct Config {
    listen_port: u16,
    destination_host: String,
    destination_port: u16,
    skip_count: usize,
    idle_timeout_secs: u64,
    max_connections: usize,
}

impl View for Config {
    type V = ConfigModel;

    closed spec fn view(&self) -> ConfigModel {
        ConfigModel {
            listen_port: self.listen_port,
            destination_host: self.destination_host@,
            destination_port: self.destination_port,
            skip_count: self.skip_count as nat,
            idle_timeout_secs: self.idle_timeout_secs as nat,
            max_connections: self.max_connections as nat,
        }
    }
}

impl Config {
    #[verifier::type_invariant]
    spec fn inv(&self) -> bool {
        self.max_connections >= 1
    }

    /// Settings made of the given values. Refused if and only if
    /// `max_connections` is zero.
    pub fn new(
        listen_port: u16,
        destination_host: String,
        destination_port: u16,
        skip_count: usize,
        idle_timeout_secs: u64,
        max_connections: usize,
    ) -> (r: Result<Config, ConfigError>)
        ensures
            max_connections == 0 <==> r == Err::<Config, ConfigError>(ConfigError::NoConnections),
            max_connections >= 1 <==> r.is_ok(),
            r.is_ok() ==> r.unwrap()@ == (ConfigModel {
                listen_port,
                destination_host: destination_host@,
                destination_port,
                skip_count: skip_count as nat,
                idle_timeout_secs: idle_timeout_secs as nat,
                max_connections: max_connections as nat,
            }) && r.unwrap()@.wf(),
    {
        if max_connections == 0 {
            Err(ConfigError::NoConnections)
        } else {
            Ok(
                Config {
                    listen_port,
                    destination_host,
                    destination_port,
                    skip_count,
                    idle_timeout_secs,
                    max_connections,
                },
            )
        }
    }

    /// Settings read from the texts of the command-line flags. A numeric
    /// flag that cannot be read falls back to its default; the settings are
    /// refused if and only if they admit no connection.
    pub fn from_flags(
        listen_port: &str,
        destination_host: &str,
        destination_port: &str,
        skip_count: &str,
        idle_timeout_secs: &str,
        max_connections: &str,
    ) -> (r: Result<Config, ConfigError>)
        ensures
            ({
                let m = ConfigModel::from_flags(
                    listen_port@,
                    destination_host@,
                    destination_port@,
                    skip_count@,
                    idle_timeout_secs@,
                    max_connections@,
                );
                &&& m.max_connections == 0 <==> r == Err::<Config, ConfigError>(
                    ConfigError::NoConnections,
                )
                &&& m.max_connections >= 1 <==> r.is_ok()
                &&& r.is_ok() ==> r.unwrap()@ == m
            }),
    {
        let listen: u64 = number_or_default(listen_port, DEFAULT_LISTEN_PORT as u64, u16::MAX as u64);
        let port: u64 = number_or_default(
            destination_port,
            DEFAULT_DESTINATION_PORT as u64,
            u16::MAX as u64,
        );
        let skip: u64 = number_or_default(skip_count, DEFAULT_SKIP_COUNT as u64, usize::MAX as u64);
        let idle: u64 = number_or_default(idle_timeout_secs, DEFAULT_IDLE_TIMEOUT_SECS, u64::MAX);
        let max: u64 = number_or_default(
            max_connections,
            DEFAULT_MAX_CONNECTIONS as u64,
            usize::MAX as u64,
        );
        Config::new(
            listen as u16,
            String::from_str(destination_host),
            port as u16,
            skip as usize,
            idle,
            max as usize,
        )
    }

    /// The port the relay listens on.
    pub fn listen_port(&self) -> (p: u16)
        ensures
            p == self@.listen_port,
    {
        self.listen_port
    }

    /// The host that every connection is relayed to.
    pub fn destination_host(&self) -> (h: &str)
        ensures
            h@ == self@.destination_host,
    {
        self.destination_host.as_str()
    }

    /// The port on the destination host.
    pub fn destination_port(&self) -> (p: u16)
        ensures
            p == self@.destination_port,
    {
        self.destination_port
    }

    /// Number of leading chunks from the client that are dropped.
    pub fn skip_count(&self) -> (k: usize)
        ensures
            k == self@.skip_count,
    {
        self.skip_count
    }

    /// The idle timeout in seconds; zero means none.
    pub fn idle_timeout_secs(&self) -> (t: u64)
        ensures
            t == self@.idle_timeout_secs,
    {
        self.idle_timeout_secs
    }

    /// Largest number of connections served at once; at least one.
    pub fn max_connections(&self) -> (m: usize)
        ensures
            m == self@.max_connections,
            m >= 1,
            self@.wf(),
    {
        proof {
            use_type_invariant(self);
        }
        self.max_connections
    }

    /// The idle timeout in milliseconds, held at the largest `u64`.
    pub fn idle_timeout_millis(&self) -> (t: u64)
        ensures
            t == millis(self@.idle_timeout_secs),
            t == 0 <==> self@.idle_timeout_secs == 0,
    {
        if self.idle_timeout_secs > u64::MAX / 1000 {
            u64::MAX
        } else {
            self.idle_timeout_secs * 1000
        }
    }

    /// The address to listen on: every interface, the configured port.
    pub fn bind_address(&self) -> (a: String)
        ensures
            a@ == address("0.0.0.0"@, self@.listen_port as nat),
    {
        let mut out = String::from_str("0.0.0.0");
        out.append(":");
        proof {
            reveal_strlit(":");
            assert(":"@ =~= seq![':']);
        }
        push_decimal(&mut out, self.listen_port);
        out
    }

    /// The address to dial for every connection.
    pub fn dial_address(&self) -> (a: String)
        ensures
            a@ == address(self@.destination_host, self@.destination_port as nat),
    {
        let mut out = self.destination_host.clone();
        out.append(":");
        proof {
            reveal_strlit(":");
            assert(":"@ =~= seq![':']);
        }
        push_decimal(&mut out, self.destination_port);
        out
    }

    /// A gate with one permit for each connection these settings admit.
    pub fn gate(&self) -> (g: Gate)
        ensures
            g@ == GateModel::start(self@.max_connections),
            g@.wf(),
    {
        proof {
            use_type_invariant(self);
        }
        Gate::new(self.max_connections).unwrap()
    }

    /// An acceptor that serves as many connections at once as these
    /// settings admit.
    pub fn acceptor(&self) -> (a: Acceptor)
        ensures
            a@ == AcceptorModel::start(self@.max_connections),
            a@.wf(),
    {
        proof {
            use_type_invariant(self);
        }
        Acceptor::new(self.max_connections).unwrap()
    }

    /// An idle timer for a session that starts at `now_ms`.
    pub fn idle_timer(&self, now_ms: u64) -> (t: IdleTimer)
        ensures
            t@ == TimerModel::start(millis(self@.idle_timeout_secs), now_ms as nat),
    {
        IdleTimer::new(self.idle_timeout_millis(), now_ms)
    }
}

impl Clone for Config {
    fn clone(&self) -> (c: Config)
        ensures
            c@ == self@,
    {
        proof {
            use_type_invariant(self);
        }
        Config {
            listen_port: self.listen_port,
            destination_host: self.destination_host.clone(),
            destination_port: self.destination_port,
            skip_count: self.skip_count,
            idle_timeout_secs: self.idle_timeout_secs,
            max_connections: self.max_connections,
        }
    }
}

impl Default for Config {
    /// Listens on port 8888 and relays to `127.0.0.1:8080`, drops nothing,
    /// gives up after 30 idle seconds and serves 1000 connections at once.
    fn default() -> (c: Config)
        ensures
            c@ == (ConfigModel {
                listen_port: DEFAULT_LISTEN_PORT,
                destination_host: "127.0.0.1"@,
                destination_port: DEFAULT_DESTINATION_PORT,
                skip_count: DEFAULT_SKIP_COUNT as nat,
                idle_timeout_secs: DEFAULT_IDLE_TIMEOUT_SECS as nat,
                max_connections: DEFAULT_MAX_CONNECTIONS as nat,
            }),
    {
        Config {
            listen_port: DEFAULT_LISTEN_PORT,
            destination_host: String::from_str("127.0.0.1"),
            destination_port: DEFAULT_DESTINATION_PORT,
            skip_count: DEFAULT_SKIP_COUNT,
            idle_timeout_secs: DEFAULT_IDLE_TIMEOUT_SECS,
            max_connections: DEFAULT_MAX_CONNECTIONS,
        }
    }
}

} // verus!
