//! The agent's configuration, read from its command-line arguments.
use vstd::prelude::*;
use crate::textutil::chars_of;

verus! {

/// Agent configuration. Addresses are plain numbers (`10.0.0.1` is `0x0A000001`).
#[derive(Clone, Debug)]
pub struct Config {
    /// Network interface the packet classifier is attached to.
    pub iface_name: String,
    /// IPv4 address of the controller.
    pub controller_ip: u32,
    /// Host name of the controller, given by `--host` and not yet resolved;
    /// once resolved, its IPv4 address replaces `controller_ip`.
    pub controller_host: Option<String>,
    /// Port of the controller's control channel.
    pub controller_port: u16,
    /// Age in nanoseconds past which the classifier refreshes `last_seen_ns`.
    pub lazy_update_timeout: u64,
    /// TLS certificate paths.
    pub cert_file: String,
    pub key_file: String,
    pub ca_file: String,
    /// Idle time in nanoseconds after which a pin-hole is reaped.
    pub rule_timeout_ns: u64,
    /// Seconds between two reaper passes.
    pub cleanup_interval_sec: u64,
    /// Capacity of the snapshot broadcaster.
    pub broadcast_channel_size: usize,
    /// Port the session service listens on.
    pub grpc_server_port: u16,
}

/// The configuration as plain values.
pub struct ConfigView {
    pub iface_name: Seq<char>,
    pub controller_ip: u32,
    pub controller_host: Option<Seq<char>>,
    pub controller_port: u16,
    pub lazy_update_timeout: u64,
    pub cert_file: Seq<char>,
    pub key_file: Seq<char>,
    pub ca_file: Seq<char>,
    pub rule_timeout_ns: u64,
    pub cleanup_interval_sec: u64,
    pub broadcast_channel_size: usize,
    pub grpc_server_port: u16,
}

impl View for Config {
    type V = ConfigView;

    open spec fn view(&self) -> ConfigView {
        ConfigView {
            iface_name: self.iface_name@,
            controller_ip: self.controller_ip,
            controller_host: match self.controller_host {
                Some(h) => Some(h@),
                None => None,
            },
            controller_port: self.controller_port,
            lazy_update_timeout: self.lazy_update_timeout,
            cert_file: self.cert_file@,
            key_file: self.key_file@,
            ca_file: self.ca_file@,
            rule_timeout_ns: self.rule_timeout_ns,
            cleanup_interval_sec: self.cleanup_interval_sec,
            broadcast_channel_size: self.broadcast_channel_size,
            grpc_server_port: self.grpc_server_port,
        }
    }
}

/// Why the arguments do not make a configuration; `arg` is the index of the
/// offending value among the arguments.
#[derive(Clone, Copy, Debug, PartialEq, Eq, Structural)]
pub enum ConfigError {
    InvalidIp { arg: usize },
    InvalidPort { arg: usize },
    InvalidUpdateTime { arg: usize },
    InvalidRuleTimeout { arg: usize },
    InvalidCleanupInterval { arg: usize },
    InvalidChannelSize { arg: usize },
    InvalidGrpcPort { arg: usize },
    /// `-h` or `--help` was given: print the usage and exit successfully.
    HelpRequested,
}

/// `172.21.0.5`, the controller's default address.
pub const DEFAULT_CONTROLLER_IP: u32 = 0xAC15_0005;

pub open spec fn default_view() -> ConfigView {
    ConfigView {
        iface_name: "eth0"@,
        controller_ip: DEFAULT_CONTROLLER_IP,
        controller_host: None,
        controller_port: 443,
        lazy_update_timeout: 1_000_000_000,
        cert_file: "certs/agent.pem"@,
        key_file: "certs/agent.key"@,
        ca_file: "certs/ca.pem"@,
        rule_timeout_ns: 60_000_000_000,
        cleanup_interval_sec: 30,
        broadcast_channel_size: 16,
        grpc_server_port: 50001,
    }
}

impl Default for Config {
    fn default() -> (r: Config)
        ensures
            r@ == default_view(),
    {
        Config {
            iface_name: "eth0".to_owned(),
            controller_ip: DEFAULT_CONTROLLER_IP,
            controller_host: None,
            controller_port: 443,
            lazy_update_timeout: 1_000_000_000,
            cert_file: "certs/agent.pem".to_owned(),
            key_file: "certs/agent.key".to_owned(),
            ca_file: "certs/ca.pem".to_owned(),
            rule_timeout_ns: 60_000_000_000,
            cleanup_interval_sec: 30,
            broadcast_channel_size: 16,
            grpc_server_port: 50001,
        }
    }
}

pub open spec fn is_digit(c: char) -> bool {
    '0' <= c <= '9'
}

pub open spec fn digit_value(c: char) -> nat {
    (c as nat - '0' as nat) as nat
}

/// The number written by a run of decimal digits.
pub open spec fn digits_value(s: Seq<char>) -> nat
    decreases s.len(),
{
    if s.len() == 0 {
        0
    } else {
        digits_value(s.drop_last()) * 10 + digit_value(s.last())
    }
}

/// What `str::parse::<u64>` gives: an optional `+`, then one or more ASCII
/// digits whose value fits in 64 bits.
pub open spec fn decimal_u64(s: Seq<char>) -> Option<u64> {
    let d = if s.len() > 0 && s[0] == '+' {
        s.drop_first()
    } else {
        s
    };
    if d.len() > 0 && (forall|i: int| 0 <= i < d.len() ==> is_digit(#[trigger] d[i])) && digits_value(d)
        <= u64::MAX {
        Some(digits_value(d) as u64)
    } else {
        None
    }
}

/// Relies on `str::parse::<u64>`, whose documented grammar is an optional `+`
/// followed by ASCII digits, failing on anything else and on overflow.
#[verifier::external_body]
fn parse_u64(s: &str) -> (r: Option<u64>)
    ensures
        r == decimal_u64(s@),
{
    s.parse::<u64>().ok()
}

pub open spec fn decimal_u16(s: Seq<char>) -> Option<u16> {
    match decimal_u64(s) {
        Some(v) => if v <= u16::MAX {
            Some(v as u16)
        } else {
            None
        },
        None => None,
    }
}

pub open spec fn decimal_usize(s: Seq<char>) -> Option<usize> {
    match decimal_u64(s) {
        Some(v) => if v <= usize::MAX {
            Some(v as usize)
        } else {
            None
        },
        None => None,
    }
}

fn parse_u16(s: &str) -> (r: Option<u16>)
    ensures
        r == decimal_u16(s@),
{
    match parse_u64(s) {
        Some(v) => if v <= u16::MAX as u64 {
            Some(v as u16)
        } else {
            None
        },
        None => None,
    }
}

fn parse_usize(s: &str) -> (r: Option<usize>)
    ensures
        r == decimal_usize(s@),
{
    match parse_u64(s) {
        Some(v) => if v <= usize::MAX as u64 {
            Some(v as usize)
        } else {
            None
        },
        None => None,
    }
}

/// Index of the first `.` at or after `from`, or the length when there is none.
pub open spec fn next_dot(s: Seq<char>, from: int) -> int
    decreases s.len() - from,
{
    if from >= s.len() {
        s.len() as int
    } else if s[from] == '.' {
        from
    } else {
        next_dot(s, from + 1)
    }
}

/// A decimal octet as an IPv4 address writes it: one to three digits, no
/// leading zero unless it is `0` itself, at most 255.
pub open spec fn octet_of(p: Seq<char>) -> Option<u8> {
    if 1 <= p.len() <= 3 && (forall|i: int| 0 <= i < p.len() ==> is_digit(#[trigger] p[i])) && (
    p.len() == 1 || p[0] != '0') && digits_value(p) <= 255 {
        Some(digits_value(p) as u8)
    } else {
        None
    }
}

/// The address written as four dotted octets, `a.b.c.d`, with nothing else.
pub open spec fn ipv4_of(s: Seq<char>) -> Option<u32> {
    let d1 = next_dot(s, 0);
    let d2 = next_dot(s, d1 + 1);
    let d3 = next_dot(s, d2 + 1);
    let a = octet_of(s.subrange(0, d1));
    let b = octet_of(s.subrange(d1 + 1, d2));
    let c = octet_of(s.subrange(d2 + 1, d3));
    let d = octet_of(s.subrange(d3 + 1, s.len() as int));
    if d3 < s.len() && next_dot(s, d3 + 1) == s.len() && a is Some && b is Some && c is Some
        && d is Some {
        Some(
            ((a->0 as u32) * 0x100_0000 + (b->0 as u32) * 0x1_0000 + (c->0 as u32) * 0x100 + (
            d->0 as u32)) as u32,
        )
    } else {
        None
    }
}

fn find_dot(s: &Vec<char>, from: usize) -> (r: usize)
    requires
        from <= s@.len(),
    ensures
        r == next_dot(s@, from as int),
        from <= r <= s@.len(),
{
    let mut i = from;
    while i < s.len()
        invariant
            from <= i <= s@.len(),
            next_dot(s@, from as int) == next_dot(s@, i as int),
        decreases s.len() - i,
    {
        if s[i] == '.' {
            return i;
        }
        i = i + 1;
    }
    i
}

proof fn lemma_digits_value_bound(p: Seq<char>)
    requires
        forall|i: int| 0 <= i < p.len() ==> is_digit(#[trigger] p[i]),
    ensures
        p.len() == 0 ==> digits_value(p) == 0,
        p.len() <= 1 ==> digits_value(p) < 10,
        p.len() <= 2 ==> digits_value(p) < 100,
        p.len() <= 3 ==> digits_value(p) < 1000,
    decreases p.len(),
{
    if p.len() > 0 {
        let init = p.drop_last();
        assert forall|i: int| 0 <= i < init.len() implies is_digit(#[trigger] init[i]) by {
            assert(init[i] == p[i]);
        }
        lemma_digits_value_bound(init);
        assert(is_digit(p[p.len() - 1]));
        assert(digit_value(p.last()) <= 9);
    }
}

fn parse_octet(s: &Vec<char>, lo: usize, hi: usize) -> (r: Option<u8>)
    requires
        lo <= hi <= s@.len(),
    ensures
        r == octet_of(s@.subrange(lo as int, hi as int)),
{
    let ghost p = s@.subrange(lo as int, hi as int);
    if hi - lo < 1 || hi - lo > 3 {
        return None;
    }
    let mut value: u32 = 0;
    let mut i = lo;
    while i < hi
        invariant
            lo <= i <= hi <= s@.len(),
            p == s@.subrange(lo as int, hi as int),
            hi - lo <= 3,
            forall|j: int| 0 <= j < i - lo ==> is_digit(#[trigger] p[j]),
            value == digits_value(p.subrange(0, i - lo)),
            value < 1000,
        decreases hi - i,
    {
        let c = s[i];
        assert(p[i - lo] == c);
        if !('0' <= c && c <= '9') {
            return None;
        }
        proof {
            assert(p.subrange(0, i - lo + 1).drop_last() =~= p.subrange(0, i - lo));
            assert(forall|j: int| 0 <= j < i - lo + 1 ==> is_digit(#[trigger] p.subrange(0, i - lo + 1)[j]));
            lemma_digits_value_bound(p.subrange(0, i - lo + 1));
        }
        value = value * 10 + (c as u32 - '0' as u32);
        i = i + 1;
    }
    assert(p.subrange(0, hi - lo) =~= p);
    if hi - lo > 1 && s[lo] == '0' {
        return None;
    }
    if value > 255 {
        return None;
    }
    Some(value as u8)
}

/// Reads an IPv4 address written as four dotted decimal octets.
pub fn parse_ipv4(text: &str) -> (r: Option<u32>)
    ensures
        r == ipv4_of(text@),
{
    let s = chars_of(text);
    let d1 = find_dot(&s, 0);
    if d1 >= s.len() {
        return None;
    }
    let d2 = find_dot(&s, d1 + 1);
    if d2 >= s.len() {
        return None;
    }
    let d3 = find_dot(&s, d2 + 1);
    if d3 >= s.len() {
        return None;
    }
    if find_dot(&s, d3 + 1) != s.len() {
        return None;
    }
    let a = match parse_octet(&s, 0, d1) {
        Some(v) => v,
        None => return None,
    };
    let b = match parse_octet(&s, d1 + 1, d2) {
        Some(v) => v,
        None => return None,
    };
    let c = match parse_octet(&s, d2 + 1, d3) {
        Some(v) => v,
        None => return None,
    };
    let d = match parse_octet(&s, d3 + 1, s.len()) {
        Some(v) => v,
        None => return None,
    };
    Some((a as u32) * 0x100_0000 + (b as u32) * 0x1_0000 + (c as u32) * 0x100 + (d as u32))
}

/// The options the agent knows.
#[derive(Clone, Copy, Debug, PartialEq, Eq, Structural)]
pub enum Flag {
    Iface,
    Ip,
    Host,
    Port,
    UpdateTime,
    CertPem,
    CertKey,
    CertCa,
    RuleTimeout,
    CleanupInterval,
    ChannelSize,
    GrpcPort,
    Help,
    Unknown,
}

pub open spec fn flag_of(a: Seq<char>) -> Flag {
    if a == "-i"@ || a == "--iface"@ {
        Flag::Iface
    } else if a == "-c"@ || a == "--ip"@ {
        Flag::Ip
    } else if a == "--host"@ {
        Flag::Host
    } else if a == "-p"@ || a == "--port"@ {
        Flag::Port
    } else if a == "-n"@ || a == "--update-time"@ {
        Flag::UpdateTime
    } else if a == "--cert-pem"@ {
        Flag::CertPem
    } else if a == "--cert-key"@ {
        Flag::CertKey
    } else if a == "--cert-ca"@ {
        Flag::CertCa
    } else if a == "-r"@ || a == "--rule-timeout"@ {
        Flag::RuleTimeout
    } else if a == "--cleanup-interval"@ {
        Flag::CleanupInterval
    } else if a == "--channel-size"@ {
        Flag::ChannelSize
    } else if a == "-g"@ || a == "--grpc-port"@ {
        Flag::GrpcPort
    } else if a == "-h"@ || a == "--help"@ {
        Flag::Help
    } else {
        Flag::Unknown
    }
}

/// The configuration after option `f` with value `v`, the argument at index `at`.
pub open spec fn with_value(f: Flag, c: ConfigView, v: Seq<char>, at: usize) -> Result<ConfigView, ConfigError> {
    match f {
        Flag::Iface => Ok(ConfigView { iface_name: v, ..c }),
        Flag::Ip => match ipv4_of(v) {
            Some(ip) => Ok(ConfigView { controller_ip: ip, controller_host: None, ..c }),
            None => Err(ConfigError::InvalidIp { arg: at }),
        },
        Flag::Host => Ok(ConfigView { controller_host: Some(v), ..c }),
        Flag::Port => match decimal_u16(v) {
            Some(n) => Ok(ConfigView { controller_port: n, ..c }),
            None => Err(ConfigError::InvalidPort { arg: at }),
        },
        Flag::UpdateTime => match decimal_u64(v) {
            Some(n) => Ok(ConfigView { lazy_update_timeout: n, ..c }),
            None => Err(ConfigError::InvalidUpdateTime { arg: at }),
        },
        Flag::CertPem => Ok(ConfigView { cert_file: v, ..c }),
        Flag::CertKey => Ok(ConfigView { key_file: v, ..c }),
        Flag::CertCa => Ok(ConfigView { ca_file: v, ..c }),
        Flag::RuleTimeout => match decimal_u64(v) {
            Some(n) => Ok(ConfigView { rule_timeout_ns: n, ..c }),
            None => Err(ConfigError::InvalidRuleTimeout { arg: at }),
        },
        Flag::CleanupInterval => match decimal_u64(v) {
            Some(n) => Ok(ConfigView { cleanup_interval_sec: n, ..c }),
            None => Err(ConfigError::InvalidCleanupInterval { arg: at }),
        },
        Flag::ChannelSize => match decimal_usize(v) {
            Some(n) => Ok(ConfigView { broadcast_channel_size: n, ..c }),
            None => Err(ConfigError::InvalidChannelSize { arg: at }),
        },
        Flag::GrpcPort => match decimal_u16(v) {
            Some(n) => Ok(ConfigView { grpc_server_port: n, ..c }),
            None => Err(ConfigError::InvalidGrpcPort { arg: at }),
        },
        _ => Ok(c),
    }
}

/// The configuration that the arguments from index `i` on make of `c`. Each
/// option takes the next argument as its value; an option with no argument
/// after it, and an unknown argument, are passed over; help stops the reading.
pub open spec fn load_from(args: Seq<Seq<char>>, i: int, c: ConfigView) -> Result<ConfigView, ConfigError>
    decreases args.len() - i,
{
    if i < 0 || i >= args.len() {
        Ok(c)
    } else {
        let f = flag_of(args[i]);
        if f == Flag::Help {
            Err(ConfigError::HelpRequested)
        } else if f == Flag::Unknown || i + 1 >= args.len() {
            load_from(args, i + 1, c)
        } else {
            match with_value(f, c, args[i + 1], (i + 1) as usize) {
                Ok(c2) => load_from(args, i + 2, c2),
                Err(e) => Err(e),
            }
        }
    }
}

pub open spec fn arg_texts(args: Seq<String>) -> Seq<Seq<char>> {
    args.map_values(|a: String| a@)
}

fn same_text(a: &Vec<char>, lit: &str) -> (r: bool)
    ensures
        r == (a@ == lit@),
{
    let b = chars_of(lit);
    if a.len() != b.len() {
        return false;
    }
    let mut i: usize = 0;
    while i < a.len()
        invariant
            b@ == lit@,
            a@.len() == b@.len(),
            i <= a@.len(),
            forall|j: int| 0 <= j < i ==> a@[j] == b@[j],
        decreases a.len() - i,
    {
        if a[i] != b[i] {
            assert(a@[i as int] != b@[i as int]);
            return false;
        }
        i = i + 1;
    }
    assert(a@ =~= b@);
    true
}

/// Which option an argument names.
pub fn flag_of_arg(arg: &str) -> (r: Flag)
    ensures
        r == flag_of(arg@),
{
    let a = chars_of(arg);
    if same_text(&a, "-i") || same_text(&a, "--iface") {
        Flag::Iface
    } else if same_text(&a, "-c") || same_text(&a, "--ip") {
        Flag::Ip
    } else if same_text(&a, "--host") {
        Flag::Host
    } else if same_text(&a, "-p") || same_text(&a, "--port") {
        Flag::Port
    } else if same_text(&a, "-n") || same_text(&a, "--update-time") {
        Flag::UpdateTime
    } else if same_text(&a, "--cert-pem") {
        Flag::CertPem
    } else if same_text(&a, "--cert-key") {
        Flag::CertKey
    } else if same_text(&a, "--cert-ca") {
        Flag::CertCa
    } else if same_text(&a, "-r") || same_text(&a, "--rule-timeout") {
        Flag::RuleTimeout
    } else if same_text(&a, "--cleanup-interval") {
        Flag::CleanupInterval
    } else if same_text(&a, "--channel-size") {
        Flag::ChannelSize
    } else if same_text(&a, "-g") || same_text(&a, "--grpc-port") {
        Flag::GrpcPort
    } else if same_text(&a, "-h") || same_text(&a, "--help") {
        Flag::Help
    } else {
        Flag::Unknown
    }
}

impl Config {
    fn set_value(&mut self, f: Flag, v: &String, at: usize) -> (r: Result<(), ConfigError>)
        ensures
            match with_value(f, old(self)@, v@, at) {
                Ok(c) => r is Ok && final(self)@ == c,
                Err(e) => r == Err::<(), ConfigError>(e),
            },
    {
        match f {
            Flag::Iface => {
                self.iface_name = v.clone();
            },
            Flag::Ip => match parse_ipv4(v.as_str()) {
                Some(ip) => {
                    self.controller_ip = ip;
                    self.controller_host = None;
                },
                None => {
                    return Err(ConfigError::InvalidIp { arg: at });
                },
            },
            Flag::Host => {
                self.controller_host = Some(v.clone());
            },
            Flag::Port => match parse_u16(v.as_str()) {
                Some(n) => {
                    self.controller_port = n;
                },
                None => {
                    return Err(ConfigError::InvalidPort { arg: at });
                },
            },
            Flag::UpdateTime => match parse_u64(v.as_str()) {
                Some(n) => {
                    self.lazy_update_timeout = n;
                },
                None => {
                    return Err(ConfigError::InvalidUpdateTime { arg: at });
                },
            },
            Flag::CertPem => {
                self.cert_file = v.clone();
            },
            Flag::CertKey => {
                self.key_file = v.clone();
            },
            Flag::CertCa => {
                self.ca_file = v.clone();
            },
            Flag::RuleTimeout => match parse_u64(v.as_str()) {
                Some(n) => {
                    self.rule_timeout_ns = n;
                },
                None => {
                    return Err(ConfigError::InvalidRuleTimeout { arg: at });
                },
            },
            Flag::CleanupInterval => match parse_u64(v.as_str()) {
                Some(n) => {
                    self.cleanup_interval_sec = n;
                },
                None => {
                    return Err(ConfigError::InvalidCleanupInterval { arg: at });
                },
            },
            Flag::ChannelSize => match parse_usize(v.as_str()) {
                Some(n) => {
                    self.broadcast_channel_size = n;
                },
                None => {
                    return Err(ConfigError::InvalidChannelSize { arg: at });
                },
            },
            Flag::GrpcPort => match parse_u16(v.as_str()) {
                Some(n) => {
                    self.grpc_server_port = n;
                },
                None => {
                    return Err(ConfigError::InvalidGrpcPort { arg: at });
                },
            },
            _ => {},
        }
        Ok(())
    }

    /// Reads the configuration from the program's arguments, the first of
    /// which is the program's name. Options not given keep their defaults.
    pub fn load(args: &Vec<String>) -> (r: Result<Config, ConfigError>)
        ensures
            match r {
                Ok(c) => load_from(arg_texts(args@), 1, default_view()) == Ok::<
                    ConfigView,
                    ConfigError,
                >(c@),
                Err(e) => load_from(arg_texts(args@), 1, default_view()) == Err::<
                    ConfigView,
                    ConfigError,
                >(e),
            },
    {
        let ghost texts = arg_texts(args@);
        let mut config = Config::default();
        let mut i: usize = 1;
        while i < args.len()
            invariant
                texts == arg_texts(args@),
                texts.len() == args@.len(),
                1 <= i,
                load_from(texts, 1, default_view()) == load_from(texts, i as int, config@),
            decreases args.len() - i,
        {
            let f = flag_of_arg(args[i].as_str());
            assert(texts[i as int] == args@[i as int]@);
            if f == Flag::Help {
                return Err(ConfigError::HelpRequested);
            }
            if f == Flag::Unknown || i + 1 >= args.len() {
                i = i + 1;
            } else {
                assert(texts[i + 1] == args@[i + 1]@);
                match config.set_value(f, &args[i + 1], i + 1) {
                    Ok(()) => {},
                    Err(e) => {
                        return Err(e);
                    },
                }
                i = i + 2;
            }
        }
        Ok(config)
    }
}

} // verus!
