use vstd::prelude::*;
use vstd::string::StringExecFns;

use crate::decimal::{decimal_value, is_decimal, parse_u64};
use crate::error::CertAgentError;
use crate::status::str_eq;

verus! {

/// Service configuration.
pub struct Config {
    pub grpc: GrpcConfig,
    pub redis: RedisConfig,
    pub certificate: CertificateConfig,
    pub watcher: WatcherConfig,
}

/// RPC listener settings.
pub struct GrpcConfig {
    pub bind_address: String,
    pub max_message_size: usize,
    pub tls: Option<TlsConfig>,
}

/// Transport security material for the RPC listener.
pub struct TlsConfig {
    pub cert_file: String,
    pub key_file: String,
    pub ca_file: Option<String>,
}

/// Key-value store connection settings.
pub struct RedisConfig {
    pub url: String,
    pub max_connections: u32,
    pub connection_timeout_secs: u64,
    pub command_timeout_secs: u64,
}

/// Issuance settings.
pub struct CertificateConfig {
    pub ca_cert_path: String,
    pub ca_key_path: String,
    pub storage_path: String,
    pub default_validity_days: u32,
    pub renewal_threshold_days: u32,
    pub key_size: u32,
    pub signature_algorithm: String,
}

/// Renewal loop settings.
pub struct WatcherConfig {
    pub check_interval_seconds: u64,
    pub renewal_threshold_days: u32,
    pub max_concurrent_renewals: usize,
}

/// Mathematical value of a TLS section.
pub struct TlsView {
    pub cert_file: Seq<char>,
    pub key_file: Seq<char>,
    pub ca_file: Option<Seq<char>>,
}

/// Mathematical value of a configuration.
pub struct ConfigView {
    pub bind_address: Seq<char>,
    pub max_message_size: nat,
    pub tls: Option<TlsView>,
    pub redis_url: Seq<char>,
    pub max_connections: nat,
    pub connection_timeout_secs: nat,
    pub command_timeout_secs: nat,
    pub ca_cert_path: Seq<char>,
    pub ca_key_path: Seq<char>,
    pub storage_path: Seq<char>,
    pub default_validity_days: nat,
    pub certificate_renewal_threshold_days: nat,
    pub key_size: nat,
    pub signature_algorithm: Seq<char>,
    pub check_interval_seconds: nat,
    pub watcher_renewal_threshold_days: nat,
    pub max_concurrent_renewals: nat,
}

impl View for TlsConfig {
    type V = TlsView;

    open spec fn view(&self) -> TlsView {
        TlsView {
            cert_file: self.cert_file@,
            key_file: self.key_file@,
            ca_file: match self.ca_file {
                Some(f) => Some(f@),
                None => None,
            },
        }
    }
}

impl View for Config {
    type V = ConfigView;

    open spec fn view(&self) -> ConfigView {
        ConfigView {
            bind_address: self.grpc.bind_address@,
            max_message_size: self.grpc.max_message_size as nat,
            tls: match self.grpc.tls {
                Some(t) => Some(t@),
                None => None,
            },
            redis_url: self.redis.url@,
            max_connections: self.redis.max_connections as nat,
            connection_timeout_secs: self.redis.connection_timeout_secs as nat,
            command_timeout_secs: self.redis.command_timeout_secs as nat,
            ca_cert_path: self.certificate.ca_cert_path@,
            ca_key_path: self.certificate.ca_key_path@,
            storage_path: self.certificate.storage_path@,
            default_validity_days: self.certificate.default_validity_days as nat,
            certificate_renewal_threshold_days: self.certificate.renewal_threshold_days as nat,
            key_size: self.certificate.key_size as nat,
            signature_algorithm: self.certificate.signature_algorithm@,
            check_interval_seconds: self.watcher.check_interval_seconds as nat,
            watcher_renewal_threshold_days: self.watcher.renewal_threshold_days as nat,
            max_concurrent_renewals: self.watcher.max_concurrent_renewals as nat,
        }
    }
}

/// The built-in defaults.
pub open spec fn default_view() -> ConfigView {
    ConfigView {
        bind_address: "0.0.0.0:50051"@,
        max_message_size: 4194304,
        tls: None,
        redis_url: "redis://localhost:6379"@,
        max_connections: 10,
        connection_timeout_secs: 5,
        command_timeout_secs: 3,
        ca_cert_path: "./certs/ca.crt"@,
        ca_key_path: "./certs/ca.key"@,
        storage_path: "./certs/storage"@,
        default_validity_days: 365,
        certificate_renewal_threshold_days: 30,
        key_size: 2048,
        signature_algorithm: "sha256"@,
        check_interval_seconds: 3600,
        watcher_renewal_threshold_days: 30,
        max_concurrent_renewals: 10,
    }
}

/// The number that `value` spells, if it is decimal and at most `max`.
pub open spec fn number_within(value: Seq<char>, max: int) -> Option<nat> {
    if is_decimal(value) && decimal_value(value) <= max {
        Some(decimal_value(value) as nat)
    } else {
        None
    }
}

/// The TLS section that a TLS key updates: the present one, or an empty one.
pub open spec fn tls_or_empty(t: Option<TlsView>) -> TlsView {
    match t {
        Some(x) => x,
        None => TlsView { cert_file: Seq::empty(), key_file: Seq::empty(), ca_file: None },
    }
}

/// Applies one dotted `key = value` setting; `None` for an unknown key or a
/// value that is not a number in range where one is expected.
pub open spec fn apply_setting(c: ConfigView, key: Seq<char>, value: Seq<char>) -> Option<ConfigView> {
    if key == "grpc.bind_address"@ {
        Some(ConfigView { bind_address: value, ..c })
    } else if key == "grpc.max_message_size"@ {
        match number_within(value, usize::MAX as int) {
            Some(n) => Some(ConfigView { max_message_size: n, ..c }),
            None => None,
        }
    } else if key == "grpc.tls.cert_file"@ {
        Some(ConfigView { tls: Some(TlsView { cert_file: value, ..tls_or_empty(c.tls) }), ..c })
    } else if key == "grpc.tls.key_file"@ {
        Some(ConfigView { tls: Some(TlsView { key_file: value, ..tls_or_empty(c.tls) }), ..c })
    } else if key == "grpc.tls.ca_file"@ {
        Some(ConfigView { tls: Some(TlsView { ca_file: Some(value), ..tls_or_empty(c.tls) }), ..c })
    } else if key == "redis.url"@ {
        Some(ConfigView { redis_url: value, ..c })
    } else if key == "redis.max_connections"@ {
        match number_within(value, u32::MAX as int) {
            Some(n) => Some(ConfigView { max_connections: n, ..c }),
            None => None,
        }
    } else if key == "redis.connection_timeout_secs"@ {
        match number_within(value, u64::MAX as int) {
            Some(n) => Some(ConfigView { connection_timeout_secs: n, ..c }),
            None => None,
        }
    } else if key == "redis.command_timeout_secs"@ {
        match number_within(value, u64::MAX as int) {
            Some(n) => Some(ConfigView { command_timeout_secs: n, ..c }),
            None => None,
        }
    } else if key == "certificate.ca_cert_path"@ {
        Some(ConfigView { ca_cert_path: value, ..c })
    } else if key == "certificate.ca_key_path"@ {
        Some(ConfigView { ca_key_path: value, ..c })
    } else if key == "certificate.storage_path"@ {
        Some(ConfigView { storage_path: value, ..c })
    } else if key == "certificate.default_validity_days"@ {
        match number_within(value, u32::MAX as int) {
            Some(n) => Some(ConfigView { default_validity_days: n, ..c }),
            None => None,
        }
    } else if key == "certificate.renewal_threshold_days"@ {
        match number_within(value, u32::MAX as int) {
            Some(n) => Some(ConfigView { certificate_renewal_threshold_days: n, ..c }),
            None => None,
        }
    } else if key == "certificate.key_size"@ {
        match number_within(value, u32::MAX as int) {
            Some(n) => Some(ConfigView { key_size: n, ..c }),
            None => None,
        }
    } else if key == "certificate.signature_algorithm"@ {
        Some(ConfigView { signature_algorithm: value, ..c })
    } else if key == "watcher.check_interval_seconds"@ {
        match number_within(value, u64::MAX as int) {
            Some(n) => Some(ConfigView { check_interval_seconds: n, ..c }),
            None => None,
        }
    } else if key == "watcher.renewal_threshold_days"@ {
        match number_within(value, u32::MAX as int) {
            Some(n) => Some(ConfigView { watcher_renewal_threshold_days: n, ..c }),
            None => None,
        }
    } else if key == "watcher.max_concurrent_renewals"@ {
        match number_within(value, usize::MAX as int) {
            Some(n) => Some(ConfigView { max_concurrent_renewals: n, ..c }),
            None => None,
        }
    } else {
        None
    }
}

/// Applies settings in order, later ones overriding earlier ones.
pub open spec fn apply_all(c: ConfigView, settings: Seq<(Seq<char>, Seq<char>)>) -> Option<ConfigView>
    decreases settings.len(),
{
    if settings.len() == 0 {
        Some(c)
    } else {
        match apply_all(c, settings.drop_last()) {
            Some(d) => apply_setting(d, settings.last().0, settings.last().1),
            None => None,
        }
    }
}

/// The characters of each key and value.
pub open spec fn pair_texts(s: Seq<(String, String)>) -> Seq<(Seq<char>, Seq<char>)> {
    s.map_values(|p: (String, String)| (p.0@, p.1@))
}

/// Reads a number of at most `max` from `value`.
fn read_number(value: &str, max: u64) -> (r: Option<u64>)
    ensures
        r matches Some(n) ==> number_within(value@, max as int) == Some(n as nat) && n <= max,
        r is None ==> number_within(value@, max as int) is None,
{
    proof {
        if is_decimal(value@) {
            crate::decimal::lemma_decimal_nonneg(value@);
        }
    }
    match parse_u64(value) {
        Some(n) => if n <= max {
            Some(n)
        } else {
            None
        },
        None => None,
    }
}

impl TlsConfig {
    /// The present TLS section, or an empty one.
    fn take_or_empty(t: Option<TlsConfig>) -> (r: TlsConfig)
        ensures
            r@ == tls_or_empty(match t { Some(x) => Some(x@), None => None }),
    {
        match t {
            Some(x) => x,
            None => TlsConfig { cert_file: String::new(), key_file: String::new(), ca_file: None },
        }
    }
}

impl CertificateConfig {
    /// An exact copy of the section.
    pub fn duplicate(&self) -> (r: CertificateConfig)
        ensures
            r == *self,
    {
        CertificateConfig {
            ca_cert_path: self.ca_cert_path.clone(),
            ca_key_path: self.ca_key_path.clone(),
            storage_path: self.storage_path.clone(),
            default_validity_days: self.default_validity_days,
            renewal_threshold_days: self.renewal_threshold_days,
            key_size: self.key_size,
            signature_algorithm: self.signature_algorithm.clone(),
        }
    }
}

impl Config {
    /// The built-in defaults.
    pub fn default_config() -> (r: Config)
        ensures
            r@ == default_view(),
    {
        Config {
            grpc: GrpcConfig {
                bind_address: String::from_str("0.0.0.0:50051"),
                max_message_size: 4194304,
                tls: None,
            },
            redis: RedisConfig {
                url: String::from_str("redis://localhost:6379"),
                max_connections: 10,
                connection_timeout_secs: 5,
                command_timeout_secs: 3,
            },
            certificate: CertificateConfig {
                ca_cert_path: String::from_str("./certs/ca.crt"),
                ca_key_path: String::from_str("./certs/ca.key"),
                storage_path: String::from_str("./certs/storage"),
                default_validity_days: 365,
                renewal_threshold_days: 30,
                key_size: 2048,
                signature_algorithm: String::from_str("sha256"),
            },
            watcher: WatcherConfig {
                check_interval_seconds: 3600,
                renewal_threshold_days: 30,
                max_concurrent_renewals: 10,
            },
        }
    }

    /// Applies one dotted `key = value` setting in place. Returns false, and
    /// leaves the configuration in an unspecified state, where the setting
    /// does not apply.
    pub fn apply(&mut self, key: &str, value: &str) -> (ok: bool)
        ensures
            ok <==> apply_setting(old(self)@, key@, value@) is Some,
            ok ==> apply_setting(old(self)@, key@, value@) == Some(final(self)@),
    {
        if str_eq(key, "grpc.bind_address") {
            self.grpc.bind_address = String::from_str(value);
        } else if str_eq(key, "grpc.max_message_size") {
            match read_number(value, usize::MAX as u64) {
                Some(n) => self.grpc.max_message_size = n as usize,
                None => return false,
            }
        } else if str_eq(key, "grpc.tls.cert_file") {
            let mut t = TlsConfig::take_or_empty(self.grpc.tls.take());
            t.cert_file = String::from_str(value);
            self.grpc.tls = Some(t);
        } else if str_eq(key, "grpc.tls.key_file") {
            let mut t = TlsConfig::take_or_empty(self.grpc.tls.take());
            t.key_file = String::from_str(value);
            self.grpc.tls = Some(t);
        } else if str_eq(key, "grpc.tls.ca_file") {
            let mut t = TlsConfig::take_or_empty(self.grpc.tls.take());
            t.ca_file = Some(String::from_str(value));
            self.grpc.tls = Some(t);
        } else if str_eq(key, "redis.url") {
            self.redis.url = String::from_str(value);
        } else if str_eq(key, "redis.max_connections") {
            match read_number(value, u32::MAX as u64) {
                Some(n) => self.redis.max_connections = n as u32,
                None => return false,
            }
        } else if str_eq(key, "redis.connection_timeout_secs") {
            match read_number(value, u64::MAX) {
                Some(n) => self.redis.connection_timeout_secs = n,
                None => return false,
            }
        } else if str_eq(key, "redis.command_timeout_secs") {
            match read_number(value, u64::MAX) {
                Some(n) => self.redis.command_timeout_secs = n,
                None => return false,
            }
        } else if str_eq(key, "certificate.ca_cert_path") {
            self.certificate.ca_cert_path = String::from_str(value);
        } else if str_eq(key, "certificate.ca_key_path") {
            self.certificate.ca_key_path = String::from_str(value);
        } else if str_eq(key, "certificate.storage_path") {
            self.certificate.storage_path = String::from_str(value);
        } else if str_eq(key, "certificate.default_validity_days") {
            match read_number(value, u32::MAX as u64) {
                Some(n) => self.certificate.default_validity_days = n as u32,
                None => return false,
            }
        } else if str_eq(key, "certificate.renewal_threshold_days") {
            match read_number(value, u32::MAX as u64) {
                Some(n) => self.certificate.renewal_threshold_days = n as u32,
                None => return false,
            }
        } else if str_eq(key, "certificate.key_size") {
            match read_number(value, u32::MAX as u64) {
                Some(n) => self.certificate.key_size = n as u32,
                None => return false,
            }
        } else if str_eq(key, "certificate.signature_algorithm") {
            self.certificate.signature_algorithm = String::from_str(value);
        } else if str_eq(key, "watcher.check_interval_seconds") {
            match read_number(value, u64::MAX) {
                Some(n) => self.watcher.check_interval_seconds = n,
                None => return false,
            }
        } else if str_eq(key, "watcher.renewal_threshold_days") {
            match read_number(value, u32::MAX as u64) {
                Some(n) => self.watcher.renewal_threshold_days = n as u32,
                None => return false,
            }
        } else if str_eq(key, "watcher.max_concurrent_renewals") {
            match read_number(value, usize::MAX as u64) {
                Some(n) => self.watcher.max_concurrent_renewals = n as usize,
                None => return false,
            }
        } else {
            return false;
        }
        true
    }

    /// Builds the configuration from the defaults and the layered settings,
    /// given as dotted keys with their text values, earliest layer first (the
    /// file, then the environment). Fails on the first setting that does not
    /// apply.
    pub fn load(settings: &Vec<(String, String)>) -> (r: Result<Config, CertAgentError>)
        ensures
            r is Ok <==> apply_all(default_view(), pair_texts(settings@)) is Some,
            r matches Ok(c) ==> apply_all(default_view(), pair_texts(settings@)) == Some(c@),
            r matches Err(e) ==> e is Config,
    {
        let ghost s = pair_texts(settings@);
        let mut c = Config::default_config();
        let mut i: usize = 0;
        while i < settings.len()
            invariant
                i <= settings@.len(),
                s == pair_texts(settings@),
                apply_all(default_view(), s.subrange(0, i as int)) == Some(c@),
            decreases settings.len() - i,
        {
            proof {
                assert(s.subrange(0, i + 1 as int).drop_last() =~= s.subrange(0, i as int));
                assert(s.subrange(0, i + 1 as int).last() == s[i as int]);
            }
            let (key, value) = &settings[i];
            if !c.apply(key.as_str(), value.as_str()) {
                proof {
                    lemma_apply_all_stuck(default_view(), s, i as int + 1);
                }
                return Err(CertAgentError::Config(String::from_str(key.as_str())));
            }
            i = i + 1;
        }
        proof {
            assert(s.subrange(0, s.len() as int) =~= s);
        }
        Ok(c)
    }
}

impl Default for Config {
    fn default() -> (r: Config)
        ensures
            r@ == default_view(),
    {
        Config::default_config()
    }
}

/// Once a prefix of the settings fails to apply, the whole list fails.
pub proof fn lemma_apply_all_stuck(c: ConfigView, s: Seq<(Seq<char>, Seq<char>)>, k: int)
    requires
        0 <= k <= s.len(),
        apply_all(c, s.subrange(0, k)) is None,
    ensures
        apply_all(c, s) is None,
    decreases s.len() - k,
{
    if k < s.len() {
        assert(s.subrange(0, k + 1).drop_last() =~= s.subrange(0, k));
        lemma_apply_all_stuck(c, s, k + 1);
    } else {
        assert(s.subrange(0, k) =~= s);
    }
}

} // verus!
