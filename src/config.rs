//! Server configuration: the settings, their defaults, and validation.

use crate::text::{chars_of, parse_uint_range, parse_uint_seq, str_equals};
use std::collections::HashMap;
use vstd::prelude::*;

verus! {

/// Why a configuration is refused.
pub enum ConfigError {
    /// The file could not be read.
    IoError(String),
    /// The text is not a valid configuration.
    ParseError(String),
    /// A setting is out of range.
    ValidationError(String),
}

/// Main configuration.
pub struct Config {
    pub server: ServerConfig,
    pub php: PhpConfig,
    pub cache: CacheConfig,
    pub ssl: Option<SslConfig>,
    pub virtualhost: Vec<VirtualHostConfig>,
}

/// Server settings.
pub struct ServerConfig {
    /// HTTP listen address.
    pub listen: String,
    /// HTTPS listen address.
    pub listen_ssl: Option<String>,
    /// Worker threads: `auto` or a number.
    pub workers: String,
    /// Maximum concurrent connections.
    pub max_connections: usize,
    /// Keep-alive timeout in seconds.
    pub keepalive_timeout: u64,
    /// Request timeout in seconds.
    pub request_timeout: u64,
    /// Maximum request body size.
    pub max_body_size: String,
}

/// How scripts are executed.
#[derive(PartialEq, Eq, Structural)]
pub enum PhpMode {
    /// One interpreter process per request.
    Cgi,
    /// A persistent worker reached over a socket.
    Socket,
    /// The interpreter embedded in this process.
    Embed,
}

/// PHP settings.
pub struct PhpConfig {
    pub mode: PhpMode,
    /// Stack limit of the embedded interpreter.
    pub embed_stack_limit: String,
    /// Preferred interpreter version.
    pub version: String,
    /// Concurrent executions allowed.
    pub workers: usize,
    /// Interpreter memory limit.
    pub memory_limit: String,
    /// Maximum execution time in seconds.
    pub max_execution_time: u64,
    /// Explicit interpreter binary.
    pub binary_path: Option<String>,
    /// Socket of the persistent worker.
    pub socket_path: String,
    /// Error log file.
    pub error_log: Option<String>,
    /// Show errors in the output.
    pub display_errors: bool,
    /// Further interpreter settings, `name=value` each.
    pub ini_settings: Vec<String>,
    /// Scripts are executed at all.
    pub enable: bool,
}

/// Cache storage backend.
#[derive(PartialEq, Eq, Structural)]
pub enum CacheStorage {
    Memory,
    Disk,
    Redis,
}

/// Cache settings.
pub struct CacheConfig {
    pub enable: bool,
    pub storage: CacheStorage,
    pub memory_limit: String,
    /// Default time to live in seconds.
    pub default_ttl: u64,
    pub redis_url: Option<String>,
    pub disk_path: String,
}

/// TLS settings.
pub struct SslConfig {
    /// Certificate file.
    pub cert: String,
    /// Private key file.
    pub key: String,
    /// Enabled protocol versions.
    pub protocols: Vec<String>,
    pub ocsp_stapling: bool,
}

/// A virtual host.
pub struct VirtualHostConfig {
    pub domain: String,
    /// Document root.
    pub root: String,
    /// Platform: wordpress, magento2, custom.
    pub platform: Option<String>,
    pub ssl_certificate: Option<String>,
    pub ssl_certificate_key: Option<String>,
    pub cache: Option<VHostCacheConfig>,
    /// Index files, in order of preference.
    pub index: Vec<String>,
    /// Error pages by status code.
    pub error_pages: HashMap<u16, String>,
}

/// Cache settings of one virtual host.
pub struct VHostCacheConfig {
    pub enable: bool,
    /// Time to live in seconds.
    pub ttl: u64,
    pub vary: Vec<String>,
    pub exclude: Vec<String>,
}

fn lit(s: &str) -> (r: String)
    ensures
        r@ == s@,
{
    String::from_str(s)
}

pub fn default_listen() -> (r: String)
    ensures
        r@ == "0.0.0.0:8080"@,
{
    lit("0.0.0.0:8080")
}

pub fn default_workers() -> (r: String)
    ensures
        r@ == "auto"@,
{
    lit("auto")
}

pub fn default_max_connections() -> (r: usize)
    ensures
        r == 10000,
{
    10000
}

pub fn default_keepalive_timeout() -> (r: u64)
    ensures
        r == 75,
{
    75
}

pub fn default_request_timeout() -> (r: u64)
    ensures
        r == 60,
{
    60
}

pub fn default_max_body_size() -> (r: String)
    ensures
        r@ == "100M"@,
{
    lit("100M")
}

pub fn default_socket_path() -> (r: String)
    ensures
        r@ == "/run/veloserve/php.sock"@,
{
    lit("/run/veloserve/php.sock")
}

pub fn default_php_mode() -> (r: PhpMode)
    ensures
        r == PhpMode::Cgi,
{
    PhpMode::Cgi
}

pub fn default_embed_stack_limit() -> (r: String)
    ensures
        r@ == "16M"@,
{
    lit("16M")
}

pub fn default_php_version() -> (r: String)
    ensures
        r@ == "8.2"@,
{
    lit("8.2")
}

/// Relies on `num_cpus::get`: the number of usable CPUs, at least 1.
#[verifier::external_body]
fn cpu_count() -> (r: usize)
    ensures
        r >= 1,
{
    num_cpus::get()
}

/// Two executions per CPU, for a machine with `cpus` CPUs.
pub fn php_workers_for(cpus: usize) -> (r: usize)
    ensures
        r == if cpus <= usize::MAX / 2 {
            2 * cpus
        } else {
            usize::MAX as int
        },
{
    if cpus <= usize::MAX / 2 {
        cpus * 2
    } else {
        usize::MAX
    }
}

/// Two executions per CPU of this machine.
pub fn default_php_workers() -> (r: usize)
    ensures
        r >= 2,
{
    php_workers_for(cpu_count())
}

pub fn default_memory_limit() -> (r: String)
    ensures
        r@ == "256M"@,
{
    lit("256M")
}

pub fn default_max_execution_time() -> (r: u64)
    ensures
        r == 30,
{
    30
}

pub fn default_true() -> (r: bool)
    ensures
        r,
{
    true
}

pub fn default_cache_storage() -> (r: CacheStorage)
    ensures
        r == CacheStorage::Memory,
{
    CacheStorage::Memory
}

pub fn default_cache_memory_limit() -> (r: String)
    ensures
        r@ == "512M"@,
{
    lit("512M")
}

pub fn default_cache_ttl() -> (r: u64)
    ensures
        r == 3600,
{
    3600
}

pub fn default_cache_path() -> (r: String)
    ensures
        r@ == "/var/cache/veloserve"@,
{
    lit("/var/cache/veloserve")
}

pub fn default_protocols() -> (r: Vec<String>)
    ensures
        r@.len() == 2,
        r@[0]@ == "TLSv1.2"@,
        r@[1]@ == "TLSv1.3"@,
{
    let mut v: Vec<String> = Vec::new();
    v.push(lit("TLSv1.2"));
    v.push(lit("TLSv1.3"));
    v
}

pub fn default_index_files() -> (r: Vec<String>)
    ensures
        r@.len() == 2,
        r@[0]@ == "index.php"@,
        r@[1]@ == "index.html"@,
{
    let mut v: Vec<String> = Vec::new();
    v.push(lit("index.php"));
    v.push(lit("index.html"));
    v
}

impl Default for ServerConfig {
    fn default() -> (r: ServerConfig)
        ensures
            r.listen@ == "0.0.0.0:8080"@,
            r.listen_ssl is None,
            r.workers@ == "auto"@,
            r.max_connections == 10000,
            r.keepalive_timeout == 75,
            r.request_timeout == 60,
            r.max_body_size@ == "100M"@,
    {
        ServerConfig {
            listen: default_listen(),
            listen_ssl: None,
            workers: default_workers(),
            max_connections: default_max_connections(),
            keepalive_timeout: default_keepalive_timeout(),
            request_timeout: default_request_timeout(),
            max_body_size: default_max_body_size(),
        }
    }
}

impl Default for PhpConfig {
    fn default() -> (r: PhpConfig)
        ensures
            r.mode == PhpMode::Cgi,
            r.embed_stack_limit@ == "16M"@,
            r.version@ == "8.2"@,
            r.workers >= 2,
            r.memory_limit@ == "256M"@,
            r.max_execution_time == 30,
            r.binary_path is None,
            r.socket_path@ == "/run/veloserve/php.sock"@,
            r.error_log is None,
            !r.display_errors,
            r.ini_settings@.len() == 0,
            r.enable,
    {
        PhpConfig {
            mode: default_php_mode(),
            embed_stack_limit: default_embed_stack_limit(),
            version: default_php_version(),
            workers: default_php_workers(),
            memory_limit: default_memory_limit(),
            max_execution_time: default_max_execution_time(),
            binary_path: None,
            socket_path: default_socket_path(),
            error_log: None,
            display_errors: false,
            ini_settings: Vec::new(),
            enable: true,
        }
    }
}

impl Default for CacheConfig {
    fn default() -> (r: CacheConfig)
        ensures
            r.enable,
            r.storage == CacheStorage::Memory,
            r.memory_limit@ == "512M"@,
            r.default_ttl == 3600,
            r.redis_url is None,
            r.disk_path@ == "/var/cache/veloserve"@,
    {
        CacheConfig {
            enable: true,
            storage: default_cache_storage(),
            memory_limit: default_cache_memory_limit(),
            default_ttl: default_cache_ttl(),
            redis_url: None,
            disk_path: default_cache_path(),
        }
    }
}

impl Default for Config {
    fn default() -> (r: Config)
        ensures
            r.server.listen@ == "0.0.0.0:8080"@,
            r.server.max_connections == 10000,
            r.php.enable,
            r.php.workers >= 2,
            r.php.max_execution_time == 30,
            r.cache.enable,
            r.ssl is None,
            r.virtualhost@.len() == 0,
    {
        Config {
            server: ServerConfig::default(),
            php: PhpConfig::default(),
            cache: CacheConfig::default(),
            ssl: None,
            virtualhost: Vec::new(),
        }
    }
}

/// The validation failures of a configuration, first one first.
pub open spec fn validation_message(c: Config) -> Option<Seq<char>> {
    if c.server.max_connections == 0 {
        Some("max_connections must be greater than 0"@)
    } else if c.php.workers == 0 {
        Some("php.workers must be greater than 0"@)
    } else if c.ssl matches Some(s) && (s.cert@.len() == 0 || s.key@.len() == 0) {
        Some("SSL cert and key paths must be specified"@)
    } else {
        None
    }
}

/// The number of worker threads that `workers` asks for on a machine with
/// `cpus` CPUs: `auto`, or text that is not a number, gives `cpus`.
pub open spec fn threads_for(workers: Seq<char>, cpus: usize) -> usize {
    if workers == "auto"@ {
        cpus
    } else {
        match parse_uint_seq(workers, usize::MAX as nat) {
            Some(n) => n as usize,
            None => cpus,
        }
    }
}

impl Config {
    /// Refuses a configuration with no connections, no PHP workers, or TLS
    /// without certificate and key paths.
    pub fn validate(&self) -> (r: Result<(), ConfigError>)
        ensures
            match (r, validation_message(*self)) {
                (Ok(()), None) => true,
                (Err(ConfigError::ValidationError(m)), Some(t)) => m@ == t,
                _ => false,
            },
    {
        if self.server.max_connections == 0 {
            return Err(ConfigError::ValidationError(lit("max_connections must be greater than 0")));
        }
        if self.php.workers == 0 {
            return Err(ConfigError::ValidationError(lit("php.workers must be greater than 0")));
        }
        match &self.ssl {
            Some(ssl) => {
                if ssl.cert.as_str().unicode_len() == 0 || ssl.key.as_str().unicode_len() == 0 {
                    return Err(
                        ConfigError::ValidationError(lit("SSL cert and key paths must be specified")),
                    );
                }
            },
            None => {},
        }
        Ok(())
    }

    /// Worker threads on a machine with `cpus` CPUs.
    pub fn worker_threads_for(&self, cpus: usize) -> (r: usize)
        ensures
            r == threads_for(self.server.workers@, cpus),
    {
        if str_equals(self.server.workers.as_str(), "auto") {
            return cpus;
        }
        let v = chars_of(self.server.workers.as_str());
        assert(v@.subrange(0, v@.len() as int) =~= self.server.workers@);
        match parse_uint_range(&v, 0, v.len(), usize::MAX as u64) {
            Some(n) => n as usize,
            None => cpus,
        }
    }

    /// Worker threads on this machine.
    pub fn worker_threads(&self) -> (r: usize)
        ensures
            exists|cpus: usize| cpus >= 1 && r == threads_for(self.server.workers@, cpus),
    {
        let cpus = cpu_count();
        self.worker_threads_for(cpus)
    }
}

} // verus!
