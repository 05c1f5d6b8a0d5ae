//! Configuration model for agent and collector, with the defaults and the
//! pure parts of loading: environment-reference expansion and hostname
//! fallback. Reading and parsing the files themselves is I/O and lives
//! outside the library; it hands plain values in.

use vstd::prelude::*;

verus! {

#[derive(Debug, Clone)]
pub struct AgentSettings {
    pub id: String,
    pub hostname: String,
    pub tags: Vec<String>,
}

#[derive(Debug, Clone)]
pub struct CollectorSettings {
    pub endpoint: String,
    pub auth_token: Option<String>,
    pub tls_ca_cert: Option<String>,
    pub client_cert: Option<String>,
    pub client_key: Option<String>,
    pub connect_timeout_secs: u64,
    pub request_timeout_secs: u64,
}

#[derive(Debug, Clone)]
pub struct BufferSettings {
    pub max_events: usize,
    pub flush_interval_secs: u64,
    pub max_batch_size: usize,
    pub compression: String,
}

#[derive(Debug, Clone)]
pub struct LogCollectorConfig {
    pub enabled: bool,
    pub files: Vec<String>,
    pub journald_units: Vec<String>,
    pub exclude_patterns: Vec<String>,
}

#[derive(Debug, Clone)]
pub struct MetricsCollectorConfig {
    pub enabled: bool,
    pub system_interval_secs: u64,
    pub prometheus_endpoints: Vec<String>,
    pub include_process_metrics: bool,
}

/// The sampling rate is decimal text (see `json::is_number_text`), so the
/// core carries it without floating point.
#[derive(Debug, Clone)]
pub struct TrafficCollectorConfig {
    pub enabled: bool,
    pub interface: Option<String>,
    pub protocols: Vec<String>,
    pub sample_rate: String,
    pub capture_payload: bool,
}

#[derive(Debug, Clone)]
pub struct CollectorConfigs {
    pub logs: LogCollectorConfig,
    pub metrics: MetricsCollectorConfig,
    pub traffic: TrafficCollectorConfig,
}

#[derive(Debug, Clone)]
pub struct AgentConfig {
    pub agent: AgentSettings,
    pub collector: CollectorSettings,
    pub buffer: BufferSettings,
    pub collectors: CollectorConfigs,
}

#[derive(Debug, Clone)]
pub struct ServerSettings {
    pub websocket_addr: String,
    pub tls_cert: Option<String>,
    pub tls_key: Option<String>,
    pub mtls_ca_cert: Option<String>,
}

#[derive(Debug, Clone)]
pub struct AuthSettings {
    pub mode: String,
    pub token_secret: Option<String>,
}

#[derive(Debug, Clone)]
pub struct StorageSettings {
    pub backend: String,
    pub clickhouse_url: Option<String>,
    pub postgres_url: Option<String>,
    pub s3_bucket: Option<String>,
    pub s3_region: Option<String>,
}

#[derive(Debug, Clone)]
pub struct ProcessorSettings {
    pub workers: usize,
    pub batch_size: usize,
}

#[derive(Debug, Clone)]
pub struct CollectorConfig {
    pub server: ServerSettings,
    pub auth: AuthSettings,
    pub storage: StorageSettings,
    pub processor: ProcessorSettings,
}

pub fn default_max_events() -> (r: usize)
    ensures
        r == 10000,
{
    10000
}

pub fn default_flush_interval() -> (r: u64)
    ensures
        r == 60,
{
    60
}

pub fn default_max_batch_size() -> (r: usize)
    ensures
        r == 1000,
{
    1000
}

pub fn default_compression() -> (r: String)
    ensures
        r@ == "snappy"@,
{
    let r = String::new();
    r.concat("snappy")
}

pub fn default_system_interval() -> (r: u64)
    ensures
        r == 10,
{
    10
}

pub fn default_connect_timeout() -> (r: u64)
    ensures
        r == 30,
{
    30
}

pub fn default_request_timeout() -> (r: u64)
    ensures
        r == 60,
{
    60
}

pub fn default_auth_mode() -> (r: String)
    ensures
        r@ == "token"@,
{
    let r = String::new();
    r.concat("token")
}

pub fn default_workers() -> (r: usize)
    ensures
        r == 4,
{
    4
}

pub fn default_batch_size() -> (r: usize)
    ensures
        r == 1000,
{
    1000
}

/// True when the text is an environment reference of the form `${NAME}`.
pub open spec fn is_env_ref(t: Seq<char>) -> bool {
    t.len() >= 3 && t[0] == '$' && t[1] == '{' && t[t.len() - 1] == '}'
}

/// The variable name inside an environment reference.
pub open spec fn env_ref_name(t: Seq<char>) -> Seq<char> {
    t.subrange(2, t.len() - 1)
}

/// Whether a configured secret is an environment reference, and which
/// variable it names.
pub fn parse_env_ref(t: &str) -> (r: Option<String>)
    ensures
        r matches Some(name) ==> is_env_ref(t@) && name@ == env_ref_name(t@),
        r is None ==> !is_env_ref(t@),
{
    let n = t.unicode_len();
    if n < 3 {
        return None;
    }
    if t.get_char(0) == '$' && t.get_char(1) == '{' && t.get_char(n - 1) == '}' {
        let name = t.substring_char(2, n - 1);
        let mut out = String::new();
        let r = out.concat(name);
        assert(r@ =~= env_ref_name(t@)) by {
            assert(Seq::<char>::empty() + t@.subrange(2, n - 1) =~= t@.subrange(2, n - 1));
        }
        Some(r)
    } else {
        None
    }
}

/// Resolution of a configured token against the environment: a `${NAME}`
/// reference becomes the variable's value (or nothing when unset), any
/// other text stands for itself.
pub open spec fn expanded_token(t: Seq<char>, env_value: Option<Seq<char>>) -> Option<Seq<char>> {
    if is_env_ref(t) {
        env_value
    } else {
        Some(t)
    }
}

/// Applies `expanded_token`; the caller supplies what the environment held
/// for the referenced name, if the text was a reference.
pub fn expand_token(t: String, env_value: Option<String>) -> (r: Option<String>)
    ensures
        r.deep_view() == expanded_token(t@, env_value.deep_view()),
{
    match parse_env_ref(t.as_str()) {
        Some(_) => env_value,
        None => Some(t),
    }
}

/// The hostname that the agent runs under: the configured one, or the
/// machine's own when the configuration leaves it empty.
pub open spec fn resolved_hostname(configured: Seq<char>, machine: Option<Seq<char>>) -> Seq<
    char,
> {
    if configured.len() == 0 {
        match machine {
            Some(h) => h,
            None => "unknown"@,
        }
    } else {
        configured
    }
}

pub fn resolve_hostname(configured: String, machine: Option<String>) -> (r: String)
    ensures
        r@ == resolved_hostname(configured@, machine.deep_view()),
{
    if configured.as_str().unicode_len() == 0 {
        match machine {
            Some(h) => h,
            None => {
                let r = String::new();
                r.concat("unknown")
            },
        }
    } else {
        configured
    }
}

} // verus!
