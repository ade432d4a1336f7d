//! Application configuration: defaults and overrides from the environment.
use vstd::prelude::*;
use vstd::string::*;

verus! {

/// The TLS implementation used for outgoing connections.
#[derive(Clone, Copy, Debug, PartialEq, Eq, Structural)]
pub enum TlsBackend {
    Rustls,
    NativeTls,
}

impl Default for TlsBackend {
    fn default() -> (r: Self)
        ensures
            r == TlsBackend::Rustls,
    {
        TlsBackend::Rustls
    }
}

/// Which export format is asked for.
#[derive(Clone, Copy, Debug, PartialEq, Eq, Structural)]
pub enum ExportFormat {
    Json,
    Csv,
}

/// Query of an export request.
#[derive(Debug)]
pub struct ExportQuery {
    pub format: ExportFormat,
}

pub fn default_export_format() -> (r: ExportFormat)
    ensures
        r == ExportFormat::Json,
{
    ExportFormat::Json
}

/// Application configuration.
#[derive(Debug)]
pub struct Config {
    pub host: String,
    pub port: u16,
    pub region: String,
    pub kiro_version: String,
    pub machine_id: Option<String>,
    pub api_key: Option<String>,
    pub system_version: String,
    pub node_version: String,
    pub tls_backend: TlsBackend,
    pub count_tokens_api_url: Option<String>,
    pub count_tokens_api_key: Option<String>,
    pub count_tokens_auth_type: String,
    pub proxy_url: Option<String>,
    pub proxy_username: Option<String>,
    pub proxy_password: Option<String>,
    pub admin_api_key: Option<String>,
    pub database_url: Option<String>,
}

/// Relies on `fastrand::usize` over `..n`: a value below `n`; it panics
/// when `n` is 0, which `requires` leaves out.
#[verifier::external_body]
fn random_below(n: usize) -> (r: usize)
    requires
        n > 0,
    ensures
        r < n,
{
    fastrand::usize(..n)
}

pub fn default_host() -> (r: String)
    ensures
        r@ == "0.0.0.0"@,
{
    String::from_str("0.0.0.0")
}

pub fn default_port() -> (r: u16)
    ensures
        r == 8990,
{
    8990
}

pub fn default_region() -> (r: String)
    ensures
        r@ == "us-east-1"@,
{
    String::from_str("us-east-1")
}

pub fn default_kiro_version() -> (r: String)
    ensures
        r@ == "0.8.0"@,
{
    String::from_str("0.8.0")
}

/// One of the two client systems, picked at random.
pub fn default_system_version() -> (r: String)
    ensures
        r@ == "darwin#24.6.0"@ || r@ == "win32#10.0.22631"@,
{
    if random_below(2) == 0 {
        String::from_str("darwin#24.6.0")
    } else {
        String::from_str("win32#10.0.22631")
    }
}

pub fn default_node_version() -> (r: String)
    ensures
        r@ == "22.21.1"@,
{
    String::from_str("22.21.1")
}

pub fn default_count_tokens_auth_type() -> (r: String)
    ensures
        r@ == "x-api-key"@,
{
    String::from_str("x-api-key")
}

pub fn default_tls_backend() -> (r: TlsBackend)
    ensures
        r == TlsBackend::Rustls,
{
    TlsBackend::Rustls
}

pub fn default_api_key() -> (r: Option<String>)
    ensures
        r is Some && r->0@ == "sk-kiro-rs-default-key"@,
{
    Some(String::from_str("sk-kiro-rs-default-key"))
}

impl Default for Config {
    fn default() -> (r: Self)
        ensures
            r.host@ == "0.0.0.0"@,
            r.port == 8990,
            r.region@ == "us-east-1"@,
            r.kiro_version@ == "0.8.0"@,
            r.machine_id is None,
            r.api_key is Some && r.api_key->0@ == "sk-kiro-rs-default-key"@,
            r.system_version@ == "darwin#24.6.0"@ || r.system_version@ == "win32#10.0.22631"@,
            r.node_version@ == "22.21.1"@,
            r.tls_backend == TlsBackend::Rustls,
            r.count_tokens_api_url is None,
            r.count_tokens_api_key is None,
            r.count_tokens_auth_type@ == "x-api-key"@,
            r.proxy_url is None,
            r.proxy_username is None,
            r.proxy_password is None,
            r.admin_api_key is None,
            r.database_url is None,
    {
        Config {
            host: default_host(),
            port: default_port(),
            region: default_region(),
            kiro_version: default_kiro_version(),
            machine_id: None,
            api_key: default_api_key(),
            system_version: default_system_version(),
            node_version: default_node_version(),
            tls_backend: default_tls_backend(),
            count_tokens_api_url: None,
            count_tokens_api_key: None,
            count_tokens_auth_type: default_count_tokens_auth_type(),
            proxy_url: None,
            proxy_username: None,
            proxy_password: None,
            admin_api_key: None,
            database_url: None,
        }
    }
}

pub open spec fn is_digit(c: char) -> bool {
    '0' <= c && c <= '9'
}

pub open spec fn decimal_value(s: Seq<char>) -> int
    decreases s.len(),
{
    if s.len() == 0 {
        0
    } else {
        decimal_value(s.drop_last()) * 10 + (s.last() as int - '0' as int)
    }
}

/// Digits of a port number after an optional leading `+`.
pub open spec fn port_digits(s: Seq<char>) -> Seq<char> {
    if s.len() > 0 && s[0] == '+' {
        s.drop_first()
    } else {
        s
    }
}

/// The port that `s` denotes, as std parses a `u16`: an optional `+`, then
/// one or more decimal digits, with a value that fits.
pub open spec fn port_of(s: Seq<char>) -> Option<u16> {
    let d = port_digits(s);
    if d.len() > 0 && (forall|i: int| 0 <= i < d.len() ==> is_digit(#[trigger] d[i])) && decimal_value(d)
        <= u16::MAX {
        Some(decimal_value(d) as u16)
    } else {
        None
    }
}

proof fn lemma_value_nonneg(d: Seq<char>)
    requires
        forall|i: int| 0 <= i < d.len() ==> is_digit(#[trigger] d[i]),
    ensures
        decimal_value(d) >= 0,
    decreases d.len(),
{
    if d.len() > 0 {
        lemma_value_nonneg(d.drop_last());
        assert(is_digit(d[d.len() - 1]));
    }
}

proof fn lemma_prefix_value_le(d: Seq<char>, k: int)
    requires
        0 <= k <= d.len(),
        forall|i: int| 0 <= i < d.len() ==> is_digit(#[trigger] d[i]),
    ensures
        decimal_value(d.take(k)) <= decimal_value(d),
        decimal_value(d.take(k)) >= 0,
    decreases d.len() - k,
{
    assert(d.take(d.len() as int) =~= d);
    lemma_value_nonneg(d.take(k));
    if k < d.len() {
        lemma_prefix_value_le(d, k + 1);
        assert(d.take(k + 1).drop_last() =~= d.take(k));
        assert(is_digit(d[k]));
    }
}

/// Parses a port number as `u16`'s `FromStr` does.
pub fn parse_port(s: &str) -> (r: Option<u16>)
    ensures
        r == port_of(s@),
{
    let n = s.unicode_len();
    let start: usize = if n > 0 && s.get_char(0) == '+' { 1 } else { 0 };
    let ghost d = port_digits(s@);
    proof {
        assert(d =~= s@.subrange(start as int, n as int));
    }
    if start >= n {
        return None;
    }
    let mut value: u32 = 0;
    let mut k: usize = start;
    while k < n
        invariant
            start <= k <= n,
            n == s@.len(),
            d == s@.subrange(start as int, n as int),
            d == port_digits(s@),
            value <= u16::MAX,
            value == decimal_value(d.take(k - start)),
            forall|i: int| 0 <= i < k - start ==> is_digit(#[trigger] d[i]),
        decreases n - k,
    {
        let c = s.get_char(k);
        proof {
            assert(d[k - start] == c);
        }
        if !('0' <= c && c <= '9') {
            proof {
                assert(!is_digit(d[k - start]));
            }
            return None;
        }
        proof {
            assert(d.take(k - start + 1).drop_last() =~= d.take(k - start));
            assert(d.take(k - start + 1).last() == c);
        }
        let next: u32 = value * 10 + (c as u32 - '0' as u32);
        if next > u16::MAX as u32 {
            proof {
                if forall|i: int| 0 <= i < d.len() ==> is_digit(#[trigger] d[i]) {
                    lemma_prefix_value_le(d, k - start + 1);
                    assert(decimal_value(d.take(k - start + 1)) == next);
                }
            }
            return None;
        }
        value = next;
        k = k + 1;
    }
    proof {
        assert(d.take(n - start) =~= d);
    }
    Some(value as u16)
}


/// Configuration values found in the environment, one per variable that
/// may override a setting; `None` where the variable is unset.
#[derive(Debug)]
pub struct EnvOverrides {
    pub host: Option<String>,
    pub port: Option<String>,
    pub region: Option<String>,
    pub kiro_version: Option<String>,
    pub machine_id: Option<String>,
    pub api_key: Option<String>,
    pub system_version: Option<String>,
    pub node_version: Option<String>,
    pub count_tokens_api_url: Option<String>,
    pub count_tokens_api_key: Option<String>,
    pub count_tokens_auth_type: Option<String>,
    pub proxy_url: Option<String>,
    pub proxy_username: Option<String>,
    pub proxy_password: Option<String>,
    pub admin_api_key: Option<String>,
    pub database_url: Option<String>,
    /// The generic database variable, used only when no specific one is set.
    pub fallback_database_url: Option<String>,
    pub tls_backend: Option<String>,
}

pub open spec fn or_keep<T>(new: Option<T>, old: T) -> T {
    match new {
        Some(v) => v,
        None => old,
    }
}

pub open spec fn or_keep_opt<T>(new: Option<T>, old: Option<T>) -> Option<T> {
    match new {
        Some(v) => Some(v),
        None => old,
    }
}

/// The port after an override: kept when unset or not a valid port.
pub open spec fn port_after(new: Option<String>, old: u16) -> u16 {
    match new {
        Some(v) => match port_of(v@) {
            Some(p) => p,
            None => old,
        },
        None => old,
    }
}

/// The TLS backend after an override: only `rustls` and `native-tls` count.
pub open spec fn tls_after(new: Option<String>, old: TlsBackend) -> TlsBackend {
    match new {
        Some(v) => if v@ == "rustls"@ {
            TlsBackend::Rustls
        } else if v@ == "native-tls"@ {
            TlsBackend::NativeTls
        } else {
            old
        },
        None => old,
    }
}

fn same_text(a: &str, b: &str) -> (r: bool)
    ensures
        r == (a@ == b@),
{
    let n = a.unicode_len();
    if n != b.unicode_len() {
        return false;
    }
    let mut i: usize = 0;
    while i < n
        invariant
            n == a@.len() == b@.len(),
            i <= n,
            forall|k: int| 0 <= k < i ==> a@[k] == b@[k],
        decreases n - i,
    {
        if a.get_char(i) != b.get_char(i) {
            return false;
        }
        i = i + 1;
    }
    proof {
        assert(a@ =~= b@);
    }
    true
}

fn keep_or(new: Option<String>, slot: &mut String)
    ensures
        *final(slot) == or_keep(new, *old(slot)),
{
    if let Some(v) = new {
        *slot = v;
    }
}

fn keep_or_opt(new: Option<String>, slot: &mut Option<String>)
    ensures
        *final(slot) == or_keep_opt(new, *old(slot)),
{
    if let Some(v) = new {
        *slot = Some(v);
    }
}

impl Config {
    /// Name of the configuration file read when none is given.
    pub fn default_config_path() -> (r: &'static str)
        ensures
            r@ == "config.json"@,
    {
        "config.json"
    }

    /// Applies the environment's overrides: each variable that is set
    /// replaces its setting; a port that does not parse and an unknown TLS
    /// backend are ignored; the generic database variable applies only when
    /// no database URL is set by then.
    pub fn apply_env(&mut self, env: EnvOverrides)
        ensures
            final(self).host == or_keep(env.host, old(self).host),
            final(self).port == port_after(env.port, old(self).port),
            final(self).region == or_keep(env.region, old(self).region),
            final(self).kiro_version == or_keep(env.kiro_version, old(self).kiro_version),
            final(self).machine_id == or_keep_opt(env.machine_id, old(self).machine_id),
            final(self).api_key == or_keep_opt(env.api_key, old(self).api_key),
            final(self).system_version == or_keep(env.system_version, old(self).system_version),
            final(self).node_version == or_keep(env.node_version, old(self).node_version),
            final(self).count_tokens_api_url == or_keep_opt(
                env.count_tokens_api_url,
                old(self).count_tokens_api_url,
            ),
            final(self).count_tokens_api_key == or_keep_opt(
                env.count_tokens_api_key,
                old(self).count_tokens_api_key,
            ),
            final(self).count_tokens_auth_type == or_keep(
                env.count_tokens_auth_type,
                old(self).count_tokens_auth_type,
            ),
            final(self).proxy_url == or_keep_opt(env.proxy_url, old(self).proxy_url),
            final(self).proxy_username == or_keep_opt(env.proxy_username, old(self).proxy_username),
            final(self).proxy_password == or_keep_opt(env.proxy_password, old(self).proxy_password),
            final(self).admin_api_key == or_keep_opt(env.admin_api_key, old(self).admin_api_key),
            or_keep_opt(env.database_url, old(self).database_url) is Some ==> final(self).database_url
                == or_keep_opt(env.database_url, old(self).database_url),
            or_keep_opt(env.database_url, old(self).database_url) is None ==> final(self).database_url
                == env.fallback_database_url,
            final(self).tls_backend == tls_after(env.tls_backend, old(self).tls_backend),
    {
        keep_or(env.host, &mut self.host);
        if let Some(v) = env.port {
            if let Some(p) = parse_port(v.as_str()) {
                self.port = p;
            }
        }
        keep_or(env.region, &mut self.region);
        keep_or(env.kiro_version, &mut self.kiro_version);
        keep_or_opt(env.machine_id, &mut self.machine_id);
        keep_or_opt(env.api_key, &mut self.api_key);
        keep_or(env.system_version, &mut self.system_version);
        keep_or(env.node_version, &mut self.node_version);
        keep_or_opt(env.count_tokens_api_url, &mut self.count_tokens_api_url);
        keep_or_opt(env.count_tokens_api_key, &mut self.count_tokens_api_key);
        keep_or(env.count_tokens_auth_type, &mut self.count_tokens_auth_type);
        keep_or_opt(env.proxy_url, &mut self.proxy_url);
        keep_or_opt(env.proxy_username, &mut self.proxy_username);
        keep_or_opt(env.proxy_password, &mut self.proxy_password);
        keep_or_opt(env.admin_api_key, &mut self.admin_api_key);
        keep_or_opt(env.database_url, &mut self.database_url);
        if self.database_url.is_none() {
            if let Some(v) = env.fallback_database_url {
                self.database_url = Some(v);
            }
        }
        if let Some(v) = env.tls_backend {
            if same_text(v.as_str(), "rustls") {
                self.tls_backend = TlsBackend::Rustls;
            } else if same_text(v.as_str(), "native-tls") {
                self.tls_backend = TlsBackend::NativeTls;
            }
        }
    }
}

} // verus!
