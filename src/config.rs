use vstd::prelude::*;
use vstd::string::StringExecFns;
use vstd::utf8::encode_utf8;

use crate::numtext::{parse_unsigned, unsigned_value};
use crate::resolver::{push_char, MAX_HASH_RETRIES};
use crate::time::opt_view;

verus! {

/// The settings of a running service.
#[derive(Clone)]
pub struct Config {
    pub axum_server_port: u16,
    pub database_url: String,
    pub shortlink_base_url: String,
    pub shortlink_length: usize,
    pub shortlink_expire_days: u16,
    pub shortlink_max_hash_retries: u16,
    pub logging_file_location: String,
    pub logging_file_name: String,
    pub logging_level: String,
}

/// The password of `s` parsed as a URL, as it is written there; `None` when `s` does
/// not parse or has no password.
pub uninterp spec fn url_password_of(s: Seq<char>) -> Option<Seq<char>>;

/// The text of `s` parsed as a URL, with its password replaced by `p`; `None` when `s`
/// does not parse.
pub uninterp spec fn url_with_password_of(s: Seq<char>, p: Seq<char>) -> Option<Seq<char>>;

/// The text of `s` parsed as a URL and written back; `None` when `s` does not parse.
pub uninterp spec fn url_text_of(s: Seq<char>) -> Option<Seq<char>>;

/// Relies on `url::Url::parse` and `Url::password`.
#[verifier::external_body]
fn url_password(s: &str) -> (r: Option<String>)
    ensures
        opt_view(r) == url_password_of(s@),
{
    match url::Url::parse(s) {
        Ok(u) => match u.password() {
            Some(p) => Some(p.to_string()),
            None => None,
        },
        Err(_) => None,
    }
}

/// Relies on `url::Url::parse`, `Url::set_password` and the `Display` of `Url`: a
/// string with a password parses, so it is always written back.
#[verifier::external_body]
fn url_with_password(s: &str, p: &str) -> (r: Option<String>)
    ensures
        opt_view(r) == url_with_password_of(s@, p@),
        url_password_of(s@) is Some ==> r is Some,
{
    match url::Url::parse(s) {
        Ok(mut u) => {
            let _ = u.set_password(Some(p));
            Some(u.to_string())
        },
        Err(_) => None,
    }
}

/// Relies on `url::Url::parse` and the `Display` of `Url`.
#[verifier::external_body]
fn url_text(s: &str) -> (r: Option<String>)
    ensures
        opt_view(r) == url_text_of(s@),
{
    match url::Url::parse(s) {
        Ok(u) => Some(u.to_string()),
        Err(_) => None,
    }
}

/// `n` asterisks.
pub open spec fn stars(n: nat) -> Seq<char> {
    Seq::new(n, |i: int| '*')
}

/// A string of `n` asterisks.
pub fn stars_of_len(n: usize) -> (r: String)
    ensures
        r@ == stars(n as nat),
{
    let mut r = String::new();
    let mut i: usize = 0;
    while i < n
        invariant
            i <= n,
            r@ == stars(i as nat),
        decreases n - i,
    {
        push_char(&mut r, '*');
        i = i + 1;
        assert(r@ =~= stars(i as nat));
    }
    r
}

/// The store connection string as it may be shown: a password is replaced by as many
/// asterisks as it has bytes, and a string that parses as a URL is written back as such.
pub open spec fn masked_url(s: Seq<char>) -> Seq<char> {
    match url_password_of(s) {
        Some(p) => match url_with_password_of(s, stars(encode_utf8(p).len())) {
            Some(t) => t,
            None => Seq::empty(),
        },
        None => match url_text_of(s) {
            Some(t) => t,
            None => s,
        },
    }
}

/// Masks the password of a connection string.
pub fn mask_database_url(s: &str) -> (r: String)
    ensures
        r@ == masked_url(s@),
        url_password_of(s@) matches Some(p) ==> Some(r@) == url_with_password_of(
            s@,
            stars(encode_utf8(p).len()),
        ),
{
    match url_password(s) {
        Some(p) => {
            let mask = stars_of_len(p.as_str().as_bytes().len());
            assert(mask@ == stars(encode_utf8(p@).len()));
            match url_with_password(s, mask.as_str()) {
                Some(t) => t,
                None => String::new(),
            }
        },
        None => match url_text(s) {
            Some(t) => t,
            None => String::from_str(s),
        },
    }
}

impl Config {
    /// The configuration as it may be shown, with the store password masked.
    pub fn masked(&self) -> (r: Config)
        ensures
            r.database_url@ == masked_url(self.database_url@),
            r.axum_server_port == self.axum_server_port,
            r.shortlink_base_url@ == self.shortlink_base_url@,
            r.shortlink_length == self.shortlink_length,
            r.shortlink_expire_days == self.shortlink_expire_days,
            r.shortlink_max_hash_retries == self.shortlink_max_hash_retries,
            r.logging_file_location@ == self.logging_file_location@,
            r.logging_file_name@ == self.logging_file_name@,
            r.logging_level@ == self.logging_level@,
    {
        Config {
            axum_server_port: self.axum_server_port,
            database_url: mask_database_url(self.database_url.as_str()),
            shortlink_base_url: self.shortlink_base_url.clone(),
            shortlink_length: self.shortlink_length,
            shortlink_expire_days: self.shortlink_expire_days,
            shortlink_max_hash_retries: self.shortlink_max_hash_retries,
            logging_file_location: self.logging_file_location.clone(),
            logging_file_name: self.logging_file_name.clone(),
            logging_level: self.logging_level.clone(),
        }
    }
}

/// The mask that stands for a password has as many characters as the password has
/// bytes, and differs from the password unless the password is all asterisks.
pub proof fn mask_hides_password(p: Seq<char>)
    requires
        exists|i: int| 0 <= i < p.len() && p[i] != '*',
    ensures
        stars(encode_utf8(p).len()).len() == encode_utf8(p).len(),
        stars(encode_utf8(p).len()) != p,
{
    let m = stars(encode_utf8(p).len());
    let i = choose|i: int| 0 <= i < p.len() && p[i] != '*';
    if m.len() == p.len() {
        assert(m[i] == '*');
    }
}

impl Config {
    /// The code length lies between one and sixteen, and the retry budget keeps every
    /// candidate within the 62 symbols.
    pub open spec fn valid(&self) -> bool {
        1 <= self.shortlink_length <= 16 && self.shortlink_max_hash_retries <= MAX_HASH_RETRIES
    }
}

/// What the metrics and configuration endpoints share.
#[derive(Clone)]
pub struct MatricState {
    pub config: Config,
}

/// The raw settings a configuration is read from, each one absent when unset.
pub struct ConfigSource {
    pub axum_server_port: Option<String>,
    pub database_url: Option<String>,
    pub shortlink_base_url: Option<String>,
    pub shortlink_length: Option<String>,
    pub shortlink_expire_days: Option<String>,
    pub shortlink_max_hash_retries: Option<String>,
    pub logging_file_location: Option<String>,
    pub logging_file_name: Option<String>,
    pub logging_level: Option<String>,
}

/// Why a configuration was refused.
#[derive(Debug, PartialEq, Eq, Structural)]
pub enum ConfigError {
    /// The store connection string is not set.
    MissingDatabaseUrl,
    /// The store connection string does not parse as a URL.
    InvalidDatabaseUrl,
    /// The store connection string does not use the `postgres` scheme.
    WrongDatabaseScheme,
    /// The code length is zero.
    LengthZero,
    /// The code length is above sixteen.
    LengthTooLarge,
    /// The log file directory is not set.
    MissingLoggingFileLocation,
    /// The log file name is not set.
    MissingLoggingFileName,
    /// The log level is none of `error`, `warn`, `info`, `debug`, `trace`.
    InvalidLoggingLevel,
    /// The retry budget is above `MAX_HASH_RETRIES`.
    RetryBudgetTooLarge,
}

/// The longest code a configuration may ask for.
pub const MAX_SHORTLINK_LENGTH: usize = 16;

/// The scheme of `s` parsed as a URL; `None` when `s` does not parse.
pub uninterp spec fn url_scheme_of(s: Seq<char>) -> Option<Seq<char>>;

/// The lower-case form of a string, as `str::to_lowercase` gives it.
pub uninterp spec fn lower_of(s: Seq<char>) -> Seq<char>;

/// Decimal digits of `n`, with no leading zeros.
pub open spec fn decimal_text(n: nat) -> Seq<char>
    decreases n,
{
    if n < 10 {
        seq![(n + 48) as u8 as char]
    } else {
        decimal_text(n / 10).push(((n % 10) + 48) as u8 as char)
    }
}

/// Relies on `url::Url::parse` and `Url::scheme`.
#[verifier::external_body]
fn url_scheme(s: &str) -> (r: Option<String>)
    ensures
        opt_view(r) == url_scheme_of(s@),
{
    match url::Url::parse(s) {
        Ok(u) => Some(u.scheme().to_string()),
        Err(_) => None,
    }
}

/// Relies on `str::to_lowercase`: the result depends on the characters alone.
#[verifier::external_body]
fn lowercase(s: &str) -> (r: String)
    ensures
        r@ == lower_of(s@),
{
    s.to_lowercase()
}

/// Writes `n` in decimal.
pub fn decimal_string(n: u64) -> (r: String)
    ensures
        r@ == decimal_text(n as nat),
    decreases n,
{
    if n < 10 {
        let mut r = String::new();
        push_char(&mut r, (n as u8 + 48) as char);
        assert(r@ =~= decimal_text(n as nat));
        r
    } else {
        let mut r = decimal_string(n / 10);
        push_char(&mut r, ((n % 10) as u8 + 48) as char);
        r
    }
}

/// The base URL of links when none is configured: the local host on `port`.
pub open spec fn localhost_text(port: nat) -> Seq<char> {
    "http://localhost:"@ + decimal_text(port)
}

/// Builds the local base URL for `port`.
pub fn localhost_url(port: u16) -> (r: String)
    ensures
        r@ == localhost_text(port as nat),
{
    String::from_str("http://localhost:").concat(decimal_string(port as u64).as_str())
}

/// The number a setting gives, or `default` when it is unset or is not a decimal
/// number of at most `max`.
pub open spec fn number_or(s: Option<String>, max: nat, default: nat) -> nat {
    match s {
        Some(t) => match unsigned_value(t@, max) {
            Some(v) => v,
            None => default,
        },
        None => default,
    }
}

/// The server port a source gives: 8080 by default.
pub open spec fn port_of(src: &ConfigSource) -> nat {
    number_or(src.axum_server_port, u16::MAX as nat, 8080)
}

/// The code length a source gives: 8 by default.
pub open spec fn length_of(src: &ConfigSource) -> nat {
    number_or(src.shortlink_length, usize::MAX as nat, 8)
}

/// The retry budget a source gives: 4 by default.
pub open spec fn retries_of(src: &ConfigSource) -> nat {
    number_or(src.shortlink_max_hash_retries, u16::MAX as nat, 4)
}

/// The log level a source gives, in lower case: `info` by default.
pub open spec fn level_of(src: &ConfigSource) -> Seq<char> {
    match src.logging_level {
        Some(l) => lower_of(l@),
        None => "info"@,
    }
}

/// The log levels a configuration accepts.
pub open spec fn is_log_level(l: Seq<char>) -> bool {
    l == "error"@ || l == "warn"@ || l == "info"@ || l == "debug"@ || l == "trace"@
}

/// The first reason, in the order the settings are checked, to refuse a source.
pub open spec fn config_error(src: &ConfigSource) -> Option<ConfigError> {
    match src.database_url {
        None => Some(ConfigError::MissingDatabaseUrl),
        Some(d) => match url_scheme_of(d@) {
            None => Some(ConfigError::InvalidDatabaseUrl),
            Some(scheme) => if scheme != "postgres"@ {
                Some(ConfigError::WrongDatabaseScheme)
            } else if length_of(src) == 0 {
                Some(ConfigError::LengthZero)
            } else if length_of(src) > 16 {
                Some(ConfigError::LengthTooLarge)
            } else if src.logging_file_location is None {
                Some(ConfigError::MissingLoggingFileLocation)
            } else if src.logging_file_name is None {
                Some(ConfigError::MissingLoggingFileName)
            } else if !is_log_level(level_of(src)) {
                Some(ConfigError::InvalidLoggingLevel)
            } else if retries_of(src) > MAX_HASH_RETRIES {
                Some(ConfigError::RetryBudgetTooLarge)
            } else {
                None
            },
        },
    }
}

fn number_setting(s: &Option<String>, max: u64, default: u64) -> (r: u64)
    requires
        default <= max,
    ensures
        r as nat == number_or(*s, max as nat, default as nat),
        r <= max,
{
    match s {
        Some(t) => match parse_unsigned(t.as_str(), max) {
            Some(v) => v,
            None => default,
        },
        None => default,
    }
}

fn is_log_level_exec(l: &String) -> (r: bool)
    ensures
        r == is_log_level(l@),
{
    *l == String::from_str("error") || *l == String::from_str("warn") || *l == String::from_str(
        "info",
    ) || *l == String::from_str("debug") || *l == String::from_str("trace")
}

impl Config {
    /// Reads a configuration from its raw settings, with the defaults for those unset
    /// or unreadable, and refuses it for the first reason that `config_error` gives.
    pub fn from_settings(src: &ConfigSource) -> (r: Result<Config, ConfigError>)
        ensures
            r matches Err(e) ==> config_error(src) == Some(e),
            r is Ok <==> config_error(src) is None,
            r matches Ok(c) ==> c.valid(),
            r matches Ok(c) ==> c.axum_server_port == port_of(src) && Some(c.database_url@)
                == opt_view(src.database_url) && c.shortlink_length == length_of(src)
                && c.shortlink_expire_days == number_or(src.shortlink_expire_days, u16::MAX as nat, 10)
                && c.shortlink_max_hash_retries == retries_of(src)
                && Some(c.logging_file_location@) == opt_view(src.logging_file_location)
                && Some(c.logging_file_name@) == opt_view(src.logging_file_name)
                && c.logging_level@ == level_of(src),
            r matches Ok(c) ==> c.shortlink_base_url@ == match src.shortlink_base_url {
                Some(b) => b@,
                None => localhost_text(port_of(src)),
            },
    {
        let port = number_setting(&src.axum_server_port, 65535, 8080) as u16;
        let database_url = match &src.database_url {
            Some(d) => d.clone(),
            None => {
                return Err(ConfigError::MissingDatabaseUrl);
            },
        };
        let scheme = match url_scheme(database_url.as_str()) {
            Some(s) => s,
            None => {
                return Err(ConfigError::InvalidDatabaseUrl);
            },
        };
        if scheme != String::from_str("postgres") {
            return Err(ConfigError::WrongDatabaseScheme);
        }
        let length = number_setting(&src.shortlink_length, usize::MAX as u64, 8) as usize;
        if length == 0 {
            return Err(ConfigError::LengthZero);
        }
        if length > MAX_SHORTLINK_LENGTH {
            return Err(ConfigError::LengthTooLarge);
        }
        let logging_file_location = match &src.logging_file_location {
            Some(l) => l.clone(),
            None => {
                return Err(ConfigError::MissingLoggingFileLocation);
            },
        };
        let logging_file_name = match &src.logging_file_name {
            Some(l) => l.clone(),
            None => {
                return Err(ConfigError::MissingLoggingFileName);
            },
        };
        let logging_level = match &src.logging_level {
            Some(l) => lowercase(l.as_str()),
            None => String::from_str("info"),
        };
        if !is_log_level_exec(&logging_level) {
            return Err(ConfigError::InvalidLoggingLevel);
        }
        let shortlink_max_hash_retries = number_setting(&src.shortlink_max_hash_retries, 65535, 4) as u16;
        if shortlink_max_hash_retries > MAX_HASH_RETRIES {
            return Err(ConfigError::RetryBudgetTooLarge);
        }
        let shortlink_base_url = match &src.shortlink_base_url {
            Some(b) => b.clone(),
            None => localhost_url(port),
        };
        let shortlink_expire_days = number_setting(&src.shortlink_expire_days, 65535, 10) as u16;
        Ok(Config {
            axum_server_port: port,
            database_url,
            shortlink_base_url,
            shortlink_length: length,
            shortlink_expire_days,
            shortlink_max_hash_retries,
            logging_file_location,
            logging_file_name,
            logging_level,
        })
    }
}

} // verus!
