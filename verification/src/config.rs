//! Gateway settings: which are required, their defaults, and how ports and
//! the downstream node list are read from their text.

use vstd::prelude::*;
use crate::text::{trim, trim_spec};

verus! {

/// The value of a decimal digit character.
pub open spec fn digit_value(c: char) -> nat {
    (c as u32 - 48) as nat
}

pub open spec fn is_digit(c: char) -> bool {
    '0' <= c && c <= '9'
}

/// The number a run of decimal digits denotes.
pub open spec fn decimal_value(digits: Seq<char>) -> nat
    decreases digits.len(),
{
    if digits.len() == 0 {
        0
    } else {
        10 * decimal_value(digits.drop_last()) + digit_value(digits.last())
    }
}

/// The digits of a number's text after an optional leading `+`.
pub open spec fn unsigned_digits(text: Seq<char>) -> Seq<char> {
    if text.len() > 0 && text[0] == '+' { text.drop_first() } else { text }
}

/// The port `text` denotes, as `u16`'s `FromStr` reads it: an optional `+`,
/// then at least one decimal digit, for a value of at most 65535.
pub open spec fn port_parse(text: Seq<char>) -> Option<u16> {
    let digits = unsigned_digits(text);
    if digits.len() > 0 && (forall|i: int| 0 <= i < digits.len() ==> is_digit(#[trigger] digits[i]))
        && decimal_value(digits) <= u16::MAX {
        Some(decimal_value(digits) as u16)
    } else {
        None
    }
}

/// Reads a port number from its text.
pub fn parse_port(text: &str) -> (port: Option<u16>)
    ensures
        port == port_parse(text@),
{
    let n = text.unicode_len();
    let start: usize = if n > 0 && text.get_char(0) == '+' { 1 } else { 0 };
    let ghost digits = unsigned_digits(text@);
    assert(digits =~= text@.skip(start as int));
    if start >= n {
        return None;
    }
    let mut value: u32 = 0;
    let mut i: usize = start;
    while i < n
        invariant
            start <= i <= n,
            n == text@.len(),
            digits == text@.skip(start as int),
            digits == unsigned_digits(text@),
            forall|k: int| 0 <= k < i - start ==> is_digit(#[trigger] digits[k]),
            value as nat == if decimal_value(digits.take(i - start)) <= 65536 {
                decimal_value(digits.take(i - start))
            } else {
                65536
            },
        decreases n - i,
    {
        let c = text.get_char(i);
        if !('0' <= c && c <= '9') {
            assert(digits[i - start] == c);
            assert(0 <= i - start < digits.len());
            assert(!is_digit(digits[i - start]));
            return None;
        }
        let d = (c as u32) - 48;
        proof {
            assert(digits.take(i - start + 1).drop_last() =~= digits.take(i - start));
            assert(digits.take(i - start + 1).last() == c);
        }
        value = if value * 10 + d > 65536 { 65536 } else { value * 10 + d };
        i = i + 1;
    }
    assert(digits.take(n - start) =~= digits);
    if value <= 65535 {
        Some(value as u16)
    } else {
        None
    }
}

/// The pieces of `text` between the separator `sep`, as `str::split` gives them.
pub open spec fn split_spec(text: Seq<char>, sep: char) -> Seq<Seq<char>>
    decreases text.len(),
{
    if text.len() == 0 {
        seq![Seq::empty()]
    } else {
        let before = split_spec(text.drop_last(), sep);
        if text.last() == sep {
            before.push(Seq::empty())
        } else {
            before.update(before.len() - 1, before.last().push(text.last()))
        }
    }
}

proof fn lemma_split_nonempty(text: Seq<char>, sep: char)
    ensures
        split_spec(text, sep).len() >= 1,
    decreases text.len(),
{
    if text.len() > 0 {
        lemma_split_nonempty(text.drop_last(), sep);
    }
}

/// `pieces` joined with `sep` between each two of them.
pub open spec fn joined_with(pieces: Seq<Seq<char>>, sep: char) -> Seq<char>
    decreases pieces.len(),
{
    if pieces.len() == 0 {
        Seq::empty()
    } else if pieces.len() == 1 {
        pieces[0]
    } else {
        joined_with(pieces.drop_last(), sep) + seq![sep] + pieces.last()
    }
}

/// Splitting loses and invents nothing: there is always at least one piece,
/// no piece holds the separator, and the pieces joined again with the
/// separator give back the text, empty pieces (between two separators, or
/// at either end) included.
pub proof fn lemma_split_rejoins_to_text(text: Seq<char>, sep: char)
    ensures
        split_spec(text, sep).len() >= 1,
        forall|i: int, j: int|
            0 <= i < split_spec(text, sep).len() && 0 <= j < split_spec(text, sep)[i].len()
                ==> #[trigger] split_spec(text, sep)[i][j] != sep,
        joined_with(split_spec(text, sep), sep) == text,
    decreases text.len(),
{
    if text.len() == 0 {
        assert(joined_with(split_spec(text, sep), sep) =~= text);
    } else {
        let prefix = text.drop_last();
        lemma_split_rejoins_to_text(prefix, sep);
        let before = split_spec(prefix, sep);
        let c = text.last();
        if c == sep {
            let after = before.push(Seq::<char>::empty());
            assert(after.drop_last() =~= before);
            assert(joined_with(after, sep) =~= prefix + seq![sep]);
            assert(prefix + seq![sep] =~= text);
        } else {
            let piece = before.last().push(c);
            let after = before.update(before.len() - 1, piece);
            if before.len() == 1 {
                assert(joined_with(after, sep) == piece);
                assert(joined_with(before, sep) == before[0]);
                assert(piece =~= text);
            } else {
                assert(after.drop_last() =~= before.drop_last());
                assert(joined_with(after, sep) == joined_with(before.drop_last(), sep) + seq![sep] + piece);
                assert(joined_with(after, sep) =~= joined_with(before, sep).push(c));
                assert(prefix.push(c) =~= text);
            }
            assert forall|i: int, j: int| 0 <= i < after.len() && 0 <= j < after[i].len() implies #[trigger] after[i][j]
                != sep by {
                if i == before.len() - 1 {
                    if j < before.last().len() {
                        assert(after[i][j] == before[i][j]);
                    } else {
                        assert(after[i][j] == c);
                    }
                } else {
                    assert(after[i] == before[i]);
                }
            }
        }
    }
}

/// The downstream node list: the comma-separated pieces, each trimmed.
pub open spec fn downstream_list(text: Seq<char>) -> Seq<Seq<char>> {
    split_spec(text, ',').map_values(|piece: Seq<char>| trim_spec(piece))
}

/// Reads the comma-separated downstream node list, trimming each entry.
pub fn split_downstream_urls(text: &str) -> (urls: Vec<String>)
    ensures
        urls.deep_view() == downstream_list(text@),
{
    let n = text.unicode_len();
    let mut urls: Vec<String> = Vec::new();
    let mut start: usize = 0;
    let mut i: usize = 0;
    proof {
        assert(text@.take(0) =~= Seq::<char>::empty());
    }
    while i < n
        invariant
            start <= i <= n,
            n == text@.len(),
            split_spec(text@.take(i as int), ',').len() == urls@.len() + 1,
            forall|k: int| 0 <= k < urls@.len() ==> (#[trigger] urls@[k])@ == trim_spec(
                split_spec(text@.take(i as int), ',')[k],
            ),
            split_spec(text@.take(i as int), ',').last() == text@.subrange(start as int, i as int),
        decreases n - i,
    {
        let c = text.get_char(i);
        proof {
            assert(text@.take(i + 1).drop_last() =~= text@.take(i as int));
            assert(text@.take(i + 1).last() == c);
            lemma_split_nonempty(text@.take(i as int), ',');
        }
        if c == ',' {
            let piece = text.substring_char(start, i);
            urls.push(trim(piece).to_owned());
            start = i + 1;
            proof {
                assert(text@.subrange(start as int, i + 1) =~= Seq::<char>::empty());
            }
        } else {
            proof {
                assert(text@.subrange(start as int, i + 1) =~= text@.subrange(start as int, i as int).push(c));
            }
        }
        i = i + 1;
    }
    let last = text.substring_char(start, n);
    urls.push(trim(last).to_owned());
    assert(text@.take(n as int) =~= text@);
    assert(urls.deep_view() =~= downstream_list(text@));
    urls
}

/// The settings the gateway reads from its environment (`None` when unset).
#[derive(Debug)]
pub struct Settings {
    pub redis_url: Option<String>,
    pub database_url: Option<String>,
    pub tls_cert_path: Option<String>,
    pub tls_key_path: Option<String>,
    pub public_port: Option<String>,
    pub admin_port: Option<String>,
    pub downstream_ai_urls: Option<String>,
    pub cluster_domain: Option<String>,
}

/// A complete gateway configuration.
#[derive(Debug)]
pub struct GatewayConfig {
    pub redis_url: String,
    pub database_url: String,
    pub tls_cert_path: String,
    pub tls_key_path: String,
    pub public_port: u16,
    pub admin_port: u16,
    pub downstream_urls: Vec<String>,
    pub cluster_domain: String,
}

/// Why the settings do not make a configuration.
#[derive(Clone, Copy, Debug, PartialEq, Eq)]
pub enum ConfigError {
    MissingRedisUrl,
    MissingDatabaseUrl,
    MissingTlsCertPath,
    MissingTlsKeyPath,
    InvalidPublicPort,
    InvalidAdminPort,
    MissingDownstreamUrls,
}

impl ConfigError {
    /// The message the gateway stops with.
    pub fn message(&self) -> (text: &'static str)
        ensures
            text@ == match self {
                ConfigError::MissingRedisUrl => "Missing REDIS_URL"@,
                ConfigError::MissingDatabaseUrl => "Missing DATABASE_URL"@,
                ConfigError::MissingTlsCertPath => "Missing TLS_CERT_PATH"@,
                ConfigError::MissingTlsKeyPath => "Missing TLS_KEY_PATH"@,
                ConfigError::InvalidPublicPort => "Invalid PUBLIC_PORT"@,
                ConfigError::InvalidAdminPort => "Invalid ADMIN_PORT"@,
                ConfigError::MissingDownstreamUrls => "Missing DOWNSTREAM_AI_URLS"@,
            },
    {
        match self {
            ConfigError::MissingRedisUrl => "Missing REDIS_URL",
            ConfigError::MissingDatabaseUrl => "Missing DATABASE_URL",
            ConfigError::MissingTlsCertPath => "Missing TLS_CERT_PATH",
            ConfigError::MissingTlsKeyPath => "Missing TLS_KEY_PATH",
            ConfigError::InvalidPublicPort => "Invalid PUBLIC_PORT",
            ConfigError::InvalidAdminPort => "Invalid ADMIN_PORT",
            ConfigError::MissingDownstreamUrls => "Missing DOWNSTREAM_AI_URLS",
        }
    }
}

/// The port a setting gives: its value when set, else the default.
pub open spec fn port_setting(value: Option<String>, default: Seq<char>) -> Option<u16> {
    match value {
        Some(v) => port_parse(v@),
        None => port_parse(default),
    }
}

fn read_port(value: &Option<String>, default: &str) -> (port: Option<u16>)
    ensures
        port == port_setting(*value, default@),
{
    match value {
        Some(v) => parse_port(v.as_str()),
        None => parse_port(default),
    }
}

/// Builds the configuration, checking settings in the order the gateway
/// reads them: the Redis and database URLs and the TLS certificate and key
/// paths are required; the public and admin ports default to 8443 and 9090
/// and must be valid port numbers; the downstream node list is required; the
/// cluster domain defaults to `api.fluxgate.local`.
pub fn load_config(settings: Settings) -> (config: Result<GatewayConfig, ConfigError>)
    ensures
        settings.redis_url is None ==> config == Err::<GatewayConfig, ConfigError>(ConfigError::MissingRedisUrl),
        settings.redis_url is Some && settings.database_url is None ==> config == Err::<GatewayConfig, ConfigError>(ConfigError::MissingDatabaseUrl),
        settings.redis_url is Some && settings.database_url is Some && settings.tls_cert_path is None
            ==> config == Err::<GatewayConfig, ConfigError>(ConfigError::MissingTlsCertPath),
        settings.redis_url is Some && settings.database_url is Some && settings.tls_cert_path is Some
            && settings.tls_key_path is None ==> config == Err::<GatewayConfig, ConfigError>(ConfigError::MissingTlsKeyPath),
        settings.redis_url is Some && settings.database_url is Some && settings.tls_cert_path is Some
            && settings.tls_key_path is Some && port_setting(settings.public_port, "8443"@) is None
            ==> config == Err::<GatewayConfig, ConfigError>(ConfigError::InvalidPublicPort),
        settings.redis_url is Some && settings.database_url is Some && settings.tls_cert_path is Some
            && settings.tls_key_path is Some && port_setting(settings.public_port, "8443"@) is Some
            && port_setting(settings.admin_port, "9090"@) is None ==> config == Err::<GatewayConfig, ConfigError>(ConfigError::InvalidAdminPort),
        settings.redis_url is Some && settings.database_url is Some && settings.tls_cert_path is Some
            && settings.tls_key_path is Some && port_setting(settings.public_port, "8443"@) is Some
            && port_setting(settings.admin_port, "9090"@) is Some && settings.downstream_ai_urls is None
            ==> config == Err::<GatewayConfig, ConfigError>(ConfigError::MissingDownstreamUrls),
        config matches Ok(c) ==> {
            &&& settings.redis_url matches Some(v) && c.redis_url@ == v@
            &&& settings.database_url matches Some(v) && c.database_url@ == v@
            &&& settings.tls_cert_path matches Some(v) && c.tls_cert_path@ == v@
            &&& settings.tls_key_path matches Some(v) && c.tls_key_path@ == v@
            &&& port_setting(settings.public_port, "8443"@) == Some(c.public_port)
            &&& port_setting(settings.admin_port, "9090"@) == Some(c.admin_port)
            &&& settings.downstream_ai_urls matches Some(v) && c.downstream_urls.deep_view() == downstream_list(v@)
            &&& c.cluster_domain@ == match settings.cluster_domain {
                Some(d) => d@,
                None => "api.fluxgate.local"@,
            }
        },
        (settings.redis_url is Some && settings.database_url is Some && settings.tls_cert_path is Some
            && settings.tls_key_path is Some && port_setting(settings.public_port, "8443"@) is Some
            && port_setting(settings.admin_port, "9090"@) is Some && settings.downstream_ai_urls is Some) ==> config is Ok,
{
    let redis_url = match settings.redis_url {
        Some(v) => v,
        None => return Err(ConfigError::MissingRedisUrl),
    };
    let database_url = match settings.database_url {
        Some(v) => v,
        None => return Err(ConfigError::MissingDatabaseUrl),
    };
    let tls_cert_path = match settings.tls_cert_path {
        Some(v) => v,
        None => return Err(ConfigError::MissingTlsCertPath),
    };
    let tls_key_path = match settings.tls_key_path {
        Some(v) => v,
        None => return Err(ConfigError::MissingTlsKeyPath),
    };
    let public_port = match read_port(&settings.public_port, "8443") {
        Some(p) => p,
        None => return Err(ConfigError::InvalidPublicPort),
    };
    let admin_port = match read_port(&settings.admin_port, "9090") {
        Some(p) => p,
        None => return Err(ConfigError::InvalidAdminPort),
    };
    let downstream_urls = match &settings.downstream_ai_urls {
        Some(v) => split_downstream_urls(v.as_str()),
        None => return Err(ConfigError::MissingDownstreamUrls),
    };
    let cluster_domain = match settings.cluster_domain {
        Some(d) => d,
        None => "api.fluxgate.local".to_owned(),
    };
    Ok(
        GatewayConfig {
            redis_url,
            database_url,
            tls_cert_path,
            tls_key_path,
            public_port,
            admin_port,
            downstream_urls,
            cluster_domain,
        },
    )
}

} // verus!
