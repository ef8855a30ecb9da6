//! The proxy's configuration: defaults for settings a file leaves out, the
//! duration syntax of `max_key_age`, validation, and the URLs derived from
//! the configured host names.

use vstd::prelude::*;
use vstd::string::StringExecFns;
use vstd::string::StrSliceExecFns;
use crate::text::all_ascii_digits;
use crate::text::decimal_text;
use crate::text::decimal_value;
use crate::text::lemma_decimal_text_round_trip;
use crate::text::is_ascii_alphabetic;
use crate::text::is_ascii_digit;
use crate::text::is_white_space;
use crate::text::trim_end;
use crate::text::trim_start;
use crate::text::alphabetic_suffix_start;
use crate::text::contains_char;
use crate::text::has_substring;
use crate::text::parse_u64;
use crate::text::parse_u64_spec;
use crate::text::strip_alphabetic_suffix;
use crate::text::trim;
use crate::text::trim_whitespace;

verus! {

/// Seconds in the `max_key_age` used when the configuration names none.
pub const DEFAULT_MAX_KEY_AGE_SECS: u64 = 3600;

/// The settings of the proxy, with `max_key_age` counted in whole seconds.
#[derive(Debug, Clone)]
pub struct Config {
    pub bind_address: String,
    pub origin: String,
    pub kubernetes_api_endpoint: String,
    pub max_key_age_secs: u64,
    pub emit_x5c: bool,
}

/// How `max_key_age` is written in a configuration file: a number of seconds,
/// or a duration string such as `"15m"`.
#[derive(Debug)]
pub enum KeyAgeSetting {
    Seconds(u64),
    Text(String),
}

/// Why a configuration is rejected; the spec view of [`ConfigError`].
pub enum ConfigFault {
    EmptyBindAddress,
    EmptyOrigin,
    NotHostLike { name: Seq<char> },
    EmptyKubernetesApiEndpoint,
    ZeroMaxKeyAge,
    InvalidDuration { value: Seq<char> },
    UnsupportedDurationUnit { unit: Seq<char>, value: Seq<char> },
    DurationTooLarge { value: Seq<char> },
}

/// Why a configuration is rejected.
#[derive(Debug)]
pub enum ConfigError {
    EmptyBindAddress,
    EmptyOrigin,
    NotHostLike { name: String },
    EmptyKubernetesApiEndpoint,
    ZeroMaxKeyAge,
    InvalidDuration { value: String },
    UnsupportedDurationUnit { unit: String, value: String },
    DurationTooLarge { value: String },
}

impl View for ConfigError {
    type V = ConfigFault;

    open spec fn view(&self) -> ConfigFault {
        match self {
            ConfigError::EmptyBindAddress => ConfigFault::EmptyBindAddress,
            ConfigError::EmptyOrigin => ConfigFault::EmptyOrigin,
            ConfigError::NotHostLike { name } => ConfigFault::NotHostLike { name: name@ },
            ConfigError::EmptyKubernetesApiEndpoint => ConfigFault::EmptyKubernetesApiEndpoint,
            ConfigError::ZeroMaxKeyAge => ConfigFault::ZeroMaxKeyAge,
            ConfigError::InvalidDuration { value } => ConfigFault::InvalidDuration { value: value@ },
            ConfigError::UnsupportedDurationUnit { unit, value } => {
                ConfigFault::UnsupportedDurationUnit { unit: unit@, value: value@ }
            },
            ConfigError::DurationTooLarge { value } => ConfigFault::DurationTooLarge {
                value: value@,
            },
        }
    }
}

/// The text a rejection is reported with.
pub open spec fn fault_message(fault: ConfigFault) -> Seq<char> {
    match fault {
        ConfigFault::EmptyBindAddress => "bind_address must not be empty"@,
        ConfigFault::EmptyOrigin => "origin must not be empty"@,
        ConfigFault::NotHostLike { name } => name + " must be a host name, optionally with a port"@,
        ConfigFault::EmptyKubernetesApiEndpoint => "kubernetes_api_endpoint must not be empty"@,
        ConfigFault::ZeroMaxKeyAge => "max_key_age must be greater than zero"@,
        ConfigFault::InvalidDuration { value } => "invalid duration '"@ + value + "'"@,
        ConfigFault::UnsupportedDurationUnit { unit, value } => "unsupported duration unit '"@
            + unit + "' in '"@ + value + "'"@,
        ConfigFault::DurationTooLarge { value } => "duration '"@ + value + "' is too large"@,
    }
}

impl ConfigError {
    /// The text this rejection is reported with.
    pub fn message(&self) -> (m: String)
        ensures
            m@ == fault_message(self@),
    {
        match self {
            ConfigError::EmptyBindAddress => String::from_str("bind_address must not be empty"),
            ConfigError::EmptyOrigin => String::from_str("origin must not be empty"),
            ConfigError::NotHostLike { name } => {
                let mut m = String::from_str(name.as_str());
                m.append(" must be a host name, optionally with a port");
                m
            },
            ConfigError::EmptyKubernetesApiEndpoint => String::from_str(
                "kubernetes_api_endpoint must not be empty",
            ),
            ConfigError::ZeroMaxKeyAge => String::from_str("max_key_age must be greater than zero"),
            ConfigError::InvalidDuration { value } => {
                let mut m = String::from_str("invalid duration '");
                m.append(value.as_str());
                m.append("'");
                m
            },
            ConfigError::UnsupportedDurationUnit { unit, value } => {
                let mut m = String::from_str("unsupported duration unit '");
                m.append(unit.as_str());
                m.append("' in '");
                m.append(value.as_str());
                m.append("'");
                m
            },
            ConfigError::DurationTooLarge { value } => {
                let mut m = String::from_str("duration '");
                m.append(value.as_str());
                m.append("' is too large");
                m
            },
        }
    }
}

/// A host name, optionally with a port: no URL scheme, path, query or fragment.
pub open spec fn host_like(s: Seq<char>) -> bool {
    &&& !has_substring(s, "://"@)
    &&& !s.contains('/')
    &&& !s.contains('?')
    &&& !s.contains('#')
}

/// The first rule that `c` breaks, in the order the rules are checked.
pub open spec fn validation_fault(c: Config) -> Option<ConfigFault> {
    if c.bind_address@.len() == 0 {
        Some(ConfigFault::EmptyBindAddress)
    } else if c.origin@.len() == 0 {
        Some(ConfigFault::EmptyOrigin)
    } else if !host_like(c.origin@) {
        Some(ConfigFault::NotHostLike { name: "origin"@ })
    } else if c.kubernetes_api_endpoint@.len() == 0 {
        Some(ConfigFault::EmptyKubernetesApiEndpoint)
    } else if c.max_key_age_secs == 0 {
        Some(ConfigFault::ZeroMaxKeyAge)
    } else if !host_like(c.kubernetes_api_endpoint@) {
        Some(ConfigFault::NotHostLike { name: "kubernetes_api_endpoint"@ })
    } else {
        None
    }
}

pub open spec fn issuer_for(origin: Seq<char>) -> Seq<char> {
    "https://"@ + origin
}

pub open spec fn jwks_uri_for(origin: Seq<char>) -> Seq<char> {
    "https://"@ + origin + "/jwks.json"@
}

pub open spec fn openid_configuration_endpoint_for(host: Seq<char>) -> Seq<char> {
    "https://"@ + host + "/.well-known/openid-configuration"@
}

/// The seconds in one unit of a duration string, for the units it may carry.
pub open spec fn unit_seconds(unit: Seq<char>) -> Option<u64> {
    if unit.len() == 0 || unit == seq!['s'] {
        Some(1)
    } else if unit == seq!['m'] {
        Some(60)
    } else if unit == seq!['h'] {
        Some(3600)
    } else if unit == seq!['d'] {
        Some(86400)
    } else {
        None
    }
}

/// What a duration string means: surrounding whitespace is ignored, a run of
/// ASCII letters at the end is the unit, and what precedes it is the amount.
pub open spec fn duration_outcome(text: Seq<char>) -> Result<u64, ConfigFault> {
    let value = trim(text);
    let digits = strip_alphabetic_suffix(value);
    let unit = value.subrange(digits.len() as int, value.len() as int);
    match parse_u64_spec(digits) {
        None => Err(ConfigFault::InvalidDuration { value }),
        Some(amount) => match unit_seconds(unit) {
            None => Err(ConfigFault::UnsupportedDurationUnit { unit, value }),
            Some(scale) => if amount * scale <= u64::MAX {
                Ok((amount * scale) as u64)
            } else {
                Err(ConfigFault::DurationTooLarge { value })
            },
        },
    }
}

pub open spec fn key_age_outcome(setting: KeyAgeSetting) -> Result<u64, ConfigFault> {
    match setting {
        KeyAgeSetting::Seconds(secs) => Ok(secs),
        KeyAgeSetting::Text(text) => duration_outcome(text@),
    }
}

/// A `Result` taken by the view of its error.
pub open spec fn outcome_of(r: Result<u64, ConfigError>) -> Result<u64, ConfigFault> {
    match r {
        Ok(v) => Ok(v),
        Err(e) => Err(e@),
    }
}

/// The address the proxy listens on when the configuration names none.
pub fn default_bind_address() -> (address: String)
    ensures
        address@ == "0.0.0.0:8080"@,
{
    String::from_str("0.0.0.0:8080")
}

/// The public host name used when the configuration names none.
pub fn default_origin() -> (origin: String)
    ensures
        origin@ == "localhost:8080"@,
{
    String::from_str("localhost:8080")
}

/// The Kubernetes API server used when the configuration names none.
pub fn default_kubernetes_api_endpoint() -> (endpoint: String)
    ensures
        endpoint@ == "kubernetes.default.svc"@,
{
    String::from_str("kubernetes.default.svc")
}

/// The cache lifetime of the key set, in seconds, when the configuration names none.
pub fn default_max_key_age() -> (secs: u64)
    ensures
        secs == DEFAULT_MAX_KEY_AGE_SECS,
{
    DEFAULT_MAX_KEY_AGE_SECS
}

proof fn lemma_scheme_separator_has_slash(s: Seq<char>)
    requires
        has_substring(s, "://"@),
    ensures
        s.contains('/'),
{
    reveal_strlit("://");
    let i = choose|i: int|
        0 <= i && i + "://"@.len() <= s.len() && #[trigger] s.subrange(i, i + "://"@.len())
            == "://"@;
    assert(s.subrange(i, i + 3)[1] == '/');
    assert(s[i + 1] == '/');
}

/// Accepts `value` when it is a host name, optionally with a port; else
/// reports that the setting called `name` is not one.
pub fn validate_host_like(name: &str, value: &str) -> (r: Result<(), ConfigError>)
    ensures
        r is Ok <==> host_like(value@),
        r matches Err(e) ==> e@ == (ConfigFault::NotHostLike { name: name@ }),
{
    if contains_char(value, '/') || contains_char(value, '?') || contains_char(value, '#') {
        return Err(ConfigError::NotHostLike { name: String::from_str(name) });
    }
    proof {
        if has_substring(value@, "://"@) {
            lemma_scheme_separator_has_slash(value@);
        }
    }
    Ok(())
}

/// Parses a duration string: an amount in decimal, then a unit of `s`, `m`,
/// `h` or `d` (none means seconds); the result is in seconds.
pub fn parse_duration(text: &str) -> (r: Result<u64, ConfigError>)
    ensures
        outcome_of(r) == duration_outcome(text@),
{
    let value = trim_whitespace(text);
    let k = alphabetic_suffix_start(value);
    let n = value.unicode_len();
    let digits = value.substring_char(0, k);
    let unit = value.substring_char(k, n);
    assert(strip_alphabetic_suffix(value@).len() == k);
    let amount = match parse_u64(digits) {
        Some(amount) => amount,
        None => {
            return Err(ConfigError::InvalidDuration { value: String::from_str(value) });
        },
    };
    let ulen = unit.unicode_len();
    let scale: u64 = if ulen == 0 {
        1
    } else if ulen == 1 && unit.get_char(0) == 's' {
        assert(unit@ =~= seq!['s']);
        1
    } else if ulen == 1 && unit.get_char(0) == 'm' {
        assert(unit@ =~= seq!['m']);
        60
    } else if ulen == 1 && unit.get_char(0) == 'h' {
        assert(unit@ =~= seq!['h']);
        3600
    } else if ulen == 1 && unit.get_char(0) == 'd' {
        assert(unit@ =~= seq!['d']);
        86400
    } else {
        assert(unit_seconds(unit@) is None) by {
            if ulen == 1 {
                assert(unit@ != seq!['s'] && unit@ != seq!['m']);
                assert(unit@ != seq!['h'] && unit@ != seq!['d']);
            } else {
                assert(unit@.len() != seq!['s'].len());
            }
        }
        return Err(
            ConfigError::UnsupportedDurationUnit {
                unit: String::from_str(unit),
                value: String::from_str(value),
            },
        );
    };
    match amount.checked_mul(scale) {
        Some(secs) => Ok(secs),
        None => Err(ConfigError::DurationTooLarge { value: String::from_str(value) }),
    }
}

/// The number of seconds a `max_key_age` setting stands for.
pub fn duration_from_setting(setting: &KeyAgeSetting) -> (r: Result<u64, ConfigError>)
    ensures
        outcome_of(r) == key_age_outcome(*setting),
        setting matches KeyAgeSetting::Seconds(n) ==> (r matches Ok(secs) && secs == n),
{
    match setting {
        KeyAgeSetting::Seconds(secs) => Ok(*secs),
        KeyAgeSetting::Text(text) => parse_duration(text.as_str()),
    }
}

impl Config {
    /// Builds a configuration from the settings a file holds, putting the
    /// defaults in place of those it leaves out.
    pub fn from_settings(
        bind_address: Option<String>,
        origin: Option<String>,
        kubernetes_api_endpoint: Option<String>,
        max_key_age: Option<KeyAgeSetting>,
        emit_x5c: Option<bool>,
    ) -> (r: Result<Config, ConfigError>)
        ensures
            (match max_key_age {
                Some(setting) => key_age_outcome(setting) is Err ==> (r matches Err(e)
                    && Err::<u64, ConfigFault>(e@) == key_age_outcome(setting)),
                None => true,
            }),
            r matches Ok(c) ==> {
                &&& c.bind_address@ == (match bind_address {
                    Some(b) => b@,
                    None => "0.0.0.0:8080"@,
                })
                &&& c.origin@ == (match origin {
                    Some(o) => o@,
                    None => "localhost:8080"@,
                })
                &&& c.kubernetes_api_endpoint@ == (match kubernetes_api_endpoint {
                    Some(k) => k@,
                    None => "kubernetes.default.svc"@,
                })
                &&& Ok::<u64, ConfigFault>(c.max_key_age_secs) == (match max_key_age {
                    Some(setting) => key_age_outcome(setting),
                    None => Ok(DEFAULT_MAX_KEY_AGE_SECS),
                })
                &&& c.emit_x5c == (match emit_x5c {
                    Some(b) => b,
                    None => false,
                })
            },
            (match max_key_age {
                Some(setting) => key_age_outcome(setting) is Ok,
                None => true,
            }) ==> r is Ok,
            max_key_age matches Some(KeyAgeSetting::Seconds(n)) ==> (r matches Ok(c)
                && c.max_key_age_secs == n),
    {
        let max_key_age_secs = match &max_key_age {
            Some(setting) => duration_from_setting(setting)?,
            None => default_max_key_age(),
        };
        let bind_address = match bind_address {
            Some(b) => b,
            None => default_bind_address(),
        };
        let origin = match origin {
            Some(o) => o,
            None => default_origin(),
        };
        let kubernetes_api_endpoint = match kubernetes_api_endpoint {
            Some(k) => k,
            None => default_kubernetes_api_endpoint(),
        };
        let emit_x5c = match emit_x5c {
            Some(b) => b,
            None => false,
        };
        Ok(Config { bind_address, origin, kubernetes_api_endpoint, max_key_age_secs, emit_x5c })
    }

    /// Checks the rules a configuration must meet, in a fixed order, and
    /// reports the first one broken.
    pub fn validate(&self) -> (r: Result<(), ConfigError>)
        ensures
            r is Ok <==> validation_fault(*self) is None,
            r matches Err(e) ==> validation_fault(*self) == Some(e@),
            r is Ok <==> acceptable_settings(*self),
    {
        proof {
            lemma_validation_accepts_exactly_host_settings(*self);
        }
        if self.bind_address.as_str().is_empty() {
            return Err(ConfigError::EmptyBindAddress);
        }
        if self.origin.as_str().is_empty() {
            return Err(ConfigError::EmptyOrigin);
        }
        validate_host_like("origin", self.origin.as_str())?;
        if self.kubernetes_api_endpoint.as_str().is_empty() {
            return Err(ConfigError::EmptyKubernetesApiEndpoint);
        }
        if self.max_key_age_secs == 0 {
            return Err(ConfigError::ZeroMaxKeyAge);
        }
        validate_host_like("kubernetes_api_endpoint", self.kubernetes_api_endpoint.as_str())?;
        Ok(())
    }

    /// The URL of the published key set.
    pub fn jwks_uri(&self) -> (uri: String)
        ensures
            uri@ == jwks_uri_for(self.origin@),
    {
        let mut uri = String::from_str("https://");
        uri.append(self.origin.as_str());
        uri.append("/jwks.json");
        uri
    }

    /// The issuer that the discovery document announces.
    pub fn issuer(&self) -> (uri: String)
        ensures
            uri@ == issuer_for(self.origin@),
    {
        let mut uri = String::from_str("https://");
        uri.append(self.origin.as_str());
        uri
    }

    /// Where the cluster's own OpenID discovery document is fetched from.
    pub fn cluster_openid_config_endpoint(&self) -> (uri: String)
        ensures
            uri@ == openid_configuration_endpoint_for(self.kubernetes_api_endpoint@),
    {
        let mut uri = String::from_str("https://");
        uri.append(self.kubernetes_api_endpoint.as_str());
        uri.append("/.well-known/openid-configuration");
        uri
    }
}

/// The OpenID discovery document the proxy publishes: the issuer and key-set
/// URL derived from the origin, and the metadata an AWS IAM OpenID Connect
/// identity provider reads, with the values a Kubernetes API server
/// announces for its service account tokens.
#[derive(Debug)]
pub struct OpenIdConfiguration {
    pub issuer: String,
    pub jwks_uri: String,
    pub response_types_supported: Vec<String>,
    pub subject_types_supported: Vec<String>,
    pub id_token_signing_alg_values_supported: Vec<String>,
}

pub open spec fn texts_of(v: Vec<String>) -> Seq<Seq<char>> {
    v@.map_values(|s: String| s@)
}

fn single_text(text: &str) -> (v: Vec<String>)
    ensures
        texts_of(v) == seq![text@],
{
    let mut v: Vec<String> = Vec::new();
    v.push(String::from_str(text));
    assert(texts_of(v) =~= seq![text@]);
    v
}

impl Config {
    /// The discovery document published at `/.well-known/openid-configuration`.
    pub fn openid_configuration(&self) -> (doc: OpenIdConfiguration)
        ensures
            doc.issuer@ == issuer_for(self.origin@),
            doc.jwks_uri@ == jwks_uri_for(self.origin@),
            texts_of(doc.response_types_supported) == seq!["id_token"@],
            texts_of(doc.subject_types_supported) == seq!["public"@],
            texts_of(doc.id_token_signing_alg_values_supported) == seq!["RS256"@],
    {
        OpenIdConfiguration {
            issuer: self.issuer(),
            jwks_uri: self.jwks_uri(),
            response_types_supported: single_text("id_token"),
            subject_types_supported: single_text("public"),
            id_token_signing_alg_values_supported: single_text("RS256"),
        }
    }
}

/// `s` holds none of the characters that end a host name in a URL: `/`,
/// `?` and `#`.
pub open spec fn free_of_url_delimiters(s: Seq<char>) -> bool {
    forall|i: int| 0 <= i < s.len() ==> #[trigger] s[i] != '/' && s[i] != '?' && s[i] != '#'
}

/// The settings validation lets through: non-empty settings, a nonzero key
/// age, and an origin and API endpoint free of `/`, `?` and `#`.
pub open spec fn acceptable_settings(c: Config) -> bool {
    &&& c.bind_address@.len() > 0
    &&& c.origin@.len() > 0
    &&& c.kubernetes_api_endpoint@.len() > 0
    &&& c.max_key_age_secs > 0
    &&& free_of_url_delimiters(c.origin@)
    &&& free_of_url_delimiters(c.kubernetes_api_endpoint@)
}

proof fn lemma_host_like_is_delimiter_free(s: Seq<char>)
    ensures
        host_like(s) <==> free_of_url_delimiters(s),
{
    if free_of_url_delimiters(s) {
        if has_substring(s, "://"@) {
            lemma_scheme_separator_has_slash(s);
        }
    }
    if host_like(s) {
        assert forall|i: int| 0 <= i < s.len() implies #[trigger] s[i] != '/' && s[i] != '?'
            && s[i] != '#' by {
            if s[i] == '/' {
                assert(s.contains('/'));
            }
            if s[i] == '?' {
                assert(s.contains('?'));
            }
            if s[i] == '#' {
                assert(s.contains('#'));
            }
        }
    }
}

/// Validation accepts a configuration exactly when its settings are
/// non-empty, its key age is nonzero, and its origin and API endpoint hold
/// no `/`, `?` or `#`: any other character, such as `-`, `.` or `:`, is
/// allowed in a host.
pub proof fn lemma_validation_accepts_exactly_host_settings(c: Config)
    ensures
        validation_fault(c) is None <==> acceptable_settings(c),
{
    lemma_host_like_is_delimiter_free(c.origin@);
    lemma_host_like_is_delimiter_free(c.kubernetes_api_endpoint@);
}

/// An integer `max_key_age` is that many seconds, the same as the duration
/// string of its decimal digits, with the unit `s` or none.
pub proof fn lemma_integer_key_age_is_seconds(n: u64)
    ensures
        key_age_outcome(KeyAgeSetting::Seconds(n)) == Ok::<u64, ConfigFault>(n),
        duration_outcome(decimal_text(n as nat)) == Ok::<u64, ConfigFault>(n),
        duration_outcome(decimal_text(n as nat) + seq!['s']) == Ok::<u64, ConfigFault>(n),
{
    lemma_decimal_text_round_trip(n as nat);
    assert(decimal_text(n as nat) + Seq::<char>::empty() =~= decimal_text(n as nat));
    lemma_duration_scales_amount(decimal_text(n as nat), Seq::<char>::empty());
    lemma_duration_scales_amount(decimal_text(n as nat), seq!['s']);
}

/// A duration string of decimal digits followed by `m`, `h` or `d` is that
/// many minutes, hours or days in seconds, when that fits in 64 bits.
pub proof fn lemma_duration_units(n: u64)
    ensures
        n * 60 <= u64::MAX ==> duration_outcome(decimal_text(n as nat) + seq!['m'])
            == Ok::<u64, ConfigFault>((n * 60) as u64),
        n * 3600 <= u64::MAX ==> duration_outcome(decimal_text(n as nat) + seq!['h'])
            == Ok::<u64, ConfigFault>((n * 3600) as u64),
        n * 86400 <= u64::MAX ==> duration_outcome(decimal_text(n as nat) + seq!['d'])
            == Ok::<u64, ConfigFault>((n * 86400) as u64),
{
    lemma_decimal_text_round_trip(n as nat);
    assert(seq!['h'][0] != seq!['s'][0] && seq!['h'][0] != seq!['m'][0]);
    assert(seq!['d'][0] != seq!['s'][0] && seq!['d'][0] != seq!['m'][0] && seq!['d'][0]
        != seq!['h'][0]);
    assert(unit_seconds(seq!['h']) == Some(3600u64));
    assert(unit_seconds(seq!['d']) == Some(86400u64));
    if n * 60 <= u64::MAX {
        lemma_duration_scales_amount(decimal_text(n as nat), seq!['m']);
    }
    if n * 3600 <= u64::MAX {
        lemma_duration_scales_amount(decimal_text(n as nat), seq!['h']);
    }
    if n * 86400 <= u64::MAX {
        lemma_duration_scales_amount(decimal_text(n as nat), seq!['d']);
    }
}

/// The key-set URL is the issuer URL followed by `/jwks.json`.
pub proof fn lemma_jwks_uri_extends_issuer(origin: Seq<char>)
    ensures
        jwks_uri_for(origin) == issuer_for(origin) + "/jwks.json"@,
{
    assert(jwks_uri_for(origin) =~= issuer_for(origin) + "/jwks.json"@);
}

/// A configuration that holds only the defaults passes validation.
pub proof fn lemma_default_settings_validate(c: Config)
    requires
        c.bind_address@ == "0.0.0.0:8080"@,
        c.origin@ == "localhost:8080"@,
        c.kubernetes_api_endpoint@ == "kubernetes.default.svc"@,
        c.max_key_age_secs == DEFAULT_MAX_KEY_AGE_SECS,
    ensures
        validation_fault(c) is None,
{
    reveal_strlit("0.0.0.0:8080");
    reveal_strlit("localhost:8080");
    reveal_strlit("kubernetes.default.svc");
    let o = c.origin@;
    let k = c.kubernetes_api_endpoint@;
    assert(o.len() == 14);
    assert(k.len() == 22);
    assert(!o.contains('/') && !o.contains('?') && !o.contains('#'));
    assert(!k.contains('/') && !k.contains('?') && !k.contains('#'));
    if has_substring(o, "://"@) {
        lemma_scheme_separator_has_slash(o);
    }
    if has_substring(k, "://"@) {
        lemma_scheme_separator_has_slash(k);
    }
}

proof fn lemma_trim_start_drops_whitespace_prefix(w: Seq<char>, x: Seq<char>)
    requires
        forall|i: int| 0 <= i < w.len() ==> #[trigger] is_white_space(w[i]),
    ensures
        trim_start(w + x) == trim_start(x),
    decreases w.len(),
{
    if w.len() == 0 {
        assert(w + x =~= x);
    } else {
        assert((w + x)[0] == w[0]);
        assert((w + x).drop_first() =~= w.drop_first() + x);
        lemma_trim_start_drops_whitespace_prefix(w.drop_first(), x);
    }
}

proof fn lemma_trim_end_drops_whitespace_suffix(x: Seq<char>, w: Seq<char>)
    requires
        forall|i: int| 0 <= i < w.len() ==> #[trigger] is_white_space(w[i]),
    ensures
        trim_end(x + w) == trim_end(x),
    decreases w.len(),
{
    if w.len() == 0 {
        assert(x + w =~= x);
    } else {
        assert((x + w).last() == w.last());
        assert((x + w).drop_last() =~= x + w.drop_last());
        lemma_trim_end_drops_whitespace_suffix(x, w.drop_last());
    }
}

proof fn lemma_trim_ignores_whitespace_suffix(x: Seq<char>, w: Seq<char>)
    requires
        forall|i: int| 0 <= i < w.len() ==> #[trigger] is_white_space(w[i]),
    ensures
        trim(x + w) == trim(x),
    decreases x.len(),
{
    if x.len() == 0 {
        assert(x + w =~= w);
        lemma_trim_start_drops_whitespace_prefix(w, Seq::<char>::empty());
        assert(w + Seq::<char>::empty() =~= w);
    } else if is_white_space(x[0]) {
        assert((x + w)[0] == x[0]);
        assert((x + w).drop_first() =~= x.drop_first() + w);
        lemma_trim_ignores_whitespace_suffix(x.drop_first(), w);
    } else {
        assert((x + w)[0] == x[0]);
        lemma_trim_end_drops_whitespace_suffix(x, w);
    }
}

/// Whitespace around a duration string does not change what it means, nor
/// the error it is rejected with.
pub proof fn lemma_duration_ignores_surrounding_whitespace(
    lead: Seq<char>,
    text: Seq<char>,
    trail: Seq<char>,
)
    requires
        forall|i: int| 0 <= i < lead.len() ==> #[trigger] is_white_space(lead[i]),
        forall|i: int| 0 <= i < trail.len() ==> #[trigger] is_white_space(trail[i]),
    ensures
        duration_outcome(lead + text + trail) == duration_outcome(text),
{
    assert(lead + text + trail =~= lead + (text + trail));
    lemma_trim_start_drops_whitespace_prefix(lead, text + trail);
    lemma_trim_ignores_whitespace_suffix(text, trail);
    assert(trim(lead + text + trail) == trim(text));
}

proof fn lemma_strip_alphabetic_unit(amount: Seq<char>, unit: Seq<char>)
    requires
        amount.len() > 0,
        !is_ascii_alphabetic(amount.last()),
        forall|i: int| 0 <= i < unit.len() ==> #[trigger] is_ascii_alphabetic(unit[i]),
    ensures
        strip_alphabetic_suffix(amount + unit) == amount,
    decreases unit.len(),
{
    if unit.len() == 0 {
        assert(amount + unit =~= amount);
    } else {
        assert((amount + unit).last() == unit.last());
        assert((amount + unit).drop_last() =~= amount + unit.drop_last());
        lemma_strip_alphabetic_unit(amount, unit.drop_last());
    }
}

/// A duration string made of a decimal amount and one of the units stands
/// for the amount times the seconds in that unit.
pub proof fn lemma_duration_scales_amount(amount: Seq<char>, unit: Seq<char>)
    requires
        amount.len() > 0,
        all_ascii_digits(amount),
        unit_seconds(unit) matches Some(scale) && decimal_value(amount) * scale <= u64::MAX,
    ensures
        duration_outcome(amount + unit) == Ok::<u64, ConfigFault>(
            (decimal_value(amount) * unit_seconds(unit).unwrap()) as u64,
        ),
{
    let text = amount + unit;
    let scale = unit_seconds(unit).unwrap();
    assert(is_ascii_digit(amount[0]));
    assert(is_ascii_digit(amount.last()));
    assert(unit.len() <= 1);
    assert forall|i: int| 0 <= i < unit.len() implies #[trigger] is_ascii_alphabetic(unit[i]) by {
        assert(unit[i] == 's' || unit[i] == 'm' || unit[i] == 'h' || unit[i] == 'd');
    }
    assert(text[0] == amount[0]);
    assert(!is_white_space(text[0]));
    assert(trim_start(text) == text);
    assert(text.last() == (if unit.len() == 0 { amount.last() } else { unit.last() }));
    assert(!is_white_space(text.last()));
    assert(trim(text) == text);
    lemma_strip_alphabetic_unit(amount, unit);
    assert(text.subrange(amount.len() as int, text.len() as int) =~= unit);
    assert(amount[0] != '+');
    assert(decimal_value(amount) <= u64::MAX) by (nonlinear_arith)
        requires
            decimal_value(amount) * scale <= u64::MAX,
            scale >= 1,
    ;
}

} // verus!
