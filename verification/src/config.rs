//! Cluster configuration: schema, defaults, validation and precedence.

use vstd::prelude::*;
use crate::model_mode::ModelMode;
use vstd::string::StrSliceExecFns;
use crate::text::{blank, is_blank, str_eq, push_decimal_text, decimal_text};

verus! {

/// HTTP listener configuration.
#[derive(Debug)]
pub struct ListenerConfig {
    pub listen: String,
}

/// SQLite database path configuration.
#[derive(Debug)]
pub struct DatabaseConfig {
    pub path: String,
}

/// Routing configuration section.
#[derive(Debug)]
pub struct RoutingSection {
    pub policy: String,
    pub loaded_model_preference: bool,
    pub max_retries: u32,
    pub no_node_behaviour: String,
    pub queue_depth: u32,
    pub queue_timeout_ms: u64,
}

/// Health monitoring configuration.
#[derive(Debug, Clone, Copy, PartialEq, Eq, Structural)]
pub struct HealthSection {
    pub failure_threshold: u32,
    pub recovery_backoff_ms: u64,
    pub recovery_max_backoff_ms: u64,
    pub recovery_success_threshold: u32,
    pub idle_check_interval_ms: u64,
}

/// Proxy configuration.
#[derive(Debug, Clone, Copy, PartialEq, Eq, Structural)]
pub struct ProxySection {
    pub request_body_buffer_bytes: usize,
    pub upstream_timeout_ms: u64,
    pub max_idle_connections: u32,
}

/// Model discovery configuration.
#[derive(Debug, Clone, Copy, PartialEq, Eq, Structural)]
pub struct DiscoverySection {
    pub interval_ms: u64,
    pub timeout_ms: u64,
}

/// Logging configuration.
#[derive(Debug)]
pub struct LoggingSection {
    pub level: String,
    pub format: String,
}

/// Registered Ollama node configuration; labels are `(key, value)` pairs with
/// distinct keys.
#[derive(Debug)]
pub struct NodeConfig {
    pub name: String,
    pub url: String,
    pub model_mode: ModelMode,
    pub configured_models: Vec<String>,
    pub max_concurrent: u32,
    pub priority: i32,
    pub labels: Vec<(String, String)>,
}

/// Root cluster configuration (schema version 1). Model aliases are
/// `(alias, canonical)` pairs with distinct aliases.
#[derive(Debug)]
pub struct ClusterConfig {
    pub version: u32,
    pub inference: ListenerConfig,
    pub management: ListenerConfig,
    pub metrics: ListenerConfig,
    pub database: DatabaseConfig,
    pub routing: RoutingSection,
    pub health: HealthSection,
    pub proxy: ProxySection,
    pub discovery: DiscoverySection,
    pub logging: LoggingSection,
    pub nodes: Vec<NodeConfig>,
    pub model_aliases: Vec<(String, String)>,
    pub denied_models: Vec<String>,
}

/// The node concurrency limit used when a node does not set one.
pub fn default_max_concurrent() -> (r: u32)
    ensures
        r == 8,
{
    8
}

/// The schema version this build reads.
pub const SUPPORTED_VERSION: u32 = 1;

/// Whether a configuration holds the built-in defaults.
pub open spec fn is_default_config(c: ClusterConfig) -> bool {
    &&& c.version == 1
    &&& c.inference.listen@ == "127.0.0.1:11434"@
    &&& c.management.listen@ == "127.0.0.1:11600"@
    &&& c.metrics.listen@ == "127.0.0.1:11601"@
    &&& c.database.path@ == "~/.local/share/ocluster/ocluster.db"@
    &&& c.routing.policy@ == "least_active_requests"@
    &&& c.routing.loaded_model_preference
    &&& c.routing.max_retries == 2
    &&& c.routing.no_node_behaviour@ == "reject"@
    &&& c.routing.queue_depth == 32
    &&& c.routing.queue_timeout_ms == 60_000
    &&& c.health == HealthSection {
        failure_threshold: 3,
        recovery_backoff_ms: 1_000,
        recovery_max_backoff_ms: 60_000,
        recovery_success_threshold: 2,
        idle_check_interval_ms: 60_000,
    }
    &&& c.proxy == ProxySection {
        request_body_buffer_bytes: 1_048_576,
        upstream_timeout_ms: 300_000,
        max_idle_connections: 32,
    }
    &&& c.discovery == DiscoverySection { interval_ms: 300_000, timeout_ms: 10_000 }
    &&& c.logging.level@ == "info"@
    &&& c.logging.format@ == "text"@
    &&& c.nodes@.len() == 0
    &&& c.model_aliases@.len() == 0
    &&& c.denied_models@.len() == 0
}

/// Built-in default configuration for user-mode installs.
pub fn default_config() -> (r: ClusterConfig)
    ensures
        is_default_config(r),
{
    ClusterConfig {
        version: 1,
        inference: ListenerConfig { listen: "127.0.0.1:11434".to_owned() },
        management: ListenerConfig { listen: "127.0.0.1:11600".to_owned() },
        metrics: ListenerConfig { listen: "127.0.0.1:11601".to_owned() },
        database: DatabaseConfig { path: "~/.local/share/ocluster/ocluster.db".to_owned() },
        routing: RoutingSection {
            policy: "least_active_requests".to_owned(),
            loaded_model_preference: true,
            max_retries: 2,
            no_node_behaviour: "reject".to_owned(),
            queue_depth: 32,
            queue_timeout_ms: 60_000,
        },
        health: HealthSection {
            failure_threshold: 3,
            recovery_backoff_ms: 1_000,
            recovery_max_backoff_ms: 60_000,
            recovery_success_threshold: 2,
            idle_check_interval_ms: 60_000,
        },
        proxy: ProxySection {
            request_body_buffer_bytes: 1_048_576,
            upstream_timeout_ms: 300_000,
            max_idle_connections: 32,
        },
        discovery: DiscoverySection { interval_ms: 300_000, timeout_ms: 10_000 },
        logging: LoggingSection { level: "info".to_owned(), format: "text".to_owned() },
        nodes: Vec::new(),
        model_aliases: Vec::new(),
        denied_models: Vec::new(),
    }
}

} // verus!

verus! {

/// Configuration validation and loading errors.
#[derive(Debug, Clone, PartialEq, Eq)]
pub enum ConfigError {
    Parse { path: String, reason: String },
    Validation { path: String, field: String, reason: String },
    UnsupportedVersion { version: u32 },
    Io(String),
}

/// The text content of a configuration error.
pub enum ConfigErrorView {
    Parse { path: Seq<char>, reason: Seq<char> },
    Validation { path: Seq<char>, field: Seq<char>, reason: Seq<char> },
    UnsupportedVersion { version: u32 },
    Io(Seq<char>),
}

impl View for ConfigError {
    type V = ConfigErrorView;

    open spec fn view(&self) -> ConfigErrorView {
        match self {
            ConfigError::Parse { path, reason } => ConfigErrorView::Parse {
                path: path@,
                reason: reason@,
            },
            ConfigError::Validation { path, field, reason } => ConfigErrorView::Validation {
                path: path@,
                field: field@,
                reason: reason@,
            },
            ConfigError::UnsupportedVersion { version } => ConfigErrorView::UnsupportedVersion {
                version: *version,
            },
            ConfigError::Io(m) => ConfigErrorView::Io(m@),
        }
    }
}

/// The message text of a configuration error.
pub open spec fn config_error_message(e: ConfigErrorView) -> Seq<char> {
    match e {
        ConfigErrorView::Parse { path, reason } => "parse error at "@ + path + ": "@ + reason,
        ConfigErrorView::Validation { path, field, reason } => "validation error at "@ + path + "."@
            + field + ": "@ + reason,
        ConfigErrorView::UnsupportedVersion { version } => "unsupported schema version "@
            + decimal_text(version as nat),
        ConfigErrorView::Io(m) => "io error: "@ + m,
    }
}

impl ConfigError {
    /// The error's message text.
    pub fn message(&self) -> (r: String)
        ensures
            r@ == config_error_message(self@),
    {
        match self {
            ConfigError::Parse { path, reason } => {
                let mut s = "parse error at ".to_owned();
                s.append(path.as_str());
                s.append(": ");
                s.append(reason.as_str());
                s
            },
            ConfigError::Validation { path, field, reason } => {
                let mut s = "validation error at ".to_owned();
                s.append(path.as_str());
                s.append(".");
                s.append(field.as_str());
                s.append(": ");
                s.append(reason.as_str());
                s
            },
            ConfigError::UnsupportedVersion { version } => {
                let mut s = "unsupported schema version ".to_owned();
                push_decimal_text(&mut s, *version as u64);
                s
            },
            ConfigError::Io(m) => {
                let mut s = "io error: ".to_owned();
                s.append(m.as_str());
                s
            },
        }
    }
}

/// A validation error against the configuration file.
pub open spec fn validation_error(field: Seq<char>, reason: Seq<char>) -> ConfigErrorView {
    ConfigErrorView::Validation { path: "ocluster.toml"@, field, reason }
}

/// Build a validation error against the configuration file.
fn validation(field: String, reason: &str) -> (r: ConfigError)
    ensures
        r@ == validation_error(field@, reason@),
{
    ConfigError::Validation { path: "ocluster.toml".to_owned(), field, reason: reason.to_owned() }
}

/// What `url::Url::parse` makes of a text: the URL's scheme and host, or the
/// parse error's message.
pub uninterp spec fn parsed_url(raw: Seq<char>) -> Result<(Seq<char>, Option<Seq<char>>), Seq<char>>;

/// The view of a parsed URL's parts.
pub open spec fn url_parts_view(r: Result<(String, Option<String>), String>) -> Result<
    (Seq<char>, Option<Seq<char>>),
    Seq<char>,
> {
    match r {
        Ok((scheme, host)) => Ok(
            (
                scheme@,
                match host {
                    Some(h) => Some(h@),
                    None => None,
                },
            ),
        ),
        Err(e) => Err(e@),
    }
}

/// Parse a URL with `url::Url::parse`, keeping its scheme and host text, or
/// the error's message.
#[verifier::external_body]
fn parse_url(raw: &str) -> (r: Result<(String, Option<String>), String>)
    ensures
        url_parts_view(r) == parsed_url(raw@),
{
    match url::Url::parse(raw) {
        Ok(u) => Ok((u.scheme().to_string(), u.host_str().map(|h| h.to_string()))),
        Err(e) => Err(e.to_string()),
    }
}

/// Why a node URL is not acceptable, if it is not.
pub open spec fn url_problem(raw: Seq<char>) -> Option<ConfigErrorView> {
    match parsed_url(raw) {
        Err(reason) => Some(validation_error("nodes.url"@, reason)),
        Ok((scheme, _)) => if scheme != "http"@ && scheme != "https"@ {
            Some(validation_error("nodes.url"@, "must use http or https scheme"@))
        } else {
            None
        },
    }
}

/// The first problem among the nodes from index `i` on: a name already used
/// by an earlier node, or an unacceptable URL.
pub open spec fn nodes_problem(nodes: Seq<NodeConfig>, i: int) -> Option<ConfigErrorView>
    decreases nodes.len() - i,
{
    if i < 0 || i >= nodes.len() {
        None
    } else if exists|j: int| 0 <= j < i && #[trigger] nodes[j].name@ == nodes[i].name@ {
        Some(validation_error("nodes."@ + nodes[i].name@, "duplicate node name"@))
    } else {
        match url_problem(nodes[i].url@) {
            Some(e) => Some(e),
            None => nodes_problem(nodes, i + 1),
        }
    }
}

/// The first problem of a configuration, in the order the checks run:
/// schema version, listener addresses, health and proxy limits, nodes.
pub open spec fn config_problem(c: ClusterConfig) -> Option<ConfigErrorView> {
    if c.version != 1 {
        Some(ConfigErrorView::UnsupportedVersion { version: c.version })
    } else if is_blank(c.inference.listen@) {
        Some(validation_error("inference.listen"@, "must not be empty"@))
    } else if is_blank(c.management.listen@) {
        Some(validation_error("management.listen"@, "must not be empty"@))
    } else if is_blank(c.metrics.listen@) {
        Some(validation_error("metrics.listen"@, "must not be empty"@))
    } else if c.health.failure_threshold == 0 {
        Some(validation_error("health.failure_threshold"@, "must be greater than 0"@))
    } else if c.proxy.request_body_buffer_bytes == 0 {
        Some(validation_error("proxy.request_body_buffer_bytes"@, "must be greater than 0"@))
    } else {
        nodes_problem(c.nodes@, 0)
    }
}

/// The view of a validation outcome: `None` when it passed.
pub open spec fn outcome_view(r: Result<(), ConfigError>) -> Option<ConfigErrorView> {
    match r {
        Ok(()) => None,
        Err(e) => Some(e@),
    }
}

/// Check that a listener address is not blank.
fn validate_listen(field: &str, listen: &str) -> (r: Result<(), ConfigError>)
    ensures
        outcome_view(r) == (if is_blank(listen@) {
            Some(validation_error(field@ + ".listen"@, "must not be empty"@))
        } else {
            None
        }),
{
    if blank(listen) {
        let mut f = field.to_owned();
        f.append(".listen");
        return Err(validation(f, "must not be empty"));
    }
    Ok(())
}

/// Check a node URL: it must parse and use http or https.
fn validate_node_url(raw: &str) -> (r: Result<(), ConfigError>)
    ensures
        outcome_view(r) == url_problem(raw@),
{
    match parse_url(raw) {
        Err(reason) => Err(validation("nodes.url".to_owned(), reason.as_str())),
        Ok((scheme, _)) => {
            if !str_eq(scheme.as_str(), "http") && !str_eq(scheme.as_str(), "https") {
                return Err(validation("nodes.url".to_owned(), "must use http or https scheme"));
            }
            Ok(())
        },
    }
}

/// Validate a cluster configuration; the first failing check is reported.
pub fn validate_config(config: &ClusterConfig) -> (r: Result<(), ConfigError>)
    ensures
        outcome_view(r) == config_problem(*config),
{
    if config.version != SUPPORTED_VERSION {
        return Err(ConfigError::UnsupportedVersion { version: config.version });
    }
    proof {
        reveal_strlit("inference");
        reveal_strlit("management");
        reveal_strlit("metrics");
        reveal_strlit(".listen");
        reveal_strlit("inference.listen");
        reveal_strlit("management.listen");
        reveal_strlit("metrics.listen");
        assert("inference"@ + ".listen"@ =~= "inference.listen"@);
        assert("management"@ + ".listen"@ =~= "management.listen"@);
        assert("metrics"@ + ".listen"@ =~= "metrics.listen"@);
    }
    validate_listen("inference", config.inference.listen.as_str())?;
    validate_listen("management", config.management.listen.as_str())?;
    validate_listen("metrics", config.metrics.listen.as_str())?;
    if config.health.failure_threshold == 0 {
        return Err(validation("health.failure_threshold".to_owned(), "must be greater than 0"));
    }
    if config.proxy.request_body_buffer_bytes == 0 {
        return Err(
            validation("proxy.request_body_buffer_bytes".to_owned(), "must be greater than 0"),
        );
    }
    let nodes = &config.nodes;
    let mut i: usize = 0;
    while i < nodes.len()
        invariant
            0 <= i <= nodes@.len(),
            nodes == &config.nodes,
            config_problem(*config) == nodes_problem(nodes@, i as int),
        decreases nodes@.len() - i,
    {
        let name = nodes[i].name.as_str();
        let mut j: usize = 0;
        while j < i
            invariant
                0 <= j <= i < nodes@.len(),
                name@ == nodes@[i as int].name@,
                nodes == &config.nodes,
                config_problem(*config) == nodes_problem(nodes@, i as int),
                forall|k: int| 0 <= k < j ==> #[trigger] nodes@[k].name@ != name@,
            decreases i - j,
        {
            if str_eq(nodes[j].name.as_str(), name) {
                assert(nodes@[j as int].name@ == nodes@[i as int].name@);
                let mut f = "nodes.".to_owned();
                f.append(name);
                return Err(validation(f, "duplicate node name"));
            }
            j = j + 1;
        }
        validate_node_url(nodes[i].url.as_str())?;
        i = i + 1;
    }
    Ok(())
}

/// Why a URL is refused as a node address, if it is: it must parse, and
/// when `block_private` is set its host must not be a loopback or metadata
/// address (`localhost`, `127.0.0.1`, the IPv6 loopback, which `url` writes
/// as `[::1]`, or `169.254.169.254`).
pub open spec fn url_refusal(raw: Seq<char>, block_private: bool) -> Option<ConfigErrorView> {
    match parsed_url(raw) {
        Err(reason) => Some(validation_error("nodes.url"@, reason)),
        Ok((_, host)) => if block_private && (host matches Some(h) && (h == "localhost"@ || h
            == "127.0.0.1"@ || h == "::1"@ || h == "[::1]"@ || h == "169.254.169.254"@)) {
            Some(validation_error("nodes.url"@, "blocked loopback or metadata address"@))
        } else {
            None
        },
    }
}

/// Check whether a node URL is allowed (SSRF protection).
pub fn is_url_allowed(raw: &str, block_private: bool) -> (r: Result<(), ConfigError>)
    ensures
        outcome_view(r) == url_refusal(raw@, block_private),
{
    match parse_url(raw) {
        Err(reason) => Err(validation("nodes.url".to_owned(), reason.as_str())),
        Ok((_, host)) => {
            if block_private {
                if let Some(h) = host {
                    let hs = h.as_str();
                    if str_eq(hs, "localhost") || str_eq(hs, "127.0.0.1") || str_eq(hs, "::1") || str_eq(hs, "[::1]")
                        || str_eq(hs, "169.254.169.254") {
                        return Err(
                            validation(
                                "nodes.url".to_owned(),
                                "blocked loopback or metadata address",
                            ),
                        );
                    }
                }
            }
            Ok(())
        },
    }
}

} // verus!

verus! {

/// Optional overrides from CLI and environment.
#[derive(Debug)]
pub struct ConfigOverrides {
    pub inference_listen: Option<String>,
    pub management_listen: Option<String>,
    pub database_path: Option<String>,
    pub log_level: Option<String>,
}

impl Default for ConfigOverrides {
    fn default() -> (r: Self)
        ensures
            r.inference_listen is None,
            r.management_listen is None,
            r.database_path is None,
            r.log_level is None,
    {
        ConfigOverrides {
            inference_listen: None,
            management_listen: None,
            database_path: None,
            log_level: None,
        }
    }
}

/// An optional override applied to a current value.
pub open spec fn overridden(current: String, o: Option<String>) -> String {
    match o {
        Some(v) => v,
        None => current,
    }
}

/// A configuration with the given overrides applied; nothing else changes.
pub open spec fn with_overrides(c: ClusterConfig, o: ConfigOverrides) -> ClusterConfig {
    ClusterConfig {
        inference: ListenerConfig { listen: overridden(c.inference.listen, o.inference_listen) },
        management: ListenerConfig { listen: overridden(c.management.listen, o.management_listen) },
        database: DatabaseConfig { path: overridden(c.database.path, o.database_path) },
        logging: LoggingSection {
            level: overridden(c.logging.level, o.log_level),
            format: c.logging.format,
        },
        ..c
    }
}

/// Apply overrides (the highest-precedence layer) to a configuration.
pub fn apply_overrides(config: &mut ClusterConfig, overrides: &ConfigOverrides)
    ensures
        *final(config) == with_overrides(*old(config), *overrides),
{
    if let Some(v) = &overrides.inference_listen {
        config.inference.listen = v.clone();
    }
    if let Some(v) = &overrides.management_listen {
        config.management.listen = v.clone();
    }
    if let Some(v) = &overrides.database_path {
        config.database.path = v.clone();
    }
    if let Some(v) = &overrides.log_level {
        config.logging.level = v.clone();
    }
}

/// The canonical name an alias table gives a model, searching from index `i`.
pub open spec fn alias_target(aliases: Seq<(String, String)>, model: Seq<char>, i: int) -> Option<
    Seq<char>,
>
    decreases aliases.len() - i,
{
    if i < 0 || i >= aliases.len() {
        None
    } else if aliases[i].0@ == model {
        Some(aliases[i].1@)
    } else {
        alias_target(aliases, model, i + 1)
    }
}

/// The canonical name of a model: its alias target, or the name itself.
pub open spec fn resolved_model(c: ClusterConfig, model: Seq<char>) -> Seq<char> {
    match alias_target(c.model_aliases@, model, 0) {
        Some(t) => t,
        None => model,
    }
}

impl ClusterConfig {
    /// Resolve a model alias to its canonical name.
    pub fn resolve_model<'a>(&'a self, model: &'a str) -> (r: &'a str)
        ensures
            r@ == resolved_model(*self, model@),
    {
        let aliases = &self.model_aliases;
        let mut i: usize = 0;
        while i < aliases.len()
            invariant
                0 <= i <= aliases@.len(),
                aliases == &self.model_aliases,
                alias_target(aliases@, model@, 0) == alias_target(aliases@, model@, i as int),
            decreases aliases@.len() - i,
        {
            if str_eq(aliases[i].0.as_str(), model) {
                return aliases[i].1.as_str();
            }
            i = i + 1;
        }
        model
    }

    /// The database path with a leading `~/` expanded against `home`.
    pub fn database_path(&self, home: Option<&str>) -> (r: String)
        ensures
            r@ == tilde_expanded(self.database.path@, opt_str_view(home)),
    {
        expand_tilde(self.database.path.as_str(), home)
    }
}

/// The view of an optional string slice.
pub open spec fn opt_str_view(o: Option<&str>) -> Option<Seq<char>> {
    match o {
        Some(s) => Some(s@),
        None => None,
    }
}

/// Joining a relative or absolute path onto a base path (Unix rules): an
/// absolute path replaces the base; otherwise a separator is added unless the
/// base is empty or already ends with one.
pub open spec fn path_join(base: Seq<char>, rest: Seq<char>) -> Seq<char> {
    if rest.len() > 0 && rest[0] == '/' {
        rest
    } else if base.len() == 0 || base.last() == '/' {
        base + rest
    } else {
        base + seq!['/'] + rest
    }
}

/// A path with a leading `~/` replaced by the home directory, when one is
/// known.
pub open spec fn tilde_expanded(path: Seq<char>, home: Option<Seq<char>>) -> Seq<char> {
    if path.len() >= 2 && path[0] == '~' && path[1] == '/' && home is Some {
        path_join(home->0, path.subrange(2, path.len() as int))
    } else {
        path
    }
}

/// Expand leading `~` to the given home directory.
pub fn expand_tilde(path: &str, home: Option<&str>) -> (r: String)
    ensures
        r@ == tilde_expanded(path@, opt_str_view(home)),
{
    let n = path.unicode_len();
    if n >= 2 && path.get_char(0) == '~' && path.get_char(1) == '/' {
        if let Some(h) = home {
            let rest = path.substring_char(2, n);
            let rn = rest.unicode_len();
            if rn > 0 && rest.get_char(0) == '/' {
                return rest.to_owned();
            }
            let hn = h.unicode_len();
            let mut out = h.to_owned();
            if hn > 0 && h.get_char(hn - 1) != '/' {
                proof {
                    reveal_strlit("/");
                }
                out.append("/");
            }
            out.append(rest);
            return out;
        }
    }
    path.to_owned()
}

} // verus!

verus! {

/// Finish loading a configuration read from defaults or a file: settings
/// from the environment apply first, explicit overrides last, and the result
/// must validate.
pub fn settle_config(config: ClusterConfig, env: &ConfigOverrides, overrides: &ConfigOverrides) -> (r:
    Result<ClusterConfig, ConfigError>)
    ensures
        outcome_view(
            match r {
                Ok(_) => Ok(()),
                Err(e) => Err(e),
            },
        ) == config_problem(with_overrides(with_overrides(config, *env), *overrides)),
        r matches Ok(c) ==> c == with_overrides(with_overrides(config, *env), *overrides),
{
    let mut config = config;
    apply_overrides(&mut config, env);
    apply_overrides(&mut config, overrides);
    match validate_config(&config) {
        Ok(()) => Ok(config),
        Err(e) => Err(e),
    }
}

} // verus!
