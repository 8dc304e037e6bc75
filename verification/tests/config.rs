use ocluster::config::{
    apply_overrides, default_config, expand_tilde, is_url_allowed, validate_config, ConfigError,
    ConfigOverrides, NodeConfig,
};
use ocluster::model_mode::ModelMode;

fn node(name: &str, url: &str) -> NodeConfig {
    NodeConfig {
        name: name.into(),
        url: url.into(),
        model_mode: ModelMode::Discover,
        configured_models: vec![],
        max_concurrent: 8,
        priority: 0,
        labels: Default::default(),
    }
}

#[test]
fn parses_schema_version() {
    let config = default_config();
    assert_eq!(config.version, 1);
}

#[test]
fn rejects_duplicate_node_names() {
    let mut config = default_config();
    config.nodes = vec![node("a", "http://10.0.0.1:11434"), node("a", "http://10.0.0.2:11434")];
    let err = validate_config(&config).unwrap_err();
    assert!(matches!(err, ConfigError::Validation { .. }));
}

#[test]
fn rejects_invalid_node_url() {
    let mut config = default_config();
    config.nodes.push(node("bad", "not-a-url"));
    assert!(validate_config(&config).is_err());
}

#[test]
fn ssrf_blocks_loopback_when_enabled() {
    assert!(is_url_allowed("http://127.0.0.1:11434", true).is_err());
    assert!(is_url_allowed("http://10.0.0.5:11434", true).is_ok());
}

#[test]
fn default_config_values() {
    let c = default_config();
    assert_eq!(c.inference.listen, "127.0.0.1:11434");
    assert_eq!(c.management.listen, "127.0.0.1:11600");
    assert_eq!(c.metrics.listen, "127.0.0.1:11601");
    assert_eq!(c.routing.max_retries, 2);
    assert_eq!(c.health.failure_threshold, 3);
    assert_eq!(c.proxy.request_body_buffer_bytes, 1_048_576);
    assert!(validate_config(&c).is_ok());
}

#[test]
fn validation_errors_name_the_field() {
    let mut c = default_config();
    c.version = 2;
    assert_eq!(validate_config(&c).unwrap_err(), ConfigError::UnsupportedVersion { version: 2 });
    assert_eq!(
        ConfigError::UnsupportedVersion { version: 2 }.message(),
        "unsupported schema version 2"
    );

    let mut c = default_config();
    c.management.listen = "  ".into();
    assert_eq!(
        validate_config(&c).unwrap_err(),
        ConfigError::Validation {
            path: "ocluster.toml".into(),
            field: "management.listen".into(),
            reason: "must not be empty".into()
        }
    );

    let mut c = default_config();
    c.health.failure_threshold = 0;
    let e = validate_config(&c).unwrap_err();
    assert_eq!(
        e.message(),
        "validation error at ocluster.toml.health.failure_threshold: must be greater than 0"
    );

    let mut c = default_config();
    c.proxy.request_body_buffer_bytes = 0;
    assert!(matches!(
        validate_config(&c).unwrap_err(),
        ConfigError::Validation { ref field, .. } if field == "proxy.request_body_buffer_bytes"
    ));

    let mut c = default_config();
    c.nodes = vec![node("a", "http://10.0.0.1:11434"), node("a", "http://10.0.0.2:11434")];
    assert!(matches!(
        validate_config(&c).unwrap_err(),
        ConfigError::Validation { ref field, ref reason, .. }
            if field == "nodes.a" && reason == "duplicate node name"
    ));

    let mut c = default_config();
    c.nodes = vec![node("a", "ftp://10.0.0.1/")];
    assert!(matches!(
        validate_config(&c).unwrap_err(),
        ConfigError::Validation { ref reason, .. } if reason == "must use http or https scheme"
    ));
    assert_eq!(ConfigError::Io("boom".into()).message(), "io error: boom");
}

#[test]
fn url_check_reports_parse_errors() {
    let e = is_url_allowed("not-a-url", false).unwrap_err();
    assert!(matches!(e, ConfigError::Validation { ref field, .. } if field == "nodes.url"));
    assert!(is_url_allowed("http://127.0.0.1:11434", false).is_ok());
    assert!(is_url_allowed("http://localhost:11434", true).is_err());
    assert!(is_url_allowed("http://169.254.169.254/", true).is_err());
    let e = is_url_allowed("http://[::1]:11434", true).unwrap_err();
    assert!(matches!(e, ConfigError::Validation { ref reason, .. } if reason == "blocked loopback or metadata address"));
    assert!(is_url_allowed("http://[::1]:11434", false).is_ok());
}

#[test]
fn overrides_replace_listed_values() {
    let mut c = default_config();
    let o = ConfigOverrides {
        inference_listen: Some("127.0.0.1:8888".into()),
        management_listen: None,
        database_path: Some("/tmp/x.db".into()),
        log_level: Some("debug".into()),
    };
    apply_overrides(&mut c, &o);
    assert_eq!(c.inference.listen, "127.0.0.1:8888");
    assert_eq!(c.management.listen, "127.0.0.1:11600");
    assert_eq!(c.database.path, "/tmp/x.db");
    assert_eq!(c.logging.level, "debug");
}

#[test]
fn tilde_expansion() {
    assert_eq!(expand_tilde("~/a/b.db", Some("/home/u")), "/home/u/a/b.db");
    assert_eq!(expand_tilde("~/a/b.db", Some("/home/u/")), "/home/u/a/b.db");
    assert_eq!(expand_tilde("~/a/b.db", None), "~/a/b.db");
    assert_eq!(expand_tilde("/abs/b.db", Some("/home/u")), "/abs/b.db");
    let c = default_config();
    assert_eq!(c.database_path(Some("/home/u")), "/home/u/.local/share/ocluster/ocluster.db");
}

#[test]
fn model_aliases_resolve() {
    let mut c = default_config();
    c.model_aliases.push(("llama".into(), "llama3.2:latest".into()));
    assert_eq!(c.resolve_model("llama"), "llama3.2:latest");
    assert_eq!(c.resolve_model("qwen"), "qwen");
}
