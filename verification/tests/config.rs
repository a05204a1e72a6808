use mmserver::config::{
    collect_includes, include_file, locate_default_config_file, Config, ConfigError,
    DefaultAppSettings, DirEntry, FileFormat, MaxConnections, ParsedApp, ParsedConfig,
    ParsedServer, ResolvedAddr,
};
use mmserver::net::{IpAddr, SocketAddr};

fn defaults() -> ParsedConfig {
    ParsedConfig {
        include_apps: None,
        apps: None,
        server: Some(ParsedServer {
            bind: Some("localhost:9599".to_string()),
            bind_systemd: Some(false),
            tls_cert: None,
            tls_key: None,
            worker_threads: Some(8),
            max_connections: Some(MaxConnections::Value(4)),
        }),
        default_app_settings: Some(DefaultAppSettings {
            xwayland: Some(true),
            force_1x_scale: Some(false),
        }),
    }
}

fn app(name: &str) -> ParsedApp {
    ParsedApp {
        name: name.to_string(),
        description: None,
        command: vec!["echo".to_string(), "hello".to_string()],
        environment: None,
        xwayland: None,
        force_1x_scale: None,
    }
}

fn file(bind: Option<&str>) -> ParsedConfig {
    ParsedConfig {
        include_apps: None,
        apps: Some(vec![app("example")]),
        server: bind.map(|bind| ParsedServer {
            bind: Some(bind.to_string()),
            bind_systemd: None,
            tls_cert: None,
            tls_key: None,
            worker_threads: None,
            max_connections: None,
        }),
        default_app_settings: None,
    }
}

fn build(file: ParsedConfig) -> Config {
    match Config::build(ParsedConfig::with_defaults(Some(file), defaults()), vec![]) {
        Ok(config) => config,
        Err(err) => panic!("{}", err.message()),
    }
}

fn v4(a: u8, b: u8, c: u8, d: u8, text: &str) -> Option<ResolvedAddr> {
    Some(ResolvedAddr {
        addr: SocketAddr {
            ip: IpAddr::V4(u32::from_be_bytes([a, b, c, d])),
            port: 9599,
        },
        text: text.to_string(),
    })
}

fn localhost() -> Option<ResolvedAddr> {
    v4(127, 0, 0, 1, "127.0.0.1:9599")
}

#[test]
fn test_default() {
    let mut input = defaults();
    input.apps = Some(vec![app("example")]);
    let config = match Config::build(ParsedConfig::with_defaults(None, input), vec![]) {
        Ok(config) => config,
        Err(_) => panic!("failed to build default config"),
    };

    assert!(
        config.validate(&localhost(), false, false).is_ok(),
        "default config is valid"
    );
    assert_eq!(config.server.bind, "localhost:9599");
}

#[test]
fn test_only_app() {
    let config = build(file(None));
    assert!(
        config.validate(&localhost(), false, false).is_ok(),
        "empty config is valid"
    );

    assert_eq!(config.server.bind, "localhost:9599");
    assert!(!config.server.bind_systemd);
    assert_eq!(config.server.tls_cert, None);
    assert_eq!(config.server.tls_key, None);
    assert_eq!(config.server.worker_threads, 8);
    assert_eq!(config.server.max_connections, Some(4));
    assert_eq!(config.bug_report_dir, None);
    assert_eq!(config.apps.len(), 1);
    assert_eq!(config.apps[0].name, "example");
    assert_eq!(config.apps[0].description, None);
    assert_eq!(config.apps[0].command, vec!["echo", "hello"]);
    assert_eq!(config.apps[0].env.len(), 0);
    assert!(config.apps[0].xwayland);
    assert!(!config.apps[0].force_1x_scale);
}

#[test]
fn tls_required_for_global_addr() {
    let config = build(file(Some("8.8.8.8:9599")));
    assert_eq!(config.server.bind, "8.8.8.8:9599");
    match config.validate(&v4(8, 8, 8, 8, "8.8.8.8:9599"), false, false) {
        Err(e) => {
            assert_eq!(
                e.message(),
                "TLS required for non-private address \"8.8.8.8:9599\""
            )
        }
        _ => panic!("expected error"),
    }
}

#[test]
fn tls_required_for_unspecified() {
    let config = build(file(Some("[::]:9599")));
    let resolved = Some(ResolvedAddr {
        addr: SocketAddr {
            ip: IpAddr::V6(0),
            port: 9599,
        },
        text: "[::]:9599".to_string(),
    });
    match config.validate(&resolved, false, false) {
        Err(e) => {
            assert_eq!(
                e.message(),
                "TLS required for non-private address \"[::]:9599\""
            )
        }
        _ => panic!("expected error"),
    }
}

#[test]
fn tls_not_required_for_tailscale() {
    let config = build(file(Some("100.64.123.45:9599")));
    assert!(
        config
            .validate(&v4(100, 64, 123, 45, "100.64.123.45:9599"), false, false)
            .is_ok(),
        "TLS not required for shared NAT address"
    );
}

#[test]
fn names_are_checked() {
    for name in ["", "Example", "1up", "-x", "a.b", "a b", "ä"] {
        let mut input = defaults();
        input.apps = Some(vec![app(name)]);
        match Config::build(input, vec![]) {
            Err(ConfigError::InvalidAppName(n)) => assert_eq!(n, name),
            _ => panic!("{:?} was accepted", name),
        }
    }

    let longest = "a".repeat(257);
    for name in ["a", "steam-big_picture2", longest.as_str()] {
        let mut input = defaults();
        input.apps = Some(vec![app(name)]);
        assert!(Config::build(input, vec![]).is_ok());
    }

    let mut input = defaults();
    input.apps = Some(vec![app(&"a".repeat(258))]);
    assert!(Config::build(input, vec![]).is_err());
}

#[test]
fn names_are_used_once() {
    let mut input = defaults();
    input.apps = Some(vec![app("one"), app("two")]);
    match Config::build(input, vec![app("three"), app("one")]) {
        Err(err) => assert_eq!(err.message(), "duplicate app name: one"),
        Ok(_) => panic!("expected error"),
    }
}

#[test]
fn configuration_flaws_are_found_in_order() {
    let mut config = build(file(None));
    assert!(matches!(
        config.validate(&None, true, true),
        Err(ConfigError::InvalidAddress(_))
    ));

    config.server.tls_cert = Some("/cert.pem".to_string());
    config.server.tls_key = Some("/key.pem".to_string());
    let global = v4(8, 8, 8, 8, "8.8.8.8:9599");
    assert!(config.validate(&global, true, true).is_ok());
    match config.validate(&global, false, false) {
        Err(err) => assert_eq!(err.message(), "TLS certificate not found at /cert.pem"),
        Ok(()) => panic!("expected error"),
    }
    match config.validate(&global, true, false) {
        Err(err) => assert_eq!(err.message(), "TLS private key not found at /key.pem"),
        Ok(()) => panic!("expected error"),
    }

    config.apps[0].command.clear();
    match config.validate(&None, false, false) {
        Err(err) => assert_eq!(
            err.message(),
            "empty command for application \"example\""
        ),
        Ok(()) => panic!("expected error"),
    }

    config.apps.clear();
    match config.validate(&None, false, false) {
        Err(err) => assert_eq!(err.message(), "at least one application must be defined"),
        Ok(()) => panic!("expected error"),
    }
}

#[test]
fn file_overrides_defaults() {
    let mut input = file(Some("10.0.0.1:1234"));
    input.default_app_settings = Some(DefaultAppSettings {
        xwayland: None,
        force_1x_scale: Some(true),
    });
    if let Some(server) = &mut input.server {
        server.max_connections = Some(MaxConnections::Infinity);
    }
    let config = build(input);
    assert_eq!(config.server.bind, "10.0.0.1:1234");
    assert_eq!(config.server.max_connections, None);
    assert_eq!(config.server.worker_threads, 8);
    assert!(config.apps[0].xwayland);
    assert!(config.apps[0].force_1x_scale);
}

#[test]
fn include_paths_are_joined() {
    let mut input = defaults();
    input.include_apps = Some(vec!["/etc/apps".to_string()]);
    let paths = input.includes(&vec!["/home/apps".to_string()]);
    assert_eq!(paths, vec!["/etc/apps", "/home/apps"]);
}

#[test]
fn includes_are_chosen_by_extension() {
    assert!(matches!(
        include_file(&Some("toml".to_string())),
        Ok(FileFormat::Toml)
    ));
    assert!(matches!(
        include_file(&Some("json".to_string())),
        Ok(FileFormat::Json)
    ));
    match include_file(&Some("yaml".to_string())) {
        Err(err) => assert_eq!(err.message(), "invalid file extension"),
        Ok(_) => panic!("expected error"),
    }
    assert!(include_file(&None).is_err());

    let entry = |is_file: bool, ext: Option<&str>| DirEntry {
        is_file,
        extension: ext.map(|e| e.to_string()),
    };
    let entries = vec![
        entry(true, Some("toml")),
        entry(false, Some("toml")),
        entry(true, Some("txt")),
        entry(true, None),
        entry(true, Some("json")),
    ];
    assert_eq!(collect_includes(&entries), vec![0, 4]);
}

#[test]
fn default_file_prefers_toml() {
    assert_eq!(
        locate_default_config_file(true, true),
        Some("/etc/magic-mirror/mmserver.toml")
    );
    assert_eq!(
        locate_default_config_file(false, true),
        Some("/etc/magic-mirror/mmserver.json")
    );
    assert_eq!(locate_default_config_file(false, false), None);
}
