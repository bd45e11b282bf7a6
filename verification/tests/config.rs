//! The configuration and the environment.

use solaredge_exporter::config::{
    Config, ConfigError, Field, ListenAddress, MonitoringApiConfig, RefreshConfig, ServerConfig,
};
use solaredge_exporter::startup::{load_api_key, load_credentials, StartupError};

fn config_from(body: &str) -> Config {
    let table: toml::Table = body.parse().expect("parse");
    let server = match table.get("server") {
        Some(server) => {
            let listen = server["listen"].as_str().expect("listen");
            let (ip, port) = listen.rsplit_once(':').expect("address and port");
            ServerConfig {
                listen: ListenAddress {
                    ip: ip.to_string(),
                    port_number: port.parse().expect("port"),
                },
            }
        }
        None => ServerConfig::default(),
    };
    let refresh = match table.get("refresh") {
        Some(refresh) => RefreshConfig {
            optimizer_seconds: refresh["optimizer_seconds"].as_integer().expect("seconds") as u64,
        },
        None => RefreshConfig::default(),
    };
    let monitoring_api = match table.get("monitoring_api") {
        Some(api) => MonitoringApiConfig {
            refresh_seconds: api["refresh_seconds"].as_integer().expect("seconds") as u64,
            state_file: api
                .get("state_file")
                .and_then(|file| file.as_str())
                .map(|file| file.to_string()),
        },
        None => MonitoringApiConfig::default(),
    };
    let mut fields = Vec::new();
    if let Some(list) = table.get("fields").and_then(|fields| fields.as_array()) {
        for field in list {
            let mut optimizer_serials = Vec::new();
            if let Some(serials) = field.get("optimizer_serials").and_then(|s| s.as_array()) {
                for serial in serials {
                    optimizer_serials.push(serial.as_str().expect("serial").to_string());
                }
            }
            fields.push(Field {
                name: field["name"].as_str().expect("name").to_string(),
                optimizer_serials,
            });
        }
    }
    Config {
        site_id: table["site_id"].as_integer().expect("site") as u64,
        server,
        refresh,
        monitoring_api,
        fields,
    }
}

#[test]
fn loads_minimal_config() {
    let toml = r#"
            site_id = 42
        "#;
    let cfg = config_from(toml);
    cfg.validate().expect("valid");
    assert_eq!(cfg.site_id, 42);
    assert_eq!(cfg.refresh.optimizer_seconds, 900);
    assert_eq!(cfg.monitoring_api.refresh_seconds, 1800);
    assert_eq!(cfg.server.listen.port(), 8888);
    assert!(cfg.fields.is_empty());
}

#[test]
fn loads_full_config() {
    let toml = r#"
            site_id = 42

            [server]
            listen = "127.0.0.1:9090"

            [refresh]
            optimizer_seconds = 600

            [[fields]]
            name = "east"
            description = "east facing"
            optimizer_serials = ["A", "B"]

            [[fields]]
            name = "south"
            optimizer_serials = ["C"]
        "#;
    let cfg = config_from(toml);
    cfg.validate().expect("valid");
    assert_eq!(cfg.field_for("A"), "east");
    assert_eq!(cfg.field_for("C"), "south");
    assert_eq!(cfg.field_for("Z"), "unassigned");
}

#[test]
fn rejects_duplicate_serial() {
    let toml = r#"
            site_id = 1
            [[fields]]
            name = "a"
            optimizer_serials = ["X"]
            [[fields]]
            name = "b"
            optimizer_serials = ["X"]
        "#;
    let cfg = config_from(toml);
    let err = cfg.validate().expect_err("duplicate serial");
    assert!(matches!(err, ConfigError::DuplicateSerial { .. }));
}

#[test]
fn rejects_duplicate_field_name() {
    let toml = r#"
            site_id = 1
            [[fields]]
            name = "a"
            optimizer_serials = ["X"]
            [[fields]]
            name = "a"
            optimizer_serials = ["Y"]
        "#;
    let cfg = config_from(toml);
    let err = cfg.validate().expect_err("duplicate name");
    assert!(matches!(err, ConfigError::DuplicateFieldName(_)));
}

#[test]
fn listens_on_every_address_by_default() {
    let listen = ServerConfig::default().listen;
    assert_eq!(listen.ip, "0.0.0.0");
    assert_eq!(listen.port(), 8888);
    assert!(MonitoringApiConfig::default().state_file.is_none());
}

#[test]
fn names_the_fields_that_share_a_serial() {
    let mut cfg = config_from("site_id = 1");
    cfg.fields.push(Field {
        name: "north".to_string(),
        optimizer_serials: vec!["A".to_string(), "B".to_string()],
    });
    cfg.fields.push(Field {
        name: "west".to_string(),
        optimizer_serials: vec!["C".to_string(), "B".to_string(), "A".to_string()],
    });
    match cfg.validate() {
        Err(ConfigError::DuplicateSerial {
            serial,
            first,
            second,
        }) => {
            assert_eq!(serial, "B");
            assert_eq!(first, "north");
            assert_eq!(second, "west");
        }
        other => panic!("{other:?}"),
    }
}

#[test]
fn a_serial_listed_twice_in_one_field_is_rejected() {
    let mut cfg = config_from("site_id = 1");
    cfg.fields.push(Field {
        name: "north".to_string(),
        optimizer_serials: vec!["A".to_string(), "A".to_string()],
    });
    match cfg.validate() {
        Err(ConfigError::DuplicateSerial { first, second, .. }) => {
            assert_eq!(first, "north");
            assert_eq!(second, "north");
        }
        other => panic!("{other:?}"),
    }
}

#[test]
fn intervals_must_be_positive_and_come_first() {
    let mut cfg = config_from("site_id = 1");
    for _ in 0..2 {
        cfg.fields.push(Field {
            name: "same".to_string(),
            optimizer_serials: Vec::new(),
        });
    }
    cfg.refresh.optimizer_seconds = 0;
    cfg.monitoring_api.refresh_seconds = 0;
    assert!(matches!(
        cfg.validate(),
        Err(ConfigError::ZeroRefreshInterval)
    ));
    cfg.refresh.optimizer_seconds = 1;
    assert!(matches!(
        cfg.validate(),
        Err(ConfigError::ZeroMonitoringApiInterval)
    ));
    cfg.monitoring_api.refresh_seconds = 1;
    match cfg.validate() {
        Err(ConfigError::DuplicateFieldName(name)) => assert_eq!(name, "same"),
        other => panic!("{other:?}"),
    }
}

#[test]
fn a_file_that_cannot_be_read_or_parsed_is_named() {
    let parse = |_: &str| -> Result<Config, String> { Err("no table".to_string()) };
    match Config::load("c.toml", Err("gone".to_string()), parse) {
        Err(ConfigError::Io { path, message }) => {
            assert_eq!(path, "c.toml");
            assert_eq!(message, "gone");
        }
        other => panic!("{other:?}"),
    }
    match Config::load("c.toml", Ok("=".to_string()), parse) {
        Err(ConfigError::Parse { path, message }) => {
            assert_eq!(path, "c.toml");
            assert_eq!(message, "no table");
        }
        other => panic!("{other:?}"),
    }
    let good = Config::load("c.toml", Ok("site_id = 7".to_string()), |body: &str| {
        Ok(config_from(body))
    });
    assert_eq!(good.expect("accepted").site_id, 7);
    let bad = Config::load("c.toml", Ok("site_id = 7".to_string()), |body: &str| {
        let mut cfg = config_from(body);
        cfg.refresh.optimizer_seconds = 0;
        Ok(cfg)
    });
    assert!(matches!(bad, Err(ConfigError::ZeroRefreshInterval)));
}

#[test]
fn credentials_must_be_set_and_not_empty() {
    let some = |s: &str| Some(s.to_string());
    let creds = load_credentials(some("me"), some("word")).expect("credentials");
    assert_eq!(creds.username, "me");
    assert_eq!(creds.password.expose(), "word");
    assert_eq!(
        load_credentials(None, None).expect_err("name"),
        StartupError::MissingUsername
    );
    assert_eq!(
        load_credentials(some(""), None).expect_err("password"),
        StartupError::MissingPassword
    );
    assert_eq!(
        load_credentials(some(""), some("word")).expect_err("empty"),
        StartupError::EmptyCredentials
    );
    assert_eq!(
        load_credentials(some("me"), some("")).expect_err("empty"),
        StartupError::EmptyCredentials
    );
    assert_eq!(
        StartupError::EmptyCredentials.message(),
        "SOLAREDGE_USERNAME and SOLAREDGE_PASSWORD must be non-empty"
    );
}

#[test]
fn the_api_key_must_be_set_and_not_empty() {
    assert_eq!(
        load_api_key(Some("k".to_string())).expect("key").expose(),
        "k"
    );
    assert_eq!(
        load_api_key(None).expect_err("missing"),
        StartupError::MissingApiKey
    );
    assert_eq!(
        load_api_key(Some(String::new())).expect_err("empty"),
        StartupError::EmptyApiKey
    );
    assert_eq!(
        StartupError::MissingApiKey.message(),
        "SOLAREDGE_API_KEY env var is required but not set"
    );
}
