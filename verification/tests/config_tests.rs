use mcmanager::config::{Config, ServerConfig, ServerInfo};

fn server(id: &str, name: &str) -> ServerConfig {
    ServerConfig {
        id: id.to_string(),
        name: name.to_string(),
        url: format!("ws://{}:25575/console", id),
        password: "secret".to_string(),
    }
}

#[test]
fn server_infos_drop_passwords_and_keep_order() {
    let config = Config { servers: vec![server("a", "Alpha"), server("b", "Beta")] };
    let infos = config.server_infos();
    assert_eq!(
        infos,
        vec![
            ServerInfo { id: "a".into(), name: "Alpha".into(), url: "ws://a:25575/console".into() },
            ServerInfo { id: "b".into(), name: "Beta".into(), url: "ws://b:25575/console".into() },
        ]
    );
}

#[test]
fn default_config_lists_no_servers() {
    let config = Config::default();
    assert!(config.servers.is_empty());
    assert!(config.server_infos().is_empty());
}

#[test]
fn find_server_returns_first_match() {
    let config = Config { servers: vec![server("a", "First"), server("b", "Other"), server("a", "Second")] };
    let found = config.find_server("a").unwrap();
    assert_eq!(found.name, "First");
    assert_eq!(config.find_server("b").unwrap().name, "Other");
    assert!(config.find_server("c").is_none());
    assert!(config.find_server("").is_none());
}

#[test]
fn info_and_clone_keep_fields() {
    let s = server("lobby", "Lobby");
    let c = s.clone();
    assert_eq!(c.id, "lobby");
    assert_eq!(c.password, "secret");
    let info = s.info();
    assert_eq!(info.name, "Lobby");
    assert_ne!(info, ServerInfo { id: "lobby".into(), name: "Other".into(), url: s.url.clone() });
}
