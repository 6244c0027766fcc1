use mcmanager::config::{Config, ServerConfig};
use mcmanager::routes::{command_route, config_path, console_page, console_socket_route, echo, listen_address};

#[test]
fn config_path_depends_on_docker() {
    assert_eq!(config_path(true), "/app/servers.json");
    assert_eq!(config_path(false), "servers.json");
    assert_eq!(listen_address(), "0.0.0.0:8080");
}

#[test]
fn console_page_lookup() {
    let config = Config {
        servers: vec![ServerConfig { id: "a".into(), name: "A".into(), url: "ws://a".into(), password: "p".into() }],
    };
    assert_eq!(console_page(&config, "a").unwrap().name, "A");
    assert_eq!(console_page(&config, "b").unwrap_err(), "<h1>404 - Server Not Found</h1>");
}

#[test]
fn socket_and_command_routes() {
    let running = vec!["a".to_string()];
    assert!(console_socket_route(&running, "a").is_ok());
    assert_eq!(console_socket_route(&running, "b").unwrap_err(), "Minecraft server worker not found");
    assert!(command_route(&running, "a").is_ok());
    assert_eq!(command_route(&running, "b").unwrap_err(), "Minecraft cluster node not found");
}

#[test]
fn echo_returns_input() {
    assert_eq!(echo("hello".to_string()), "hello");
}
