use vstd::prelude::*;
use crate::config::{configs_view, has_server, is_first_with_id, Config, ServerConfig};
use crate::sync::contains_text;
use crate::text::strings_view;

verus! {

/// Where the server list is read from: inside the container image, or in
/// the working directory.
pub fn config_path(running_in_docker: bool) -> (r: &'static str)
    ensures
        r@ == (if running_in_docker {
            "/app/servers.json"@
        } else {
            "servers.json"@
        }),
{
    if running_in_docker {
        "/app/servers.json"
    } else {
        "servers.json"
    }
}

/// The address the web console listens on.
pub fn listen_address() -> (r: &'static str)
    ensures
        r@ == "0.0.0.0:8080"@,
{
    "0.0.0.0:8080"
}

/// The console page of a server: the server to show, or the body of the
/// not-found page.
pub fn console_page(config: &Config, id: &str) -> (r: Result<ServerConfig, String>)
    ensures
        r is Ok <==> has_server(configs_view(config.servers@), id@),
        r matches Ok(s) ==> exists|i: int|
            is_first_with_id(configs_view(config.servers@), id@, i) && s@
                == config.servers@[i]@,
        r matches Err(body) ==> body@ == "<h1>404 - Server Not Found</h1>"@,
{
    match config.find_server(id) {
        Some(s) => Ok(s),
        None => Err(String::from_str("<h1>404 - Server Not Found</h1>")),
    }
}

/// Whether a browser may open the console WebSocket of a server, given the
/// ids of the running workers; when it may not, the body of the not-found
/// answer.
pub fn console_socket_route(running: &Vec<String>, id: &str) -> (r: Result<(), String>)
    ensures
        r is Ok <==> strings_view(running@).contains(id@),
        r matches Err(body) ==> body@ == "Minecraft server worker not found"@,
{
    if contains_text(running, id) {
        Ok(())
    } else {
        Err(String::from_str("Minecraft server worker not found"))
    }
}

/// Whether a command can be sent to a server, given the ids of the running
/// workers; when it cannot, the error to report.
pub fn command_route(running: &Vec<String>, id: &str) -> (r: Result<(), String>)
    ensures
        r is Ok <==> strings_view(running@).contains(id@),
        r matches Err(msg) ==> msg@ == "Minecraft cluster node not found"@,
{
    if contains_text(running, id) {
        Ok(())
    } else {
        Err(String::from_str("Minecraft cluster node not found"))
    }
}

/// Echoes the user's input.
pub fn echo(input: String) -> (r: String)
    ensures
        r@ == input@,
{
    input
}

} // verus!
