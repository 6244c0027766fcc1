use vstd::prelude::*;
use crate::json::same_text;
use crate::text::{decimal, decimal_string, has_prefix, starts_with};

verus! {

/// What the worker reads of a parsed server address: the host, the port
/// (given or the scheme's default) and the path.
#[derive(Debug)]
pub struct UrlParts {
    pub host: Option<String>,
    pub port: Option<u16>,
    pub path: String,
}

pub struct UrlPartsView {
    pub host: Option<Seq<char>>,
    pub port: Option<u16>,
    pub path: Seq<char>,
}

pub open spec fn opt_string_view(s: Option<String>) -> Option<Seq<char>> {
    match s {
        Some(x) => Some(x@),
        None => None,
    }
}

impl View for UrlParts {
    type V = UrlPartsView;

    open spec fn view(&self) -> UrlPartsView {
        UrlPartsView { host: opt_string_view(self.host), port: self.port, path: self.path@ }
    }
}

#[verifier::external_type_specification]
#[verifier::external_body]
pub struct ExUrlParseError(url::ParseError);

/// The host, known-or-default port and path that `url::Url::parse` finds in
/// a text, or nothing when it refuses the text.
pub uninterp spec fn url_components(input: Seq<char>) -> Option<UrlPartsView>;

/// A character `a` to `z`.
pub open spec fn is_lower_letter(c: char) -> bool {
    0x61 <= (c as u32) <= 0x7a
}

/// A character `0` to `9`.
pub open spec fn is_ascii_digit(c: char) -> bool {
    0x30 <= (c as u32) <= 0x39
}

/// A host name of lower-case ASCII letters and digits that starts with a
/// letter (such as a container's service name).
pub open spec fn simple_host(h: Seq<char>) -> bool {
    &&& h.len() > 0
    &&& is_lower_letter(h[0])
    &&& forall|i: int| 0 <= i < h.len() ==> is_lower_letter(#[trigger] h[i]) || is_ascii_digit(h[i])
}

/// The schemes whose URLs have a host and a default port.
pub open spec fn web_scheme(s: Seq<char>) -> bool {
    s == "ws"@ || s == "wss"@ || s == "http"@ || s == "https"@
}

/// `input` is `scheme://host:port` followed by nothing or by a path that
/// starts with `/` and holds no `@`.
pub open spec fn simple_url(input: Seq<char>, scheme: Seq<char>, host: Seq<char>, port: u16, tail: Seq<
    char,
>) -> bool {
    &&& web_scheme(scheme)
    &&& simple_host(host)
    &&& (tail.len() == 0 || tail[0] == '/')
    &&& !tail.contains('@')
    &&& input == scheme + "://"@ + host + ":"@ + decimal(port as nat) + tail
}

/// `url::Url::parse`; a parsed URL is handed over as the values of its
/// accessors `host_str`, `port_or_known_default` (the explicit port, or 80
/// for `ws`/`http`, 443 for `wss`/`https`, 21 for `ftp`) and `path`. The
/// result is a function of the text alone. Of what it is (the WHATWG URL
/// parsing that the crate implements) the contract states one case: a
/// `simple_url` parses, its host text is the host (the IDNA step passes
/// lower-case letters and digits through, and a name starting with a letter
/// does not end in a number, `host.rs` `parse_cow`), and its port is the
/// written port (`port_or_known_default` gives the scheme's default when
/// the written port equals it). The error value is not described.
#[verifier::external_body]
fn parse_url(input: &str) -> (r: Result<UrlParts, url::ParseError>)
    ensures
        r is Err <==> url_components(input@) is None,
        r matches Ok(p) ==> url_components(input@) == Some(p@),
        forall|scheme: Seq<char>, host: Seq<char>, port: u16, tail: Seq<char>|
            #[trigger] simple_url(input@, scheme, host, port, tail) ==> (r is Ok && opt_string_view(
                r->Ok_0.host,
            ) == Some(host) && r->Ok_0.port == Some(port)),
{
    match url::Url::parse(input) {
        Ok(u) => Ok(
            UrlParts {
                host: u.host_str().map(|h| h.to_string()),
                port: u.port_or_known_default(),
                path: u.path().to_string(),
            },
        ),
        Err(e) => Err(e),
    }
}

/// Where the worker connects: host, port, request path and the `host:port`
/// address.
#[derive(Debug)]
pub struct ConnectTarget {
    pub host: String,
    pub port: u16,
    pub path: String,
    pub addr: String,
}

pub struct ConnectTargetView {
    pub host: Seq<char>,
    pub port: u16,
    pub path: Seq<char>,
    pub addr: Seq<char>,
}

impl View for ConnectTarget {
    type V = ConnectTargetView;

    open spec fn view(&self) -> ConnectTargetView {
        ConnectTargetView { host: self.host@, port: self.port, path: self.path@, addr: self.addr@ }
    }
}

/// The connection target of a parsed address: a missing host is
/// `localhost`, a missing port is 80, an empty path is `/`, and the address
/// is `host:port`.
pub open spec fn target_of(p: UrlPartsView) -> ConnectTargetView {
    let host = match p.host {
        Some(h) => h,
        None => "localhost"@,
    };
    let port: u16 = match p.port {
        Some(x) => x,
        None => 80u16,
    };
    let path = if p.path.len() == 0 {
        "/"@
    } else {
        p.path
    };
    ConnectTargetView { host, port, path, addr: host + ":"@ + decimal(port as nat) }
}

/// The connection target of a parsed address (see `target_of`).
pub fn target_from_parts(parts: UrlParts) -> (r: ConnectTarget)
    ensures
        r@ == target_of(parts@),
{
    let host = match parts.host {
        Some(h) => h,
        None => String::from_str("localhost"),
    };
    let port: u16 = match parts.port {
        Some(x) => x,
        None => 80,
    };
    let path = if parts.path.unicode_len() == 0 {
        String::from_str("/")
    } else {
        parts.path
    };
    let addr = host.clone().concat(":").concat(decimal_string(port).as_str());
    ConnectTarget { host, port, path, addr }
}

/// Why a console session ended or could not start.
#[derive(Debug)]
pub enum SessionError {
    /// The configured address is not a URL.
    InvalidUrl(url::ParseError),
    /// The server answered the upgrade request with something else than
    /// `101`; holds the whole message to report.
    HandshakeRejected(String),
    /// The server closed the WebSocket stream.
    StreamEnded,
    /// Nobody can send commands any more.
    CommandChannelClosed,
    /// The WebSocket stream failed.
    TransportFailed,
}

/// The connection target of a server's configured address.
pub fn connect_target(url: &str) -> (r: Result<ConnectTarget, SessionError>)
    ensures
        r is Ok <==> url_components(url@) is Some,
        r matches Ok(t) ==> t@ == target_of(url_components(url@)->0),
        r matches Err(e) ==> e is InvalidUrl,
        forall|scheme: Seq<char>, host: Seq<char>, port: u16, tail: Seq<char>|
            #[trigger] simple_url(url@, scheme, host, port, tail) ==> (r matches Ok(t) && t.host@
                == host && t.port == port && t.addr@ == host + ":"@ + decimal(port as nat)),
{
    match parse_url(url) {
        Ok(parts) => Ok(target_from_parts(parts)),
        Err(e) => Err(SessionError::InvalidUrl(e)),
    }
}

/// The WebSocket upgrade request that the worker sends, with the console
/// password as the second sub-protocol.
pub open spec fn upgrade_request_text(path: Seq<char>, addr: Seq<char>, password: Seq<char>) -> Seq<
    char,
> {
    "GET "@ + path + " HTTP/1.1\r\nHost: "@ + addr
        + "\r\nUpgrade: websocket\r\nConnection: Upgrade\r\nSec-WebSocket-Version: 13\r\nSec-WebSocket-Key: dGhlIHNhbXBsZSBub25jZQ==\r\nSec-WebSocket-Protocol: mc-server-runner-ws-v1, "@
        + password + "\r\n\r\n"@
}

/// The WebSocket upgrade request for a target and password.
pub fn upgrade_request(path: &str, addr: &str, password: &str) -> (r: String)
    ensures
        r@ == upgrade_request_text(path@, addr@, password@),
{
    String::from_str("GET ").concat(path).concat(" HTTP/1.1\r\nHost: ").concat(addr).concat(
        "\r\nUpgrade: websocket\r\nConnection: Upgrade\r\nSec-WebSocket-Version: 13\r\nSec-WebSocket-Key: dGhlIHNhbXBsZSBub25jZQ==\r\nSec-WebSocket-Protocol: mc-server-runner-ws-v1, ",
    ).concat(password).concat("\r\n\r\n")
}

/// Adds one line read from the server to the response headers; says
/// whether it was the empty line that ends them. An empty read means the
/// server closed the connection before the headers ended: the session ends
/// with `StreamEnded` and the headers stay as they were.
pub fn record_header_line(headers: &mut String, line: &str) -> (r: Result<bool, SessionError>)
    ensures
        line@.len() == 0 ==> (r matches Err(e) && e is StreamEnded && final(headers)@ == old(
            headers,
        )@),
        line@.len() > 0 ==> (r matches Ok(done) && done == (line@ == "\r\n"@) && final(headers)@
            == old(headers)@ + line@),
{
    if line.unicode_len() == 0 {
        return Err(SessionError::StreamEnded);
    }
    headers.append(line);
    Ok(same_text(line, "\r\n"))
}

/// The status line that accepts the upgrade.
pub open spec fn switching_protocols() -> Seq<char> {
    "HTTP/1.1 101"@
}

/// Whether the server's response headers accept the upgrade; when they do
/// not, the message to report.
pub fn check_handshake(headers: &str) -> (r: Result<(), SessionError>)
    ensures
        r is Ok <==> has_prefix(headers@, switching_protocols()),
        r matches Err(e) ==> (e matches SessionError::HandshakeRejected(m) && m@
            == "Handshake rejected by server:\n"@ + headers@),
{
    if starts_with(headers, "HTTP/1.1 101") {
        Ok(())
    } else {
        Err(SessionError::HandshakeRejected(String::from_str("Handshake rejected by server:\n").concat(headers)))
    }
}

} // verus!
