use vstd::prelude::*;
use crate::config::ServerInfo;

verus! {

/// What the server list shows.
#[derive(Debug)]
pub enum ServerListView {
    /// The list is still being fetched; the text to show.
    Loading(String),
    /// Fetching the list failed; the text to show.
    Failed(String),
    /// The configuration lists no server; the text to show.
    Empty(String),
    /// One card per server, in this order.
    Cards(Vec<ServerInfo>),
}

/// What the server list shows for the state of its request: `None` while
/// it runs, then the servers or the error's text.
pub fn server_list_view(resource: Option<Result<Vec<ServerInfo>, String>>) -> (r: ServerListView)
    ensures
        match resource {
            None => r matches ServerListView::Loading(t) && t@ == "polling the worker..."@,
            Some(Err(e)) => r matches ServerListView::Failed(t) && t@
                == "failed to connect to worker: "@ + e@,
            Some(Ok(servers)) => if servers@.len() == 0 {
                r matches ServerListView::Empty(t) && t@ == "no servers in servers.json."@
            } else {
                r matches ServerListView::Cards(cards) && cards@ == servers@
            },
        },
{
    match resource {
        None => ServerListView::Loading(String::from_str("polling the worker...")),
        Some(Err(e)) => ServerListView::Failed(
            String::from_str("failed to connect to worker: ").concat(e.as_str()),
        ),
        Some(Ok(servers)) => {
            if servers.len() == 0 {
                ServerListView::Empty(String::from_str("no servers in servers.json."))
            } else {
                ServerListView::Cards(servers)
            }
        },
    }
}

} // verus!
