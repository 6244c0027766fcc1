use mcmanager::config::ServerInfo;
use mcmanager::server_list::{server_list_view, ServerListView};

fn info(id: &str) -> ServerInfo {
    ServerInfo { id: id.into(), name: id.to_uppercase(), url: format!("ws://{}", id) }
}

#[test]
fn server_list_states() {
    assert!(matches!(server_list_view(None), ServerListView::Loading(t) if t == "polling the worker..."));
    assert!(matches!(
        server_list_view(Some(Err("timeout".to_string()))),
        ServerListView::Failed(t) if t == "failed to connect to worker: timeout"
    ));
    assert!(matches!(
        server_list_view(Some(Ok(vec![]))),
        ServerListView::Empty(t) if t == "no servers in servers.json."
    ));
    match server_list_view(Some(Ok(vec![info("a"), info("b")]))) {
        ServerListView::Cards(cards) => assert_eq!(cards, vec![info("a"), info("b")]),
        other => panic!("unexpected {:?}", other),
    }
}
