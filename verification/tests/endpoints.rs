use bridge_session::ids::now_unix_seconds;
use bridge_session::urls::{
    bridge_endpoint, bridge_ws_url_from_base, candidate_bridge_server_paths, codex_config_path,
    find_bridge_server_executable, normalize_bridge_base_url,
};
use bridge_session::workspace::{
    derive_workspace_label, preferred_workspace_cwd, upsert_workspace_root, WorkspaceState,
};

fn s(x: &str) -> String {
    x.to_string()
}

#[test]
fn normalize_base_url_schemes() {
    assert_eq!(normalize_bridge_base_url("ws://host:1234"), Some(s("http://host:1234")));
    assert_eq!(normalize_bridge_base_url("wss://host"), Some(s("https://host")));
    assert_eq!(normalize_bridge_base_url(" http://host/ "), Some(s("http://host")));
    assert_eq!(normalize_bridge_base_url("https://host//"), Some(s("https://host")));
    assert_eq!(normalize_bridge_base_url("host:9"), Some(s("http://host:9")));
    assert_eq!(normalize_bridge_base_url("   "), None);
    assert_eq!(normalize_bridge_base_url("///"), None);
}

#[test]
fn ws_url_from_base() {
    assert_eq!(bridge_ws_url_from_base("http://h:1"), "ws://h:1/ws");
    assert_eq!(bridge_ws_url_from_base("https://h"), "wss://h/ws");
    assert_eq!(bridge_ws_url_from_base("ftp://h/"), "ftp://h/ws");
}

#[test]
fn endpoint_joins_with_single_slash() {
    assert_eq!(bridge_endpoint("http://h:1/", "/api/v1/health"), "http://h:1/api/v1/health");
    assert_eq!(bridge_endpoint("http://h:1", "api/v1/health"), "http://h:1/api/v1/health");
}

#[test]
fn config_path_under_home() {
    assert_eq!(codex_config_path("/home/u"), "/home/u/.codex/config.toml");
}

#[test]
fn candidate_paths_order() {
    let got = candidate_bridge_server_paths(
        &Some(s("  /override/server.exe  ")),
        &Some(s("/exe")),
        &Some(s("/parent")),
        &Some(s("/cwd")),
    );
    let mut expected = vec![
        s("/override/server.exe"),
        s("/exe/bridge-server/codex-relayouter-server.exe"),
        s("/parent/bridge-server/codex-relayouter-server.exe"),
    ];
    for root in ["/cwd", "/cwd/..", "/cwd/../..", "/cwd/../../.."] {
        expected.push(format!("{root}/bridge-server/codex-relayouter-server.exe"));
        expected.push(format!(
            "{root}/codex-relayouter-server/bin/Debug/net8.0/codex-relayouter-server.exe"
        ));
        expected.push(format!(
            "{root}/codex-relayouter-server/bin/Release/net8.0/codex-relayouter-server.exe"
        ));
    }
    assert_eq!(got, expected);
}

#[test]
fn candidate_paths_skip_blank_override() {
    let got = candidate_bridge_server_paths(&Some(s("   ")), &None, &None, &None);
    assert!(got.is_empty());
}

#[test]
fn find_executable_takes_first_existing() {
    let candidates = vec![s("/a"), s("/b"), s("/c")];
    assert_eq!(
        find_bridge_server_executable(&candidates, &vec![false, true, true]),
        Some(s("/b"))
    );
    assert_eq!(find_bridge_server_executable(&candidates, &vec![false, false, false]), None);
}

#[test]
fn workspace_label_from_last_component() {
    assert_eq!(derive_workspace_label("/home/u/projects/demo"), "demo");
    assert_eq!(derive_workspace_label("/home/u/projects/demo/"), "demo");
    assert_eq!(derive_workspace_label("/"), "/");
    assert_eq!(derive_workspace_label("plain"), "plain");
}

#[test]
fn workspace_upsert_assigns_label_once() {
    let mut ws = WorkspaceState { roots: vec![], labels: vec![], active_roots: vec![] };
    let label = upsert_workspace_root(&mut ws, s("/home/u/demo"));
    assert_eq!(label, "demo");
    assert_eq!(ws.roots, vec![s("/home/u/demo")]);
    let again = upsert_workspace_root(&mut ws, s("/home/u/demo"));
    assert_eq!(again, "demo");
    assert_eq!(ws.roots.len(), 1);
    assert_eq!(ws.labels.len(), 1);
}

#[test]
fn preferred_cwd_prefers_active_roots() {
    let ws = WorkspaceState {
        roots: vec![s("/r1")],
        labels: vec![],
        active_roots: vec![s("/a1"), s("/a2")],
    };
    assert_eq!(preferred_workspace_cwd(&ws), "/a1");
    let ws2 = WorkspaceState { roots: vec![s("/r1")], labels: vec![], active_roots: vec![] };
    assert_eq!(preferred_workspace_cwd(&ws2), "/r1");
    let ws3 = WorkspaceState { roots: vec![], labels: vec![], active_roots: vec![] };
    assert_eq!(preferred_workspace_cwd(&ws3), "/");
}

#[test]
fn unix_time_is_nonnegative() {
    let t = now_unix_seconds();
    assert!(t > 1_500_000_000);
}
