use onu_admin::hosts::{AppState, HostInfo};

fn host(name: &str, ip: &str) -> HostInfo {
    HostInfo { host: name.to_string(), ip: ip.to_string() }
}

#[test]
fn a_host_seen_again_keeps_its_place() {
    let mut state = AppState { hosts: vec![] };
    state.update_host(host("test", "127.0.0.0"));
    state.update_host(host("test2", "127.0.0.2"));
    state.update_host(host("test", "127.0.0.1"));
    let result = state.hosts;
    assert_eq!(result.len(), 2);
    assert_eq!(result[0].host, "test");
    assert_eq!(result[0].ip, "127.0.0.1");
    assert_eq!(result[1].host, "test2");
    assert_eq!(result[1].ip, "127.0.0.2");
}

#[test]
fn only_the_first_host_of_a_name_is_replaced() {
    let mut state = AppState { hosts: vec![host("a", "1"), host("b", "2"), host("a", "3")] };
    state.update_host(host("a", "9"));
    assert_eq!(state.hosts, vec![host("a", "9"), host("b", "2"), host("a", "3")]);
    state.update_host(host("c", "4"));
    assert_eq!(state.hosts.len(), 4);
    assert_eq!(state.hosts[3], host("c", "4"));
}
