use onu_admin::onu::{PortForwardingParam, PortForwardingProtocol};
use onu_admin::report::{
    display_option, headers, tabulate, write_port_span, PortForwardingRow, PortRange,
};

fn pair(key: &str, value: &str) -> (String, String) {
    (key.to_string(), value.to_string())
}

fn strings(values: &[&str]) -> Vec<String> {
    values.iter().map(|v| v.to_string()).collect()
}

#[test]
fn port_ranges_are_read_as_they_are_typed() {
    assert_eq!(PortRange::from_str("3389"), Some(PortRange(3389, 3389)));
    assert_eq!(PortRange::from_str("8000:8999"), Some(PortRange(8000, 8999)));
    assert_eq!(PortRange::from_str("9:1"), Some(PortRange(9, 1)));
    assert_eq!(PortRange::from_str("+1:002"), Some(PortRange(1, 2)));
    assert_eq!(PortRange::from_str(""), None);
    assert_eq!(PortRange::from_str(":"), None);
    assert_eq!(PortRange::from_str("1:"), None);
    assert_eq!(PortRange::from_str(":1"), None);
    assert_eq!(PortRange::from_str("1:2:3"), None);
    assert_eq!(PortRange::from_str("a"), None);
    assert_eq!(PortRange::from_str("4294967296"), None);
    assert_eq!(PortRange::from_str("4294967295"), Some(PortRange(u32::MAX, u32::MAX)));
}

#[test]
fn port_ranges_are_written_short() {
    assert_eq!(PortRange(3389, 3389).to_string(), "3389");
    assert_eq!(PortRange(8000, 8999).to_string(), "8000:8999");
    assert_eq!(write_port_span(0, 0), "0");
    assert_eq!(write_port_span(2, 1), "2:1");
    for range in [PortRange(0, 0), PortRange(1, 65535), PortRange(u32::MAX, 0)] {
        assert_eq!(PortRange::from_str(&range.to_string()), Some(range));
    }
}

#[test]
fn missing_text_is_shown_empty() {
    assert_eq!(display_option(&Some("x".to_string())), "x");
    assert_eq!(display_option(&None), "");
}

#[test]
fn a_rule_is_shown_in_short() {
    let rule = PortForwardingParam {
        enable: true,
        name: "web".to_string(),
        protocol: PortForwardingProtocol::Both,
        wan_interface: "w".to_string(),
        remote_addr_min: None,
        remote_addr_max: None,
        remote_port_min: 8000,
        remote_port_max: 8999,
        local_addr: Some("192.168.1.4".to_string()),
        local_mac: Some("aa:bb".to_string()),
        enable_local_mac: false,
        local_port_min: 80,
        local_port_max: 80,
        description: None,
        lease_duration: None,
        port_map_creator: None,
    };
    assert_eq!(
        rule.row(),
        PortForwardingRow {
            enabled: true,
            name: "web".to_string(),
            protocol: "TCP/UDP".to_string(),
            external_port: "8000:8999".to_string(),
            internal_port: "80".to_string(),
            internal_addr: "192.168.1.4".to_string(),
            description: String::new(),
        }
    );
    let by_card = PortForwardingParam {
        enable_local_mac: true,
        description: Some("d".to_string()),
        ..rule.clone()
    };
    assert_eq!(by_card.row().internal_addr, "aa:bb");
    assert_eq!(by_card.row().description, "d");
    let nowhere = PortForwardingParam { enable_local_mac: true, local_mac: None, ..rule };
    assert_eq!(nowhere.row().internal_addr, "");
}

#[test]
fn records_are_laid_out_under_common_headers() {
    let rows = vec![
        vec![pair("mode", "PPPoE"), pair("name", "a"), pair("uptime", "1")],
        vec![pair("mode", "Bridge"), pair("name", "b")],
        vec![pair("lease", "9"), pair("mode", "DHCP"), pair("mode", "again")],
        vec![],
    ];
    assert_eq!(headers(&rows), strings(&["mode", "name", "uptime", "lease"]));
    assert_eq!(
        tabulate(&rows),
        vec![
            strings(&["mode", "name", "uptime", "lease"]),
            strings(&["PPPoE", "a", "1", ""]),
            strings(&["Bridge", "b", "", ""]),
            strings(&["DHCP", "", "", "9"]),
            strings(&["", "", "", ""]),
        ]
    );
    assert_eq!(tabulate(&vec![]), vec![Vec::<String>::new()]);
}
