use onu_admin::onu::dom::{
    check_markup, count_tag_openings, extract_key_value_tables, extract_marked, parse_node_text,
    table_from_rows,
};
use onu_admin::onu::wan::{wan6_infos, wan_infos};
use onu_admin::onu::{
    Context, KeyValueTable, Malformed, OnuError, Session, Wan6Info, WanInfo, WanIpInfo,
};

fn pair(key: &str, value: &str) -> (String, String) {
    (key.to_string(), value.to_string())
}

fn table(entries: &[(&str, &str)]) -> KeyValueTable {
    KeyValueTable::from_entries(entries.iter().map(|(k, v)| pair(k, v)).collect())
}

fn row(key: &str, value: &str) -> String {
    format!(
        "<tr class=\"white_1\">\n<td class=\"tdleft_1\">{}</td>\n<td class=\"tdright\">{}</td>\n</tr>\n",
        key, value
    )
}

fn block(rows: &[(&str, &str)]) -> String {
    let rows: String = rows.iter().map(|(k, v)| row(k, v)).collect();
    format!(
        "<div class=\"space_0\">\n<table id=\"TestContent\" class=\"infor\" width=\"410\">\n{}</table>\n</div>\n",
        rows
    )
}

fn page(blocks: &[String]) -> String {
    format!("<html><head><title>t</title></head><body>{}</body></html>", blocks.concat())
}

fn ip_info() -> WanIpInfo {
    WanIpInfo {
        nat: "启用".to_string(),
        ip: "10.0.0.2".to_string(),
        dns1: "8.8.8.8".to_string(),
        dns2: "0.0.0.0".to_string(),
        dns3: String::new(),
        mac: "aa:bb:cc:dd:ee:ff".to_string(),
        gateway: "10.0.0.1".to_string(),
    }
}

const ADDRESSES: [(&str, &str); 6] = [
    ("NAT", "启用"),
    ("IP", "10.0.0.2"),
    ("DNS1", "8.8.8.8"),
    ("DNS2", "0.0.0.0"),
    ("WAN MAC", "aa:bb:cc:dd:ee:ff"),
    ("网关", "10.0.0.1"),
];

#[test]
fn wan_mode_dispatch() {
    let mut pppoe = vec![("模式", "PPPoE"), ("连接名称", "X"), ("连接状态", "连接")];
    pppoe.extend(ADDRESSES);
    pppoe.extend([("断开原因", ""), ("在线时长", "1156992秒")]);
    let mut dhcp = vec![("模式", "DHCP"), ("连接名称", "1_TR069_VOICE_R_VID_46")];
    dhcp.extend(ADDRESSES);
    dhcp.extend([("连接状态", "连接"), ("剩余租期", "58473秒")]);
    let bridge = vec![("模式", "桥接"), ("连接名称", "2_Other_B_VID_85"), ("IP", "ignored")];
    let page = page(&[block(&pppoe), block(&dhcp), block(&bridge)]);
    let mut context = Context::new("http://192.168.1.1");
    assert_eq!(
        context.wan_info(&page),
        Ok(vec![
            WanInfo::PPPoE {
                name: "X".to_string(),
                ip_info: ip_info(),
                status: "连接".to_string(),
                error_reason: String::new(),
                uptime: "1156992秒".to_string(),
            },
            WanInfo::DHCP {
                name: "1_TR069_VOICE_R_VID_46".to_string(),
                ip_info: ip_info(),
                status: "连接".to_string(),
                lease_time: "58473秒".to_string(),
            },
            WanInfo::Bridge { name: "2_Other_B_VID_85".to_string() },
        ])
    );
    assert_eq!(context.session, None);
}

#[test]
fn wan_mode_that_is_not_known_fails() {
    let mut context = Context::new("http://192.168.1.1");
    let unknown = page(&[block(&[("模式", "PPPoE")]), block(&[("模式", "IPoE"), ("连接名称", "X")])]);
    assert_eq!(context.wan_info(&unknown), Err(OnuError::Parse(Malformed::WanMode)));
    let missing = page(&[block(&[("连接名称", "X")])]);
    assert_eq!(context.wan_info(&missing), Err(OnuError::Parse(Malformed::WanMode)));
    assert_eq!(context.wan_info(&page(&[])), Ok(vec![]));
    assert_eq!(
        WanInfo::from_table(&table(&[("模式", "pppoe")])),
        Err(Malformed::WanMode)
    );
}

#[test]
fn the_status_page_brings_a_session() {
    let mut context = Context::new("http://192.168.1.1");
    let page = format!(
        "<html><body><script>var session_token = \"abc\";\nfunction getURL(){{var ret = \"next.gch?\";}}</script>{}</body></html>",
        block(&[("模式", "桥接"), ("连接名称", "B")])
    );
    assert_eq!(context.wan_info(&page), Ok(vec![WanInfo::Bridge { name: "B".to_string() }]));
    assert_eq!(context.session, Some(Session::new("next.gch?".to_string(), "abc".to_string())));
}

#[test]
fn tables_are_read_from_markup() {
    let page = "<html><body>\
        <div class=\"space_0 wide\"><table>\
        <tr><td> a </td><td>\n1\n</td><td>third</td></tr>\
        <tr><td>a</td><td>2</td></tr>\
        <tr><td>only</td></tr>\
        <tr></tr>\
        <tr><td><input type=\"text\" value=\" typed \"></td><td><b>bo</b>ld</td></tr>\
        <tr><td>novalue</td><td><input type=\"text\"></td></tr>\
        <tr><td>later</td><td>text <input value=\"v\"></td></tr>\
        </table></div>\
        <div class=\"space_1\"><table><tr><td>x</td><td>y</td></tr></table></div>\
        <p class=\"space_0\"><table><tr><td>x</td><td>y</td></tr></table></p>\
        <div class=\"space_0\"></div>\
        </body></html>";
    let tables = extract_key_value_tables(page, "div", "space_0", "tr", "td").unwrap();
    assert_eq!(tables.len(), 2);
    let first = &tables[0];
    assert_eq!(first.get("a"), Some(&"1".to_string()));
    assert_eq!(first.get("only"), Some(&String::new()));
    assert_eq!(first.get(""), Some(&String::new()));
    assert_eq!(first.get("typed"), Some(&"bold".to_string()));
    assert_eq!(first.get("novalue"), Some(&String::new()));
    assert_eq!(first.get("later"), Some(&"v".to_string()));
    assert_eq!(first.get("x"), None);
    assert_eq!(first.get("third"), None);
    assert_eq!(first.text("a"), "1");
    assert_eq!(first.text("x"), "");
    assert_eq!(tables[1], KeyValueTable::new());
}

#[test]
fn the_first_entry_of_a_key_counts() {
    let mut table = KeyValueTable::new();
    assert_eq!(table.get("k"), None);
    table.insert_absent("k".to_string(), "first".to_string());
    table.insert_absent("k".to_string(), "second".to_string());
    table.insert_absent("l".to_string(), "other".to_string());
    assert_eq!(table.get("k"), Some(&"first".to_string()));
    assert_eq!(table.get("l"), Some(&"other".to_string()));
    assert_eq!(table, KeyValueTable::from_entries(vec![pair("k", "first"), pair("l", "other")]));
    let doubled = KeyValueTable::from_entries(vec![pair("k", "1"), pair("k", "2")]);
    assert_eq!(doubled.text("k"), "1");
}

#[test]
fn cell_text_prefers_the_value_of_an_input() {
    let name = |n: &str| Some(n.to_string());
    let plain = (" text ".to_string(), vec![(None, None)]);
    assert_eq!(parse_node_text(&plain), "text");
    let input = ("ignored".to_string(), vec![(None, None), (name("input"), name(" v "))]);
    assert_eq!(parse_node_text(&input), "v");
    let bare = ("ignored".to_string(), vec![(name("input"), None), (name("input"), name("w"))]);
    assert_eq!(parse_node_text(&bare), "");
    let other = ("t".to_string(), vec![(name("select"), name("v")), (name("INPUT"), name("v"))]);
    assert_eq!(parse_node_text(&other), "t");
    let rows = vec![vec![plain, input], vec![], vec![other]];
    let table = table_from_rows(&rows);
    assert_eq!(table.get("text"), Some(&"v".to_string()));
    assert_eq!(table.get(""), Some(&String::new()));
    assert_eq!(table.get("t"), Some(&String::new()));
}

#[test]
fn addresses_are_read_from_a_table() {
    let table = table(&ADDRESSES);
    assert_eq!(WanIpInfo::from_dict(&table), ip_info());
    assert_eq!(
        WanIpInfo::from_dict(&KeyValueTable::new()),
        WanIpInfo {
            nat: String::new(),
            ip: String::new(),
            dns1: String::new(),
            dns2: String::new(),
            dns3: String::new(),
            mac: String::new(),
            gateway: String::new(),
        }
    );
}

#[test]
fn connections_are_read_from_tables() {
    let tables = vec![table(&[("模式", "桥接"), ("连接名称", "B")]), table(&[("模式", "?")])];
    assert_eq!(wan_infos(&tables), Err(OnuError::Parse(Malformed::WanMode)));
    let known = vec![table(&[("模式", "桥接"), ("连接名称", "B")])];
    assert_eq!(wan_infos(&known), Ok(vec![WanInfo::Bridge { name: "B".to_string() }]));
}

#[test]
fn wan6_tables_are_read_label_by_label() {
    let rows = [
        ("PPP", "3_INTERNET_R_VID_"),
        ("GUA获取方式", "SLAAC"),
        ("GUA", "2001:db8::2"),
        ("DNS获取方式", "DHCPv6"),
        ("DNS1", "2001:db8::53"),
        ("DNS2", "::"),
        ("DNS3", "::"),
        ("WAN MAC", "aa:bb:cc:dd:ee:ff"),
        ("前缀获取方式", "DHCPv6"),
        ("获取前缀", "2001:db8:1::/56"),
        ("网关获取方式", "SLAAC"),
        ("网关", "fe80::1"),
        ("连接状态", "连接"),
    ];
    let expected = Wan6Info {
        name: "3_INTERNET_R_VID_".to_string(),
        gua_assignment: "SLAAC".to_string(),
        gua: "2001:db8::2".to_string(),
        dns_assignment: "DHCPv6".to_string(),
        dns1: "2001:db8::53".to_string(),
        dns2: "::".to_string(),
        dns3: "::".to_string(),
        wan_mac: "aa:bb:cc:dd:ee:ff".to_string(),
        prefix_assignment: "DHCPv6".to_string(),
        prefix: "2001:db8:1::/56".to_string(),
        gateway_assignment: "SLAAC".to_string(),
        gateway: "fe80::1".to_string(),
        status: "连接".to_string(),
    };
    let mut context = Context::new("http://192.168.1.1");
    let infos = context.wan6_info(&page(&[block(&rows), block(&[])])).unwrap();
    assert_eq!(infos.len(), 2);
    assert_eq!(infos[0], expected);
    assert_eq!(infos[1], Wan6Info::from_table(&KeyValueTable::new()));
    assert_eq!(infos[1].name, "");
    assert_eq!(wan6_infos(&vec![table(&rows)]), vec![expected]);
}

fn openings(n: usize) -> String {
    format!(
        "<div class=\"space_0\"><table><tr><td>k</td><td>v</td></tr></table></div>{}",
        "<br>".repeat(n - 5)
    )
}

#[test]
fn tag_openings_are_counted() {
    let count = |s: &str| count_tag_openings(&s.chars().collect::<Vec<char>>());
    assert_eq!(count(""), 0);
    assert_eq!(count("<"), 0);
    assert_eq!(count("<a"), 1);
    assert_eq!(count("<a></a><B/><!-- c --><?d?>< e>1<2 <<z<Z"), 4);
    assert_eq!(count("<1><_><\u{e9}>a<"), 0);
    assert_eq!(count(&openings(800)), 800);
    assert!(check_markup(""));
    assert!(check_markup(&openings(800)));
    assert!(!check_markup(&openings(801)));
}

#[test]
fn a_page_with_too_many_tags_is_turned_down() {
    let mut context = Context::new("http://192.168.1.1");
    let most = openings(800);
    let more = openings(801);
    assert_eq!(
        extract_key_value_tables(&most, "div", "space_0", "tr", "td").map(|t| t.len()),
        Ok(1)
    );
    assert_eq!(
        extract_key_value_tables(&more, "div", "space_0", "tr", "td"),
        Err(Malformed::Markup)
    );
    assert_eq!(context.wan_info(&more), Err(OnuError::Parse(Malformed::Markup)));
    assert_eq!(context.wan6_info(&more), Err(OnuError::Parse(Malformed::Markup)));
    assert_eq!(context.wan6_info(&most).map(|list| list.len()), Ok(1));
    assert_eq!(
        extract_marked(&more, "id", "x", "option", "value", "ipmode"),
        Err(Malformed::Markup)
    );
    assert_eq!(extract_marked(&most, "id", "x", "option", "value", "ipmode"), Ok(vec![]));
    assert_eq!(Context::parse_wanc_info(&more), Err(OnuError::Parse(Malformed::Markup)));
}

#[test]
fn the_deepest_page_within_the_limit_is_parsed() {
    let tables = format!("<div class=\"space_0\">{}x</div>", "<table><td>".repeat(399));
    assert_eq!(
        extract_key_value_tables(&tables, "div", "space_0", "tr", "td").map(|t| t.len()),
        Ok(1)
    );
    let blocks = format!(
        "<div class=\"space_0\"><table><tr><td>{}deep</td><td>v</td></tr></table></div>",
        "<div>".repeat(795)
    );
    let found = extract_key_value_tables(&blocks, "div", "space_0", "tr", "td").unwrap();
    assert_eq!(found[0].get("deep"), Some(&"v".to_string()));
    let marked = format!(
        "<select id=\"s\"><option value=\"v\" ipmode=\"1\">t</option></select>{}",
        "<div>".repeat(798)
    );
    assert_eq!(
        extract_marked(&marked, "id", "s", "option", "value", "ipmode"),
        Ok(vec![("t".to_string(), Some("v".to_string()), Some("1".to_string()))])
    );
}

#[test]
fn a_flat_page_of_many_rows_is_read() {
    let rows: Vec<(String, String)> =
        (0..171).map(|i| (format!("key{}", i), format!("value{}", i))).collect();
    let rows: Vec<(&str, &str)> = rows.iter().map(|(k, v)| (k.as_str(), v.as_str())).collect();
    let page = page(&[block(&rows)]);
    let tables = extract_key_value_tables(&page, "div", "space_0", "tr", "td").unwrap();
    assert_eq!(tables.len(), 1);
    assert_eq!(tables[0].get("key0"), Some(&"value0".to_string()));
    assert_eq!(tables[0].get("key170"), Some(&"value170".to_string()));
}
