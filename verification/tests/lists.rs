use onu_admin::onu::records::{read_count, read_field_at, read_text_at};
use onu_admin::onu::wanc::{merge_entry, merge_listed, wanc_from_options};
use onu_admin::onu::{Context, LanInfo, Malformed, OnuError, Session, WancInfo};

fn call(field: &str, value: &str) -> String {
    format!("Transfer_meaning('{}','{}');\n", field, value)
}

fn chars(s: &str) -> Vec<char> {
    s.chars().collect()
}

fn lan(i: usize) -> LanInfo {
    LanInfo {
        name: format!("host{}", i),
        mac: format!("aa:bb:cc:dd:ee:0{}", i),
        ip: format!("192.168.1.{}", i + 2),
        lease_time: format!("{}", 58473 + i),
        interface: format!("LAN{}", i + 1),
    }
}

fn lan_page(count: usize, declared: &str) -> String {
    let mut page = String::new();
    for i in 0..count {
        let info = lan(i);
        page.push_str(&call(&format!("HostName{}", i), &info.name));
        page.push_str(&call(&format!("MACAddr{}", i), &info.mac.replace(':', "\\x3a")));
        page.push_str(&call(&format!("IPAddr{}", i), &info.ip.replace('.', "\\x2e")));
        page.push_str(&call(&format!("ExpiredTime{}", i), &info.lease_time));
        page.push_str(&call(&format!("PhyPortName{}", i), &info.interface));
    }
    page.push_str(&call("IF_INSTNUM", declared));
    page
}

fn wanc(name: &str, view_name: &str, desc_name: &str, ipmode: isize) -> WancInfo {
    WancInfo {
        name: name.to_string(),
        view_name: view_name.to_string(),
        desc_name: desc_name.to_string(),
        ipmode,
    }
}

#[test]
fn lan_list_has_as_many_records_as_declared() {
    let mut context = Context::new("http://192.168.1.1");
    assert_eq!(context.lan_info(&lan_page(3, "3")), Ok(vec![lan(0), lan(1), lan(2)]));
    assert_eq!(context.lan_info(&lan_page(12, "12")).map(|list| list.len()), Ok(12));
    assert_eq!(Context::parse_lan_info(&lan_page(12, "12")).unwrap()[11], lan(11));
    assert_eq!(context.lan_info(&lan_page(3, "2")), Ok(vec![lan(0), lan(1)]));
    assert_eq!(context.lan_info(&lan_page(3, "0")), Ok(vec![]));
    let empty = LanInfo {
        name: String::new(),
        mac: String::new(),
        ip: String::new(),
        lease_time: String::new(),
        interface: String::new(),
    };
    assert_eq!(context.lan_info(&lan_page(1, "2")), Ok(vec![lan(0), empty]));
}

#[test]
fn lan_list_fails_without_a_count() {
    let mut context = Context::new("http://192.168.1.1");
    assert_eq!(context.lan_info(&lan_page(1, "x")), Err(OnuError::Parse(Malformed::Count)));
    assert_eq!(context.lan_info(""), Err(OnuError::Parse(Malformed::Count)));
    assert_eq!(
        context.lan_info(&call("HostName0", "h")),
        Err(OnuError::Parse(Malformed::Count))
    );
    assert_eq!(
        context.lan_info(&lan_page(0, "99999999999999999999999")),
        Err(OnuError::Parse(Malformed::Count))
    );
}

#[test]
fn lan_page_brings_a_session() {
    let mut context = Context::new("http://192.168.1.1");
    let page = format!(
        "var session_token = \"abc\";\nfunction getURL(){{var ret = \"next.gch?\";}}\n{}",
        lan_page(1, "1")
    );
    assert_eq!(context.lan_info(&page), Ok(vec![lan(0)]));
    assert_eq!(context.session, Some(Session::new("next.gch?".to_string(), "abc".to_string())));
}

#[test]
fn records_are_read_by_position() {
    let body = chars(&format!("{}{}{}", call("Name1", "one"), call("Name11", "eleven"), call("IF_INSTNUM", "+12")));
    assert_eq!(read_count(&body), Some(12));
    assert_eq!(read_text_at(&body, "Name", 1), "one");
    assert_eq!(read_text_at(&body, "Name", 11), "eleven");
    assert_eq!(read_text_at(&body, "Name", 0), "");
    assert_eq!(read_field_at(&body, "Name", 0), None);
    assert_eq!(read_field_at(&body, "Name", 1), Some(chars("one")));
    assert_eq!(read_count(&chars("")), None);
}

const OPTIONS: &str = "<html><body><form>\
    <select name=\"Frm_WANCViewName\" id=\"Frm_WANCViewName\" size=\"1\" class=\"list_13\">\
    <option value=\"IGD.WD1.WCD3.WCPPP1\" ipmode=\"3\" >&#51;&#95;&#73;&#78;&#84;&#69;&#82;&#78;&#69;&#84;&#95;&#82;&#95;&#86;&#73;&#68;&#95;</option>\
    <option value=\"IGD.WD1.WCD1.WCIP1\" ipmode=\"-1\">1_TR069</option>\
    </select>\
    <select id=\"Other\"><option value=\"x\" ipmode=\"1\">other</option></select>\
    </form></body></html>";

#[test]
fn options_and_records_are_put_together() {
    let page = format!(
        "{}<script>{}{}{}{}{}{}{}</script>",
        OPTIONS,
        call("WANCName0", "internal0"),
        call("WANCViewName0", "IGD\\x2eWD1\\x2eWCD3\\x2eWCPPP1"),
        call("ViewName0", "3\\x5fINTERNET"),
        call("WANCName1", "internal1"),
        call("WANCViewName1", "IGD\\x2eWD1\\x2eWCD2\\x2eWCIP1"),
        call("ViewName1", "2\\x5fOther"),
        call("IF_INSTNUM", "2"),
    );
    let mut context = Context::new("http://192.168.1.1");
    assert_eq!(
        context.wanc_info(&page),
        Ok(vec![
            wanc("3_INTERNET_R_VID_", "IGD.WD1.WCD3.WCPPP1", "3_INTERNET", 3),
            wanc("1_TR069", "IGD.WD1.WCD1.WCIP1", "", -1),
            wanc("internal1", "IGD.WD1.WCD2.WCIP1", "2_Other", -1),
        ])
    );
    let other = OPTIONS.replace("id=\"Other\"", "id=\"Frm_WANCViewName\"");
    let all = Context::parse_wanc_info(&format!("{}{}", other, call("IF_INSTNUM", "0"))).unwrap();
    assert_eq!(all.len(), 3);
    assert_eq!(all[2], wanc("other", "x", "", 1));
    assert_eq!(Context::parse_wanc_info(&page), context.wanc_info(&page));
}

#[test]
fn wanc_list_fails_on_a_bad_mode_or_count() {
    let bad = "<select id=\"Frm_WANCViewName\"><option value=\"v\" ipmode=\"x\">n</option></select>";
    assert_eq!(
        Context::parse_wanc_info(&format!("{}{}", bad, call("IF_INSTNUM", "0"))),
        Err(OnuError::Parse(Malformed::IpMode))
    );
    let none = "<select id=\"Frm_WANCViewName\"><option value=\"v\">n</option></select>";
    assert_eq!(
        Context::parse_wanc_info(&format!("{}{}", none, call("IF_INSTNUM", "0"))),
        Err(OnuError::Parse(Malformed::IpMode))
    );
    assert_eq!(Context::parse_wanc_info(OPTIONS), Err(OnuError::Parse(Malformed::Count)));
    assert_eq!(Context::parse_wanc_info(&call("IF_INSTNUM", "0")), Ok(vec![]));
}

#[test]
fn options_become_connections() {
    let options = vec![
        ("n".to_string(), Some("v".to_string()), Some("+7".to_string())),
        ("m".to_string(), None, Some("-2".to_string())),
    ];
    assert_eq!(wanc_from_options(options), Ok(vec![wanc("n", "v", "", 7), wanc("m", "", "", -2)]));
    let bad = vec![("n".to_string(), Some("v".to_string()), Some("".to_string()))];
    assert_eq!(wanc_from_options(bad), Err(Malformed::IpMode));
    assert_eq!(wanc_from_options(vec![]), Ok(vec![]));
}

#[test]
fn a_record_fills_the_first_connection_of_its_view_name() {
    let mut list = vec![wanc("a", "v", "", 1), wanc("b", "v", "", 2), wanc("c", "w", "shown", 3)];
    merge_entry(&mut list, wanc("x", "v", "first", -1));
    assert_eq!(
        list,
        vec![wanc("a", "v", "first", 1), wanc("b", "v", "", 2), wanc("c", "w", "shown", 3)]
    );
    merge_entry(&mut list, wanc("x", "v", "second", -1));
    merge_entry(&mut list, wanc("y", "w", "other", -1));
    assert_eq!(
        list,
        vec![wanc("a", "v", "first", 1), wanc("b", "v", "", 2), wanc("c", "w", "shown", 3)]
    );
    merge_entry(&mut list, wanc("z", "u", "new", -1));
    assert_eq!(list.len(), 4);
    assert_eq!(list[3], wanc("z", "u", "new", -1));
    let body = chars(&format!(
        "{}{}{}",
        call("WANCViewName0", "u"),
        call("ViewName0", "again"),
        call("IF_INSTNUM", "2")
    ));
    let merged = merge_listed(list.clone(), &body).unwrap();
    assert_eq!(merged.len(), 5);
    assert_eq!(merged[3], wanc("z", "u", "new", -1));
    assert_eq!(merged[4], wanc("", "", "", -1));
    assert_eq!(merge_listed(list, &chars("")), Err(OnuError::Parse(Malformed::Count)));
}
