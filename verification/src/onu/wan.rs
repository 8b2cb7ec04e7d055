//! The connections to the outside, as the status pages show them.
//!
//! Each connection is shown as a table of labels and values. The label
//! `模式` tells the mode of the connection, and the mode tells which other
//! labels the table has.

use vstd::prelude::*;
use crate::onu::context::{received, Context};
use crate::onu::dom::{extract_key_value_tables, key_value_tables, value_of, KeyValueTable};
use crate::onu::error::{result_model, Malformed, OnuError, OnuErrorModel};
use crate::onu::records::{lemma_records_stop, lemma_records_upto, records_upto};
use crate::text::{same_text};

verus! {

/// The addresses of a connection, as the page shows them.
#[derive(Debug, Clone, PartialEq, Eq)]
pub struct WanIpInfo {
    /// Whether the router stands in for the local machines, under the label
    /// `NAT`.
    pub nat: String,
    /// The address of the connection, under the label `IP`.
    pub ip: String,
    /// The first name server, under the label `DNS1`.
    pub dns1: String,
    /// The second name server, under the label `DNS2`.
    pub dns2: String,
    /// The third name server, under the label `DNS3`.
    pub dns3: String,
    /// The address of the network card, under the label `WAN MAC`.
    pub mac: String,
    /// The gateway, under the label `网关`.
    pub gateway: String,
}

/// The model of a `WanIpInfo`.
pub struct WanIpInfoModel {
    pub nat: Seq<char>,
    pub ip: Seq<char>,
    pub dns1: Seq<char>,
    pub dns2: Seq<char>,
    pub dns3: Seq<char>,
    pub mac: Seq<char>,
    pub gateway: Seq<char>,
}

impl DeepView for WanIpInfo {
    type V = WanIpInfoModel;

    open spec fn deep_view(&self) -> WanIpInfoModel {
        WanIpInfoModel {
            nat: self.nat@,
            ip: self.ip@,
            dns1: self.dns1@,
            dns2: self.dns2@,
            dns3: self.dns3@,
            mac: self.mac@,
            gateway: self.gateway@,
        }
    }
}

/// A connection to the outside, by its mode.
#[derive(Debug, Clone, PartialEq, Eq)]
pub enum WanInfo {
    /// A connection that dials in; its mode is shown as `PPPoE`.
    PPPoE {
        /// The name, under the label `连接名称`.
        name: String,
        /// The addresses.
        ip_info: WanIpInfo,
        /// The state, under the label `连接状态`.
        status: String,
        /// Why the connection is down, under the label `断开原因`.
        error_reason: String,
        /// How long the connection has been up, under the label `在线时长`.
        uptime: String,
    },
    /// A connection that is given its address; its mode is shown as `DHCP`.
    DHCP {
        /// The name, under the label `连接名称`.
        name: String,
        /// The addresses.
        ip_info: WanIpInfo,
        /// The state, under the label `连接状态`.
        status: String,
        /// How long the address still holds, under the label `剩余租期`.
        lease_time: String,
    },
    /// A bridged connection; its mode is shown as `桥接`.
    Bridge {
        /// The name, under the label `连接名称`.
        name: String,
    },
}

/// The model of a `WanInfo`.
pub enum WanInfoModel {
    PPPoE {
        name: Seq<char>,
        ip_info: WanIpInfoModel,
        status: Seq<char>,
        error_reason: Seq<char>,
        uptime: Seq<char>,
    },
    DHCP { name: Seq<char>, ip_info: WanIpInfoModel, status: Seq<char>, lease_time: Seq<char> },
    Bridge { name: Seq<char> },
}

impl DeepView for WanInfo {
    type V = WanInfoModel;

    open spec fn deep_view(&self) -> WanInfoModel {
        match self {
            WanInfo::PPPoE { name, ip_info, status, error_reason, uptime } => WanInfoModel::PPPoE {
                name: name@,
                ip_info: ip_info.deep_view(),
                status: status@,
                error_reason: error_reason@,
                uptime: uptime@,
            },
            WanInfo::DHCP { name, ip_info, status, lease_time } => WanInfoModel::DHCP {
                name: name@,
                ip_info: ip_info.deep_view(),
                status: status@,
                lease_time: lease_time@,
            },
            WanInfo::Bridge { name } => WanInfoModel::Bridge { name: name@ },
        }
    }
}

/// A connection of the newer address family, as the page shows it.
#[derive(Debug, Clone, PartialEq, Eq)]
pub struct Wan6Info {
    /// The name, under the label `PPP`.
    pub name: String,
    /// How the global address is got, under the label `GUA获取方式`.
    pub gua_assignment: String,
    /// The global address, under the label `GUA`.
    pub gua: String,
    /// How the name servers are got, under the label `DNS获取方式`.
    pub dns_assignment: String,
    /// The first name server, under the label `DNS1`.
    pub dns1: String,
    /// The second name server, under the label `DNS2`.
    pub dns2: String,
    /// The third name server, under the label `DNS3`.
    pub dns3: String,
    /// The address of the network card, under the label `WAN MAC`.
    pub wan_mac: String,
    /// How the prefix is got, under the label `前缀获取方式`.
    pub prefix_assignment: String,
    /// The prefix, under the label `获取前缀`.
    pub prefix: String,
    /// How the gateway is got, under the label `网关获取方式`.
    pub gateway_assignment: String,
    /// The gateway, under the label `网关`.
    pub gateway: String,
    /// The state, under the label `连接状态`.
    pub status: String,
}

/// The model of a `Wan6Info`.
pub struct Wan6InfoModel {
    pub name: Seq<char>,
    pub gua_assignment: Seq<char>,
    pub gua: Seq<char>,
    pub dns_assignment: Seq<char>,
    pub dns1: Seq<char>,
    pub dns2: Seq<char>,
    pub dns3: Seq<char>,
    pub wan_mac: Seq<char>,
    pub prefix_assignment: Seq<char>,
    pub prefix: Seq<char>,
    pub gateway_assignment: Seq<char>,
    pub gateway: Seq<char>,
    pub status: Seq<char>,
}

impl DeepView for Wan6Info {
    type V = Wan6InfoModel;

    open spec fn deep_view(&self) -> Wan6InfoModel {
        Wan6InfoModel {
            name: self.name@,
            gua_assignment: self.gua_assignment@,
            gua: self.gua@,
            dns_assignment: self.dns_assignment@,
            dns1: self.dns1@,
            dns2: self.dns2@,
            dns3: self.dns3@,
            wan_mac: self.wan_mac@,
            prefix_assignment: self.prefix_assignment@,
            prefix: self.prefix@,
            gateway_assignment: self.gateway_assignment@,
            gateway: self.gateway@,
            status: self.status@,
        }
    }
}

/// The addresses that `table` shows; what it does not show is empty.
pub open spec fn ip_info_of(table: Map<Seq<char>, Seq<char>>) -> WanIpInfoModel {
    WanIpInfoModel {
        nat: value_of(table, "NAT"@),
        ip: value_of(table, "IP"@),
        dns1: value_of(table, "DNS1"@),
        dns2: value_of(table, "DNS2"@),
        dns3: value_of(table, "DNS3"@),
        mac: value_of(table, "WAN MAC"@),
        gateway: value_of(table, "网关"@),
    }
}

/// The connection that `table` shows, by the mode that it shows; a table
/// without a mode, or with a mode that is none of the three, shows none.
pub open spec fn wan_info_of(table: Map<Seq<char>, Seq<char>>) -> Result<WanInfoModel, Malformed> {
    if !table.contains_key("模式"@) {
        Err(Malformed::WanMode)
    } else if table["模式"@] == "PPPoE"@ {
        Ok(
            WanInfoModel::PPPoE {
                name: value_of(table, "连接名称"@),
                ip_info: ip_info_of(table),
                status: value_of(table, "连接状态"@),
                error_reason: value_of(table, "断开原因"@),
                uptime: value_of(table, "在线时长"@),
            },
        )
    } else if table["模式"@] == "DHCP"@ {
        Ok(
            WanInfoModel::DHCP {
                name: value_of(table, "连接名称"@),
                ip_info: ip_info_of(table),
                status: value_of(table, "连接状态"@),
                lease_time: value_of(table, "剩余租期"@),
            },
        )
    } else if table["模式"@] == "桥接"@ {
        Ok(WanInfoModel::Bridge { name: value_of(table, "连接名称"@) })
    } else {
        Err(Malformed::WanMode)
    }
}

/// How the connection of each of `tables` is read.
pub open spec fn wan_reader(tables: Seq<Map<Seq<char>, Seq<char>>>) -> spec_fn(nat) -> Result<
    WanInfoModel,
    Malformed,
> {
    |i: nat| wan_info_of(tables[i as int])
}

/// The connections that `tables` show, one each and in order; none where one
/// of the tables shows a mode that is not known.
pub open spec fn wan_infos_of(tables: Seq<Map<Seq<char>, Seq<char>>>) -> Result<
    Seq<WanInfoModel>,
    OnuErrorModel,
> {
    match records_upto(tables.len(), wan_reader(tables)) {
        Ok(list) => Ok(list),
        Err(e) => Err(OnuErrorModel::Parse(e)),
    }
}

/// The connection of the newer address family that `table` shows; what it
/// does not show is empty.
pub open spec fn wan6_info_of(table: Map<Seq<char>, Seq<char>>) -> Wan6InfoModel {
    Wan6InfoModel {
        name: value_of(table, "PPP"@),
        gua_assignment: value_of(table, "GUA获取方式"@),
        gua: value_of(table, "GUA"@),
        dns_assignment: value_of(table, "DNS获取方式"@),
        dns1: value_of(table, "DNS1"@),
        dns2: value_of(table, "DNS2"@),
        dns3: value_of(table, "DNS3"@),
        wan_mac: value_of(table, "WAN MAC"@),
        prefix_assignment: value_of(table, "前缀获取方式"@),
        prefix: value_of(table, "获取前缀"@),
        gateway_assignment: value_of(table, "网关获取方式"@),
        gateway: value_of(table, "网关"@),
        status: value_of(table, "连接状态"@),
    }
}

/// The tables of a status page: one for each `div` of the class `space_0`,
/// made of its rows `tr` with their cells `td`; none for a page that cannot
/// be parsed.
pub open spec fn status_tables(page: Seq<char>) -> Result<
    Seq<Map<Seq<char>, Seq<char>>>,
    Malformed,
> {
    key_value_tables(page, "div"@, "space_0"@, "tr"@, "td"@)
}

/// The connections that the status page `page` shows.
pub open spec fn wan_page(page: Seq<char>) -> Result<Seq<WanInfoModel>, OnuErrorModel> {
    match status_tables(page) {
        Ok(tables) => wan_infos_of(tables),
        Err(e) => Err(OnuErrorModel::Parse(e)),
    }
}

/// The connections of the newer address family that the status page `page`
/// shows.
pub open spec fn wan6_page(page: Seq<char>) -> Result<Seq<Wan6InfoModel>, OnuErrorModel> {
    match status_tables(page) {
        Ok(tables) => Ok(tables.map_values(|table: Map<Seq<char>, Seq<char>>| wan6_info_of(table))),
        Err(e) => Err(OnuErrorModel::Parse(e)),
    }
}

/// The mode decides what a table is read as. A table that shows the mode
/// `PPPoE` with a name and a state is read as a connection that dials in,
/// with that name and state, and what the table does not show is empty; a
/// table that shows the mode `桥接` is read as a bridged connection with its
/// name alone; a table without a mode, or with a mode that is none of the
/// three, is not read.
pub proof fn lemma_wan_mode_dispatch(table: Map<Seq<char>, Seq<char>>)
    ensures
        table.contains_key("模式"@) && table["模式"@] == "PPPoE"@ ==> wan_info_of(table) == Ok::<
            WanInfoModel,
            Malformed,
        >(
            WanInfoModel::PPPoE {
                name: value_of(table, "连接名称"@),
                ip_info: ip_info_of(table),
                status: value_of(table, "连接状态"@),
                error_reason: value_of(table, "断开原因"@),
                uptime: value_of(table, "在线时长"@),
            },
        ),
        table.contains_key("模式"@) && table["模式"@] == "DHCP"@ ==> wan_info_of(table) == Ok::<
            WanInfoModel,
            Malformed,
        >(
            WanInfoModel::DHCP {
                name: value_of(table, "连接名称"@),
                ip_info: ip_info_of(table),
                status: value_of(table, "连接状态"@),
                lease_time: value_of(table, "剩余租期"@),
            },
        ),
        table.contains_key("模式"@) && table["模式"@] == "桥接"@ ==> wan_info_of(table) == Ok::<
            WanInfoModel,
            Malformed,
        >(WanInfoModel::Bridge { name: value_of(table, "连接名称"@) }),
        !table.contains_key("模式"@) || (table["模式"@] != "PPPoE"@ && table["模式"@] != "DHCP"@
            && table["模式"@] != "桥接"@) ==> wan_info_of(table) == Err::<WanInfoModel, Malformed>(
            Malformed::WanMode,
        ),
{
    reveal_strlit("PPPoE");
    reveal_strlit("DHCP");
    reveal_strlit("桥接");
    assert("PPPoE"@.len() != "DHCP"@.len());
    assert("PPPoE"@.len() != "桥接"@.len());
    assert("DHCP"@.len() != "桥接"@.len());
}

/// A status page whose tables all show a mode that is known gives as many
/// connections as it has tables, in the order of the tables, each read from
/// its own table.
pub proof fn lemma_wan_page_total(page: Seq<char>)
    requires
        status_tables(page) is Ok,
        forall|j: int|
            0 <= j < status_tables(page)->Ok_0.len() ==> wan_info_of(
                #[trigger] status_tables(page)->Ok_0[j],
            ) is Ok,
    ensures
        wan_page(page) is Ok,
        wan_page(page)->Ok_0.len() == status_tables(page)->Ok_0.len(),
        forall|j: int|
            0 <= j < status_tables(page)->Ok_0.len() ==> wan_info_of(
                status_tables(page)->Ok_0[j],
            ) == Ok::<WanInfoModel, Malformed>(#[trigger] wan_page(page)->Ok_0[j]),
{
    let tables = status_tables(page)->Ok_0;
    lemma_records_upto(tables.len(), wan_reader(tables));
    match records_upto(tables.len(), wan_reader(tables)) {
        Ok(list) => {
            assert forall|j: int| 0 <= j < tables.len() implies wan_info_of(tables[j]) == Ok::<
                WanInfoModel,
                Malformed,
            >(#[trigger] list[j]) by {
                assert(wan_reader(tables)(j as nat) == Ok::<WanInfoModel, Malformed>(
                    list[j as nat as int],
                ));
            }
        },
        Err(e) => {
            let i = choose|i: nat|
                i < tables.len() && #[trigger] wan_reader(tables)(i) == Err::<
                    WanInfoModel,
                    Malformed,
                >(e);
            assert(wan_info_of(tables[i as int]) is Ok);
        },
    }
}

impl WanIpInfo {
    /// The addresses that the table `dict` shows.
    pub fn from_dict(dict: &KeyValueTable) -> (info: WanIpInfo)
        ensures
            info.deep_view() == ip_info_of(dict.deep_view()),
    {
        WanIpInfo {
            nat: dict.text("NAT"),
            ip: dict.text("IP"),
            dns1: dict.text("DNS1"),
            dns2: dict.text("DNS2"),
            dns3: dict.text("DNS3"),
            mac: dict.text("WAN MAC"),
            gateway: dict.text("网关"),
        }
    }
}

impl WanInfo {
    /// The connection that `table` shows.
    pub fn from_table(table: &KeyValueTable) -> (info: Result<WanInfo, Malformed>)
        ensures
            result_model(info) == wan_info_of(table.deep_view()),
    {
        let mode: &String = match table.get("模式") {
            Some(mode) => mode,
            None => { return Err(Malformed::WanMode); },
        };
        if same_text(mode.as_str(), "PPPoE") {
            Ok(
                WanInfo::PPPoE {
                    name: table.text("连接名称"),
                    ip_info: WanIpInfo::from_dict(table),
                    status: table.text("连接状态"),
                    error_reason: table.text("断开原因"),
                    uptime: table.text("在线时长"),
                },
            )
        } else if same_text(mode.as_str(), "DHCP") {
            Ok(
                WanInfo::DHCP {
                    name: table.text("连接名称"),
                    ip_info: WanIpInfo::from_dict(table),
                    status: table.text("连接状态"),
                    lease_time: table.text("剩余租期"),
                },
            )
        } else if same_text(mode.as_str(), "桥接") {
            Ok(WanInfo::Bridge { name: table.text("连接名称") })
        } else {
            Err(Malformed::WanMode)
        }
    }
}

impl Wan6Info {
    /// The connection that `table` shows.
    pub fn from_table(table: &KeyValueTable) -> (info: Wan6Info)
        ensures
            info.deep_view() == wan6_info_of(table.deep_view()),
    {
        Wan6Info {
            name: table.text("PPP"),
            gua_assignment: table.text("GUA获取方式"),
            gua: table.text("GUA"),
            dns_assignment: table.text("DNS获取方式"),
            dns1: table.text("DNS1"),
            dns2: table.text("DNS2"),
            dns3: table.text("DNS3"),
            wan_mac: table.text("WAN MAC"),
            prefix_assignment: table.text("前缀获取方式"),
            prefix: table.text("获取前缀"),
            gateway_assignment: table.text("网关获取方式"),
            gateway: table.text("网关"),
            status: table.text("连接状态"),
        }
    }
}

/// Reads the connections that `tables` show.
pub fn wan_infos(tables: &Vec<KeyValueTable>) -> (infos: Result<Vec<WanInfo>, OnuError>)
    ensures
        result_model(infos) == wan_infos_of(tables.deep_view()),
{
    let mut list: Vec<WanInfo> = Vec::new();
    let mut i: usize = 0;
    assert(list.deep_view() =~= Seq::empty());
    while i < tables.len()
        invariant
            i <= tables.len(),
            records_upto(i as nat, wan_reader(tables.deep_view())) == Ok::<
                Seq<WanInfoModel>,
                Malformed,
            >(list.deep_view()),
        decreases tables.len() - i,
    {
        assert(tables.deep_view()[i as int] == tables[i as int].deep_view());
        match WanInfo::from_table(&tables[i]) {
            Ok(info) => {
                let ghost before = list.deep_view();
                list.push(info);
                assert(list.deep_view() =~= before.push(info.deep_view()));
            },
            Err(e) => {
                proof {
                    lemma_records_stop(
                        tables.len() as nat,
                        i as nat,
                        wan_reader(tables.deep_view()),
                    );
                }
                return Err(OnuError::Parse(e));
            },
        }
        i += 1;
    }
    Ok(list)
}

/// Reads the connections of the newer address family that `tables` show.
pub fn wan6_infos(tables: &Vec<KeyValueTable>) -> (infos: Vec<Wan6Info>)
    ensures
        infos.deep_view() == tables.deep_view().map_values(
            |table: Map<Seq<char>, Seq<char>>| wan6_info_of(table),
        ),
{
    let mut list: Vec<Wan6Info> = Vec::new();
    let mut i: usize = 0;
    while i < tables.len()
        invariant
            i <= tables.len(),
            list.len() == i,
            forall|k: int|
                0 <= k < i ==> (#[trigger] list[k]).deep_view() == wan6_info_of(
                    tables[k].deep_view(),
                ),
        decreases tables.len() - i,
    {
        list.push(Wan6Info::from_table(&tables[i]));
        i += 1;
    }
    assert(list.deep_view() =~= tables.deep_view().map_values(
        |table: Map<Seq<char>, Seq<char>>| wan6_info_of(table),
    ));
    list
}

impl Context {
    /// Takes in the status page of the connections, and reads the
    /// connections that it shows.
    pub fn wan_info(&mut self, page: &str) -> (infos: Result<Vec<WanInfo>, OnuError>)
        ensures
            final(self).deep_view() == received(old(self).deep_view(), page@),
            result_model(infos) == wan_page(page@),
    {
        let _ = self.receive(page);
        match extract_key_value_tables(page, "div", "space_0", "tr", "td") {
            Ok(tables) => wan_infos(&tables),
            Err(e) => Err(OnuError::Parse(e)),
        }
    }

    /// Takes in the status page of the connections of the newer address
    /// family, and reads the connections that it shows.
    pub fn wan6_info(&mut self, page: &str) -> (infos: Result<Vec<Wan6Info>, OnuError>)
        ensures
            final(self).deep_view() == received(old(self).deep_view(), page@),
            result_model(infos) == wan6_page(page@),
    {
        let _ = self.receive(page);
        match extract_key_value_tables(page, "div", "space_0", "tr", "td") {
            Ok(tables) => Ok(wan6_infos(&tables)),
            Err(e) => Err(OnuError::Parse(e)),
        }
    }
}

} // verus!
