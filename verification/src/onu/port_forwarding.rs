//! Port forwarding rules: what they are, and how they are written for the
//! router and read from its pages.
//!
//! The router knows a rule by its position in the list, not by its name. A
//! position holds only until the list changes: who wants to change or delete
//! a rule by name has to look the position up in a list read just before.

use vstd::prelude::*;
use vstd::string::StringExecFns;
use crate::onu::context::Context;
use crate::onu::error::{result_model, Malformed, OnuError, OnuErrorModel};
use crate::onu::records::{
    declared_count, field_at, indexed, lemma_records_stop, lemma_records_upto, read_count,
    read_field_at, read_text_at, records_upto, text_at,
};
use crate::onu::token_call::transfer_meaning;
use crate::text::{
    chars_of, decimal, decimal_of, digits_value, has_char, is_canonical, lemma_canonical_decimal,
    lemma_decimal_value, lemma_digit, lowercase, parse_unsigned, same, same_text, string_of,
    to_lowercase, unsigned_value,
};

verus! {

/// The protocol that a rule forwards.
#[derive(Debug, Clone, Copy, PartialEq, Eq)]
pub enum PortForwardingProtocol {
    TCP,
    UDP,
    Both,
}

impl DeepView for PortForwardingProtocol {
    type V = PortForwardingProtocol;

    open spec fn deep_view(&self) -> PortForwardingProtocol {
        *self
    }
}

/// What to do with a rule.
#[derive(Debug, Clone, PartialEq, Eq)]
pub enum PortForwardingAction {
    /// Add a rule at the end of the list.
    New,
    /// Put a rule in the place of the one at this position.
    Apply(u32),
    /// Delete the rule at this position.
    Delete(u32),
    /// Delete the first rule with this name.
    DeleteByName(String),
}

/// The model of a `PortForwardingAction`.
pub enum PortForwardingActionModel {
    New,
    Apply(u32),
    Delete(u32),
    DeleteByName(Seq<char>),
}

impl DeepView for PortForwardingAction {
    type V = PortForwardingActionModel;

    open spec fn deep_view(&self) -> PortForwardingActionModel {
        match self {
            PortForwardingAction::New => PortForwardingActionModel::New,
            PortForwardingAction::Apply(i) => PortForwardingActionModel::Apply(*i),
            PortForwardingAction::Delete(i) => PortForwardingActionModel::Delete(*i),
            PortForwardingAction::DeleteByName(name) => PortForwardingActionModel::DeleteByName(
                name@,
            ),
        }
    }
}

/// The machine on the local side that a rule forwards to.
#[derive(Debug, Clone, PartialEq, Eq)]
pub enum PortForwardingHost {
    /// A machine known by its address; written as `InternalHost`, with
    /// `MacEnable` off.
    Host(String),
    /// A machine known by the address of its network card; written as
    /// `InternalMacHost`, with `MacEnable` on.
    Mac(String),
}

/// The model of a `PortForwardingHost`.
pub enum PortForwardingHostModel {
    Host(Seq<char>),
    Mac(Seq<char>),
}

impl DeepView for PortForwardingHost {
    type V = PortForwardingHostModel;

    open spec fn deep_view(&self) -> PortForwardingHostModel {
        match self {
            PortForwardingHost::Host(s) => PortForwardingHostModel::Host(s@),
            PortForwardingHost::Mac(s) => PortForwardingHostModel::Mac(s@),
        }
    }
}

/// The ports that a rule forwards.
#[derive(Debug, Clone, Copy, PartialEq, Eq)]
#[allow(inconsistent_fields)]
pub enum PortForwardingPort {
    /// One port, the same on both sides.
    Simple(u32),
    /// One port on the router's side, forwarded to another on the local side.
    Transform { remote: u32, local: u32 },
    /// A range of ports on the router's side, forwarded to a range on the
    /// local side; each range by its first and last port.
    Multiple { remote: (u32, u32), local: (u32, u32) },
}

/// The four ports that the router is told for `port`.
pub struct PortRanges {
    pub remote_min: u32,
    pub remote_max: u32,
    pub local_min: u32,
    pub local_max: u32,
}

/// The four ports that `port` stands for.
pub open spec fn ranges_of(port: PortForwardingPort) -> PortRanges {
    match port {
        PortForwardingPort::Simple(p) => PortRanges {
            remote_min: p,
            remote_max: p,
            local_min: p,
            local_max: p,
        },
        PortForwardingPort::Transform { remote, local } => PortRanges {
            remote_min: remote,
            remote_max: remote,
            local_min: local,
            local_max: local,
        },
        PortForwardingPort::Multiple { remote, local } => PortRanges {
            remote_min: remote.0,
            remote_max: remote.1,
            local_min: local.0,
            local_max: local.1,
        },
    }
}

/// The name under which a protocol is shown.
pub open spec fn protocol_name(protocol: PortForwardingProtocol) -> Seq<char> {
    match protocol {
        PortForwardingProtocol::TCP => "TCP"@,
        PortForwardingProtocol::UDP => "UDP"@,
        PortForwardingProtocol::Both => "TCP/UDP"@,
    }
}

/// The protocol that `name` names, in capital or small letters: `tcp`,
/// `udp`, and for both `both`, `tcp/udp` or `udp/tcp`. Only the letters from
/// `A` to `Z` are made small for this; no other character becomes a letter
/// of these names when it is made small.
pub open spec fn protocol_named(name: Seq<char>) -> Option<PortForwardingProtocol> {
    let small = lowercase(name);
    if small == "tcp"@ {
        Some(PortForwardingProtocol::TCP)
    } else if small == "udp"@ {
        Some(PortForwardingProtocol::UDP)
    } else if small == "both"@ || small == "tcp/udp"@ || small == "udp/tcp"@ {
        Some(PortForwardingProtocol::Both)
    } else {
        None
    }
}

/// The machine that `text` names: one known by the address of its network
/// card where `text` holds a colon, one known by its address otherwise.
pub open spec fn host_named(text: Seq<char>) -> PortForwardingHostModel {
    if text.contains(':') {
        PortForwardingHostModel::Mac(text)
    } else {
        PortForwardingHostModel::Host(text)
    }
}

impl PortForwardingProtocol {
    /// The name under which the protocol is shown.
    pub fn to_string(&self) -> (name: String)
        ensures
            name@ == protocol_name(*self),
    {
        match self {
            PortForwardingProtocol::TCP => String::from_str("TCP"),
            PortForwardingProtocol::UDP => String::from_str("UDP"),
            PortForwardingProtocol::Both => String::from_str("TCP/UDP"),
        }
    }

    /// The protocol that `s` names.
    pub fn from_str(s: &str) -> (protocol: Result<PortForwardingProtocol, &'static str>)
        ensures
            match protocol {
                Ok(p) => protocol_named(s@) == Some(p),
                Err(why) => protocol_named(s@) is None && why@ == "unknown protocol"@,
            },
    {
        let small: Vec<char> = to_lowercase(chars_of(s).as_slice());
        if same(small.as_slice(), chars_of("tcp").as_slice()) {
            Ok(PortForwardingProtocol::TCP)
        } else if same(small.as_slice(), chars_of("udp").as_slice()) {
            Ok(PortForwardingProtocol::UDP)
        } else if same(small.as_slice(), chars_of("both").as_slice()) || same(
            small.as_slice(),
            chars_of("tcp/udp").as_slice(),
        ) || same(small.as_slice(), chars_of("udp/tcp").as_slice()) {
            Ok(PortForwardingProtocol::Both)
        } else {
            Err("unknown protocol")
        }
    }
}

impl PortForwardingPort {
    /// The four ports that the router is told.
    pub fn ranges(&self) -> (r: PortRanges)
        ensures
            r == ranges_of(*self),
    {
        match self {
            PortForwardingPort::Simple(p) => PortRanges {
                remote_min: *p,
                remote_max: *p,
                local_min: *p,
                local_max: *p,
            },
            PortForwardingPort::Transform { remote, local } => PortRanges {
                remote_min: *remote,
                remote_max: *remote,
                local_min: *local,
                local_max: *local,
            },
            PortForwardingPort::Multiple { remote, local } => PortRanges {
                remote_min: remote.0,
                remote_max: remote.1,
                local_min: local.0,
                local_max: local.1,
            },
        }
    }
}

impl PortForwardingHost {
    /// The address of the machine, of either kind.
    pub fn to_string(&self) -> (address: String)
        ensures
            address@ == match self.deep_view() {
                PortForwardingHostModel::Host(s) => s,
                PortForwardingHostModel::Mac(s) => s,
            },
    {
        match self {
            PortForwardingHost::Host(s) => s.clone(),
            PortForwardingHost::Mac(s) => s.clone(),
        }
    }

    /// The machine that `s` names.
    pub fn from_str(s: &str) -> (host: Result<PortForwardingHost, &'static str>)
        ensures
            host matches Ok(h) && h.deep_view() == host_named(s@),
    {
        if has_char(chars_of(s).as_slice(), ':') {
            Ok(PortForwardingHost::Mac(String::from_str(s)))
        } else {
            Ok(PortForwardingHost::Host(String::from_str(s)))
        }
    }

    /// The address, where the machine is known by its address.
    pub fn as_host(&self) -> (r: Option<&str>)
        ensures
            r.deep_view() == match self.deep_view() {
                PortForwardingHostModel::Host(s) => Some(s),
                PortForwardingHostModel::Mac(_) => None,
            },
    {
        match self {
            PortForwardingHost::Host(s) => Some(s.as_str()),
            _ => None,
        }
    }

    /// The address of the network card, where the machine is known by that.
    pub fn as_mac(&self) -> (r: Option<&str>)
        ensures
            r.deep_view() == match self.deep_view() {
                PortForwardingHostModel::Mac(s) => Some(s),
                PortForwardingHostModel::Host(_) => None,
            },
    {
        match self {
            PortForwardingHost::Mac(s) => Some(s.as_str()),
            _ => None,
        }
    }

    /// Tells whether the machine is known by the address of its network card.
    pub fn is_mac(&self) -> (r: bool)
        ensures
            r == (self is Mac),
    {
        match self {
            PortForwardingHost::Mac(_) => true,
            _ => false,
        }
    }
}

/// A port forwarding rule, field by field as the router keeps it.
#[derive(Debug, Clone, PartialEq, Eq)]
pub struct PortForwardingParam {
    /// The rule is in force.
    pub enable: bool,
    /// The name of the rule.
    pub name: String,
    /// The protocol that is forwarded.
    pub protocol: PortForwardingProtocol,
    /// The connection that the rule listens on, by its view name, such as
    /// `IGD.WD1.WCD3.WCPPP1`.
    pub wan_interface: String,
    /// The first of the remote addresses that the rule lets in.
    pub remote_addr_min: Option<String>,
    /// The last of the remote addresses that the rule lets in.
    pub remote_addr_max: Option<String>,
    /// The first port of the range that the router listens on.
    pub remote_port_min: u32,
    /// The last port of the range that the router listens on.
    pub remote_port_max: u32,
    /// The address of the local machine.
    pub local_addr: Option<String>,
    /// The address of the network card of the local machine.
    pub local_mac: Option<String>,
    /// The local machine is the one of `local_mac`, not the one of
    /// `local_addr`.
    pub enable_local_mac: bool,
    /// The first port of the range that is forwarded to.
    pub local_port_min: u32,
    /// The last port of the range that is forwarded to.
    pub local_port_max: u32,
    /// A description of the rule.
    pub description: Option<String>,
    /// How long the rule holds.
    pub lease_duration: Option<String>,
    /// Who made the rule.
    pub port_map_creator: Option<String>,
}

/// The model of a `PortForwardingParam`.
pub struct PortForwardingParamModel {
    pub enable: bool,
    pub name: Seq<char>,
    pub protocol: PortForwardingProtocol,
    pub wan_interface: Seq<char>,
    pub remote_addr_min: Option<Seq<char>>,
    pub remote_addr_max: Option<Seq<char>>,
    pub remote_port_min: u32,
    pub remote_port_max: u32,
    pub local_addr: Option<Seq<char>>,
    pub local_mac: Option<Seq<char>>,
    pub enable_local_mac: bool,
    pub local_port_min: u32,
    pub local_port_max: u32,
    pub description: Option<Seq<char>>,
    pub lease_duration: Option<Seq<char>>,
    pub port_map_creator: Option<Seq<char>>,
}

impl DeepView for PortForwardingParam {
    type V = PortForwardingParamModel;

    open spec fn deep_view(&self) -> PortForwardingParamModel {
        PortForwardingParamModel {
            enable: self.enable,
            name: self.name@,
            protocol: self.protocol,
            wan_interface: self.wan_interface@,
            remote_addr_min: self.remote_addr_min.deep_view(),
            remote_addr_max: self.remote_addr_max.deep_view(),
            remote_port_min: self.remote_port_min,
            remote_port_max: self.remote_port_max,
            local_addr: self.local_addr.deep_view(),
            local_mac: self.local_mac.deep_view(),
            enable_local_mac: self.enable_local_mac,
            local_port_min: self.local_port_min,
            local_port_max: self.local_port_max,
            description: self.description.deep_view(),
            lease_duration: self.lease_duration.deep_view(),
            port_map_creator: self.port_map_creator.deep_view(),
        }
    }
}

/// How a switch is written: `1` for on, `0` for off.
pub open spec fn flag(on: bool) -> Seq<char> {
    if on {
        "1"@
    } else {
        "0"@
    }
}

/// How a protocol is written.
pub open spec fn protocol_code(protocol: PortForwardingProtocol) -> Seq<char> {
    match protocol {
        PortForwardingProtocol::TCP => "0"@,
        PortForwardingProtocol::UDP => "1"@,
        PortForwardingProtocol::Both => "2"@,
    }
}

/// How a text that may be missing is written: `NULL` where it is missing.
pub open spec fn optional(text: Option<Seq<char>>) -> Seq<char> {
    match text {
        Some(t) => t,
        None => "NULL"@,
    }
}

/// The fields of `rule` as a form carries them, in order.
pub open spec fn encoded(rule: PortForwardingParamModel) -> Seq<(Seq<char>, Seq<char>)> {
    seq![
        ("Enable"@, flag(rule.enable)),
        ("Name"@, rule.name),
        ("Protocol"@, protocol_code(rule.protocol)),
        ("WANCViewName"@, rule.wan_interface),
        ("MinRemoteHost"@, optional(rule.remote_addr_min)),
        ("MaxRemoteHost"@, optional(rule.remote_addr_max)),
        ("MinExtPort"@, decimal(rule.remote_port_min as nat)),
        ("MaxExtPort"@, decimal(rule.remote_port_max as nat)),
        ("InternalHost"@, optional(rule.local_addr)),
        ("InternalMacHost"@, optional(rule.local_mac)),
        ("MacEnable"@, flag(rule.enable_local_mac)),
        ("MinIntPort"@, decimal(rule.local_port_min as nat)),
        ("MaxIntPort"@, decimal(rule.local_port_max as nat)),
        ("Description"@, optional(rule.description)),
        ("LeaseDuration"@, optional(rule.lease_duration)),
        ("PortMappCreator"@, optional(rule.port_map_creator)),
    ]
}

/// The local machine of `rule` is given in the one way that its switch
/// names, and not in the other.
pub open spec fn target_agrees(rule: PortForwardingParamModel) -> bool {
    if rule.enable_local_mac {
        rule.local_mac is Some && rule.local_addr is None
    } else {
        rule.local_addr is Some && rule.local_mac is None
    }
}

/// The switch `name` of the record at `i` is on.
pub open spec fn flag_at(body: Seq<char>, name: Seq<char>, i: nat) -> bool {
    text_at(body, name, i) == "1"@
}

/// The text `name` of the record at `i`, where it is there and not `NULL`.
pub open spec fn optional_at(body: Seq<char>, name: Seq<char>, i: nat) -> Option<Seq<char>> {
    match field_at(body, name, i) {
        Some(text) => if text == "NULL"@ {
            None
        } else {
            Some(text)
        },
        None => None,
    }
}

/// The port `name` of the record at `i`, where it is a number that a port can
/// be.
pub open spec fn port_at(body: Seq<char>, name: Seq<char>, i: nat) -> Option<u32> {
    match unsigned_value(text_at(body, name, i)) {
        Some(n) => if n <= u32::MAX {
            Some(n as u32)
        } else {
            None
        },
        None => None,
    }
}

/// The protocol of the record at `i`, where it is one of the three.
pub open spec fn protocol_at(body: Seq<char>, i: nat) -> Option<PortForwardingProtocol> {
    let code = text_at(body, "Protocol"@, i);
    if code == "0"@ {
        Some(PortForwardingProtocol::TCP)
    } else if code == "1"@ {
        Some(PortForwardingProtocol::UDP)
    } else if code == "2"@ {
        Some(PortForwardingProtocol::Both)
    } else {
        None
    }
}

/// The rule at position `i` of the list in `body`, read from the fields that
/// carry `i` and from no others; or the first of its fields that cannot be
/// read.
pub open spec fn rule_at(body: Seq<char>, i: nat) -> Result<PortForwardingParamModel, Malformed> {
    if protocol_at(body, i) is None {
        Err(Malformed::Protocol)
    } else if port_at(body, "MinExtPort"@, i) is None {
        Err(Malformed::MinExtPort)
    } else if port_at(body, "MaxExtPort"@, i) is None {
        Err(Malformed::MaxExtPort)
    } else if port_at(body, "MinIntPort"@, i) is None {
        Err(Malformed::MinIntPort)
    } else if port_at(body, "MaxIntPort"@, i) is None {
        Err(Malformed::MaxIntPort)
    } else {
        Ok(
            PortForwardingParamModel {
                enable: flag_at(body, "Enable"@, i),
                name: text_at(body, "Name"@, i),
                protocol: protocol_at(body, i)->0,
                wan_interface: text_at(body, "WANCViewName"@, i),
                remote_addr_min: optional_at(body, "MinRemoteHost"@, i),
                remote_addr_max: optional_at(body, "MaxRemoteHost"@, i),
                remote_port_min: port_at(body, "MinExtPort"@, i)->0,
                remote_port_max: port_at(body, "MaxExtPort"@, i)->0,
                local_addr: optional_at(body, "InternalHost"@, i),
                local_mac: optional_at(body, "InternalMacHost"@, i),
                enable_local_mac: flag_at(body, "MacEnable"@, i),
                local_port_min: port_at(body, "MinIntPort"@, i)->0,
                local_port_max: port_at(body, "MaxIntPort"@, i)->0,
                description: optional_at(body, "Description"@, i),
                lease_duration: optional_at(body, "LeaseDuration"@, i),
                port_map_creator: optional_at(body, "PortMappCreator"@, i),
            },
        )
    }
}

/// Writes a switch.
fn write_flag(on: bool) -> (text: String)
    ensures
        text@ == flag(on),
{
    if on {
        String::from_str("1")
    } else {
        String::from_str("0")
    }
}

/// Writes a text that may be missing.
fn write_optional(text: &Option<String>) -> (written: String)
    ensures
        written@ == optional(text.deep_view()),
{
    match text {
        Some(t) => t.clone(),
        None => String::from_str("NULL"),
    }
}

/// Writes a port.
fn write_port(port: u32) -> (text: String)
    ensures
        text@ == decimal(port as nat),
{
    string_of(decimal_of(port as u64).as_slice())
}

/// Reads a switch.
fn read_flag_at(body: &[char], name: &str, i: usize) -> (on: bool)
    ensures
        on == flag_at(body@, name@, i as nat),
{
    same_text(read_text_at(body, name, i).as_str(), "1")
}

/// Reads a text that may be missing.
fn read_optional_at(body: &[char], name: &str, i: usize) -> (text: Option<String>)
    ensures
        text.deep_view() == optional_at(body@, name@, i as nat),
{
    match read_field_at(body, name, i) {
        Some(value) => {
            assert(value.deep_view() =~= value@);
            if same(value.as_slice(), chars_of("NULL").as_slice()) {
                None
            } else {
                Some(string_of(value.as_slice()))
            }
        },
        None => None,
    }
}

/// Reads a port.
fn read_port_at(body: &[char], name: &str, i: usize) -> (port: Option<u32>)
    ensures
        port == port_at(body@, name@, i as nat),
{
    let digits: Vec<char> = chars_of(read_text_at(body, name, i).as_str());
    match parse_unsigned(digits.as_slice(), 0xffff_ffff) {
        Some(n) => Some(n as u32),
        None => None,
    }
}

/// Reads a protocol.
fn read_protocol_at(body: &[char], i: usize) -> (protocol: Option<PortForwardingProtocol>)
    ensures
        protocol == protocol_at(body@, i as nat),
{
    let code: String = read_text_at(body, "Protocol", i);
    if same_text(code.as_str(), "0") {
        Some(PortForwardingProtocol::TCP)
    } else if same_text(code.as_str(), "1") {
        Some(PortForwardingProtocol::UDP)
    } else if same_text(code.as_str(), "2") {
        Some(PortForwardingProtocol::Both)
    } else {
        None
    }
}

impl PortForwardingParam {
    /// The fields of the rule as a form carries them, in order.
    pub fn encode(&self) -> (form: Vec<(String, String)>)
        ensures
            form.deep_view() == encoded(self.deep_view()),
    {
        let mut form: Vec<(String, String)> = Vec::new();
        form.push((String::from_str("Enable"), write_flag(self.enable)));
        form.push((String::from_str("Name"), self.name.clone()));
        form.push(
            (
                String::from_str("Protocol"),
                match self.protocol {
                    PortForwardingProtocol::TCP => String::from_str("0"),
                    PortForwardingProtocol::UDP => String::from_str("1"),
                    PortForwardingProtocol::Both => String::from_str("2"),
                },
            ),
        );
        form.push((String::from_str("WANCViewName"), self.wan_interface.clone()));
        form.push((String::from_str("MinRemoteHost"), write_optional(&self.remote_addr_min)));
        form.push((String::from_str("MaxRemoteHost"), write_optional(&self.remote_addr_max)));
        form.push((String::from_str("MinExtPort"), write_port(self.remote_port_min)));
        form.push((String::from_str("MaxExtPort"), write_port(self.remote_port_max)));
        form.push((String::from_str("InternalHost"), write_optional(&self.local_addr)));
        form.push((String::from_str("InternalMacHost"), write_optional(&self.local_mac)));
        form.push((String::from_str("MacEnable"), write_flag(self.enable_local_mac)));
        form.push((String::from_str("MinIntPort"), write_port(self.local_port_min)));
        form.push((String::from_str("MaxIntPort"), write_port(self.local_port_max)));
        form.push((String::from_str("Description"), write_optional(&self.description)));
        form.push((String::from_str("LeaseDuration"), write_optional(&self.lease_duration)));
        form.push((String::from_str("PortMappCreator"), write_optional(&self.port_map_creator)));
        assert(form.deep_view() =~= encoded(self.deep_view()));
        form
    }

    /// Reads the rule at position `i` of the list in `body`.
    pub fn decode(body: &[char], i: usize) -> (rule: Result<PortForwardingParam, Malformed>)
        ensures
            result_model(rule) == rule_at(body@, i as nat),
    {
        let protocol: PortForwardingProtocol = match read_protocol_at(body, i) {
            Some(protocol) => protocol,
            None => { return Err(Malformed::Protocol); },
        };
        let remote_port_min: u32 = match read_port_at(body, "MinExtPort", i) {
            Some(port) => port,
            None => { return Err(Malformed::MinExtPort); },
        };
        let remote_port_max: u32 = match read_port_at(body, "MaxExtPort", i) {
            Some(port) => port,
            None => { return Err(Malformed::MaxExtPort); },
        };
        let local_port_min: u32 = match read_port_at(body, "MinIntPort", i) {
            Some(port) => port,
            None => { return Err(Malformed::MinIntPort); },
        };
        let local_port_max: u32 = match read_port_at(body, "MaxIntPort", i) {
            Some(port) => port,
            None => { return Err(Malformed::MaxIntPort); },
        };
        Ok(
            PortForwardingParam {
                enable: read_flag_at(body, "Enable", i),
                name: read_text_at(body, "Name", i),
                protocol,
                wan_interface: read_text_at(body, "WANCViewName", i),
                remote_addr_min: read_optional_at(body, "MinRemoteHost", i),
                remote_addr_max: read_optional_at(body, "MaxRemoteHost", i),
                remote_port_min,
                remote_port_max,
                local_addr: read_optional_at(body, "InternalHost", i),
                local_mac: read_optional_at(body, "InternalMacHost", i),
                enable_local_mac: read_flag_at(body, "MacEnable", i),
                local_port_min,
                local_port_max,
                description: read_optional_at(body, "Description", i),
                lease_duration: read_optional_at(body, "LeaseDuration", i),
                port_map_creator: read_optional_at(body, "PortMappCreator", i),
            },
        )
    }
}

/// How the rule at each position of the list in `body` is read.
pub open spec fn rule_reader(body: Seq<char>) -> spec_fn(nat) -> Result<
    PortForwardingParamModel,
    Malformed,
> {
    |i: nat| rule_at(body, i)
}

/// The list of rules in `body`: as many as `body` declares, each read from
/// its own position; or what is wrong with the number declared, or with the
/// first rule that cannot be read.
pub open spec fn forwarding_list(body: Seq<char>) -> Result<
    Seq<PortForwardingParamModel>,
    OnuErrorModel,
> {
    match declared_count(body) {
        Some(n) => match records_upto(n, rule_reader(body)) {
            Ok(list) => Ok(list),
            Err(e) => Err(OnuErrorModel::Parse(e)),
        },
        None => Err(OnuErrorModel::Parse(Malformed::Count)),
    }
}

/// Reads the list of rules in `body`.
pub fn read_rules(body: &[char]) -> (rules: Result<Vec<PortForwardingParam>, OnuError>)
    ensures
        result_model(rules) == forwarding_list(body@),
{
    let count: usize = match read_count(body) {
        Some(n) => n,
        None => { return Err(OnuError::Parse(Malformed::Count)); },
    };
    let mut list: Vec<PortForwardingParam> = Vec::new();
    let mut i: usize = 0;
    assert(list.deep_view() =~= Seq::empty());
    while i < count
        invariant
            i <= count,
            declared_count(body@) == Some(count as nat),
            records_upto(i as nat, rule_reader(body@)) == Ok::<
                Seq<PortForwardingParamModel>,
                Malformed,
            >(list.deep_view()),
        decreases count - i,
    {
        match PortForwardingParam::decode(body, i) {
            Ok(rule) => {
                let ghost before = list.deep_view();
                list.push(rule);
                assert(list.deep_view() =~= before.push(rule.deep_view()));
            },
            Err(e) => {
                proof {
                    lemma_records_stop(count as nat, i as nat, rule_reader(body@));
                }
                return Err(OnuError::Parse(e));
            },
        }
        i += 1;
    }
    Ok(list)
}

impl Context {
    /// Reads the list of rules in the page `resp`.
    pub fn parse_forwarding_list(resp: &str) -> (rules: Result<
        Vec<PortForwardingParam>,
        OnuError,
    >)
        ensures
            result_model(rules) == forwarding_list(resp@),
    {
        let body: Vec<char> = chars_of(resp);
        read_rules(body.as_slice())
    }
}

/// A list of rules is read whole or not at all. Where it is read, it has as
/// many rules as the page declares, and the rule at each position is the one
/// read from the fields of that position. It is not read where the page
/// declares no number of rules, and where one of the rules cannot be read:
/// the first of those says why.
pub proof fn lemma_forwarding_list_total(body: Seq<char>)
    ensures
        match forwarding_list(body) {
            Ok(list) => declared_count(body) == Some(list.len()) && forall|i: nat|
                i < list.len() ==> rule_at(body, i) == Ok::<PortForwardingParamModel, Malformed>(
                    #[trigger] list[i as int],
                ),
            Err(e) => match declared_count(body) {
                Some(n) => exists|i: nat|
                    i < n && #[trigger] rule_at(body, i) is Err && e == OnuErrorModel::Parse(
                        rule_at(body, i)->Err_0,
                    ) && forall|j: nat| j < i ==> (#[trigger] rule_at(body, j)) is Ok,
                None => e == OnuErrorModel::Parse(Malformed::Count),
            },
        },
{
    match declared_count(body) {
        Some(n) => {
            lemma_records_upto(n, rule_reader(body));
            match records_upto(n, rule_reader(body)) {
                Ok(list) => {
                    assert forall|i: nat| i < list.len() implies rule_at(body, i) == Ok::<
                        PortForwardingParamModel,
                        Malformed,
                    >(#[trigger] list[i as int]) by {
                        assert(rule_reader(body)(i) == rule_at(body, i));
                    }
                },
                Err(e) => {
                    let i = choose|i: nat|
                        i < n && #[trigger] rule_reader(body)(i) == Err::<
                            PortForwardingParamModel,
                            Malformed,
                        >(e) && forall|j: nat| j < i ==> (#[trigger] rule_reader(body)(j)) is Ok;
                    assert(rule_at(body, i) is Err);
                    assert forall|j: nat| j < i implies (#[trigger] rule_at(body, j)) is Ok by {
                        assert(rule_reader(body)(j) is Ok);
                    }
                },
            }
        },
        None => {},
    }
}

/// Reading depends on the fields alone: two pages that give every field the
/// same value hold the same list of rules, whatever else differs between
/// them.
pub proof fn lemma_forwarding_list_of_fields(a: Seq<char>, b: Seq<char>)
    requires
        forall|field: Seq<char>| #[trigger] transfer_meaning(a, field) == transfer_meaning(b, field),
    ensures
        forwarding_list(a) == forwarding_list(b),
{
    assert(declared_count(a) == declared_count(b));
    match declared_count(a) {
        Some(n) => {
            lemma_same_rules(a, b, n);
        },
        None => {},
    }
}

/// Two pages that give every field the same value give the field `name` of
/// the record at `i` the same value, however it is read.
proof fn lemma_same_field(a: Seq<char>, b: Seq<char>, name: Seq<char>, i: nat)
    requires
        forall|field: Seq<char>| #[trigger] transfer_meaning(a, field) == transfer_meaning(b, field),
    ensures
        field_at(a, name, i) == field_at(b, name, i),
        text_at(a, name, i) == text_at(b, name, i),
        flag_at(a, name, i) == flag_at(b, name, i),
        optional_at(a, name, i) == optional_at(b, name, i),
        port_at(a, name, i) == port_at(b, name, i),
{
    assert(transfer_meaning(a, indexed(name, i)) == transfer_meaning(b, indexed(name, i)));
}

/// Two pages that give every field the same value hold the same rule at
/// position `i`.
proof fn lemma_same_rule(a: Seq<char>, b: Seq<char>, i: nat)
    requires
        forall|field: Seq<char>| #[trigger] transfer_meaning(a, field) == transfer_meaning(b, field),
    ensures
        rule_at(a, i) == rule_at(b, i),
{
    lemma_same_field(a, b, "Enable"@, i);
    lemma_same_field(a, b, "Name"@, i);
    lemma_same_field(a, b, "Protocol"@, i);
    lemma_same_field(a, b, "WANCViewName"@, i);
    lemma_same_field(a, b, "MinRemoteHost"@, i);
    lemma_same_field(a, b, "MaxRemoteHost"@, i);
    lemma_same_field(a, b, "MinExtPort"@, i);
    lemma_same_field(a, b, "MaxExtPort"@, i);
    lemma_same_field(a, b, "InternalHost"@, i);
    lemma_same_field(a, b, "InternalMacHost"@, i);
    lemma_same_field(a, b, "MacEnable"@, i);
    lemma_same_field(a, b, "MinIntPort"@, i);
    lemma_same_field(a, b, "MaxIntPort"@, i);
    lemma_same_field(a, b, "Description"@, i);
    lemma_same_field(a, b, "LeaseDuration"@, i);
    lemma_same_field(a, b, "PortMappCreator"@, i);
    assert(protocol_at(a, i) == protocol_at(b, i));
}

/// Two pages that give every field the same value hold the same rules at
/// the positions before `n`.
proof fn lemma_same_rules(a: Seq<char>, b: Seq<char>, n: nat)
    requires
        forall|field: Seq<char>| #[trigger] transfer_meaning(a, field) == transfer_meaning(b, field),
    ensures
        records_upto(n, rule_reader(a)) == records_upto(n, rule_reader(b)),
    decreases n,
{
    if n > 0 {
        let m = (n - 1) as nat;
        lemma_same_rules(a, b, m);
        lemma_same_rule(a, b, m);
        assert(rule_reader(a)(m) == rule_reader(b)(m));
    }
}

/// The names of the fields of a rule, in the order of the form.
pub open spec fn rule_fields() -> Seq<Seq<char>> {
    seq![
        "Enable"@,
        "Name"@,
        "Protocol"@,
        "WANCViewName"@,
        "MinRemoteHost"@,
        "MaxRemoteHost"@,
        "MinExtPort"@,
        "MaxExtPort"@,
        "InternalHost"@,
        "InternalMacHost"@,
        "MacEnable"@,
        "MinIntPort"@,
        "MaxIntPort"@,
        "Description"@,
        "LeaseDuration"@,
        "PortMappCreator"@,
    ]
}

/// `text` is a port as a rule writes it: a number that a port can be, in
/// decimal notation without sign or leading zeros.
pub open spec fn is_port_text(text: Seq<char>) -> bool {
    is_canonical(text) && digits_value(text) <= u32::MAX
}

/// The page gives the rule at `i` in the form in which rules are written:
/// every field is there, the switches are `0` or `1`, the protocol is one of
/// the three, and the ports are written without sign or leading zeros.
pub open spec fn written_as_encoded(body: Seq<char>, i: nat) -> bool {
    &&& forall|k: int| 0 <= k < 16 ==> (#[trigger] field_at(body, rule_fields()[k], i)) is Some
    &&& text_at(body, "Enable"@, i) == "0"@ || text_at(body, "Enable"@, i) == "1"@
    &&& text_at(body, "MacEnable"@, i) == "0"@ || text_at(body, "MacEnable"@, i) == "1"@
    &&& protocol_at(body, i) is Some
    &&& is_port_text(text_at(body, "MinExtPort"@, i))
    &&& is_port_text(text_at(body, "MaxExtPort"@, i))
    &&& is_port_text(text_at(body, "MinIntPort"@, i))
    &&& is_port_text(text_at(body, "MaxIntPort"@, i))
}

/// No text of `rule` that may be missing is the word that stands for a
/// missing one.
pub open spec fn no_null_text(rule: PortForwardingParamModel) -> bool {
    &&& rule.remote_addr_min != Some("NULL"@)
    &&& rule.remote_addr_max != Some("NULL"@)
    &&& rule.local_addr != Some("NULL"@)
    &&& rule.local_mac != Some("NULL"@)
    &&& rule.description != Some("NULL"@)
    &&& rule.lease_duration != Some("NULL"@)
    &&& rule.port_map_creator != Some("NULL"@)
}

/// A port that is written as rules write it is read, and written back as it
/// stood.
proof fn lemma_port_written(body: Seq<char>, name: Seq<char>, i: nat)
    requires
        is_port_text(text_at(body, name, i)),
    ensures
        port_at(body, name, i) is Some,
        decimal(port_at(body, name, i)->0 as nat) == text_at(body, name, i),
{
    let text = text_at(body, name, i);
    lemma_digit(text[0], 0);
    lemma_canonical_decimal(text);
}

/// A switch that is written as rules write it is written back as it stood.
proof fn lemma_flag_written(body: Seq<char>, name: Seq<char>, i: nat)
    requires
        text_at(body, name, i) == "0"@ || text_at(body, name, i) == "1"@,
    ensures
        flag(flag_at(body, name, i)) == text_at(body, name, i),
{
    reveal_strlit("0");
    reveal_strlit("1");
    assert("0"@[0] != "1"@[0]);
}

/// A text that may be missing, where the page gives the field, is written
/// back as it stood.
proof fn lemma_optional_written(body: Seq<char>, name: Seq<char>, i: nat)
    requires
        field_at(body, name, i) is Some,
    ensures
        optional(optional_at(body, name, i)) == text_at(body, name, i),
{
}

/// A protocol that is read is written back as it stood.
proof fn lemma_protocol_written(body: Seq<char>, i: nat)
    requires
        protocol_at(body, i) is Some,
    ensures
        protocol_code(protocol_at(body, i)->0) == text_at(body, "Protocol"@, i),
{
}

/// Writing undoes reading: a rule that a page gives in the form in which
/// rules are written is read, and the form written from it holds every
/// field with the value that the page gave it.
pub proof fn lemma_encode_decode(body: Seq<char>, i: nat)
    requires
        written_as_encoded(body, i),
    ensures
        rule_at(body, i) is Ok,
        encoded(rule_at(body, i)->Ok_0) == Seq::new(
            16,
            |k: int| (rule_fields()[k], text_at(body, rule_fields()[k], i)),
        ),
{
    lemma_port_written(body, "MinExtPort"@, i);
    lemma_port_written(body, "MaxExtPort"@, i);
    lemma_port_written(body, "MinIntPort"@, i);
    lemma_port_written(body, "MaxIntPort"@, i);
    lemma_flag_written(body, "Enable"@, i);
    lemma_flag_written(body, "MacEnable"@, i);
    lemma_protocol_written(body, i);
    let fields = rule_fields();
    assert(field_at(body, fields[4], i) is Some);
    assert(field_at(body, fields[5], i) is Some);
    assert(field_at(body, fields[8], i) is Some);
    assert(field_at(body, fields[9], i) is Some);
    assert(field_at(body, fields[13], i) is Some);
    assert(field_at(body, fields[14], i) is Some);
    assert(field_at(body, fields[15], i) is Some);
    lemma_optional_written(body, "MinRemoteHost"@, i);
    lemma_optional_written(body, "MaxRemoteHost"@, i);
    lemma_optional_written(body, "InternalHost"@, i);
    lemma_optional_written(body, "InternalMacHost"@, i);
    lemma_optional_written(body, "Description"@, i);
    lemma_optional_written(body, "LeaseDuration"@, i);
    lemma_optional_written(body, "PortMappCreator"@, i);
    let rule = rule_at(body, i)->Ok_0;
    let form = encoded(rule);
    let raw = Seq::new(16, |k: int| (rule_fields()[k], text_at(body, rule_fields()[k], i)));
    assert(form.len() == 16);
    assert(form[0] == raw[0]);
    assert(form[1] == raw[1]);
    assert(form[2] == raw[2]);
    assert(form[3] == raw[3]);
    assert(form[4] == raw[4]);
    assert(form[5] == raw[5]);
    assert(form[6] == raw[6]);
    assert(form[7] == raw[7]);
    assert(form[8] == raw[8]);
    assert(form[9] == raw[9]);
    assert(form[10] == raw[10]);
    assert(form[11] == raw[11]);
    assert(form[12] == raw[12]);
    assert(form[13] == raw[13]);
    assert(form[14] == raw[14]);
    assert(form[15] == raw[15]);
    assert(form =~= raw);
}

/// A switch is read as it was written.
proof fn lemma_flag_read(body: Seq<char>, name: Seq<char>, i: nat, on: bool)
    requires
        field_at(body, name, i) == Some(flag(on)),
    ensures
        flag_at(body, name, i) == on,
{
    reveal_strlit("0");
    reveal_strlit("1");
    assert("0"@[0] != "1"@[0]);
}

/// A text that may be missing is read as it was written, unless it is the
/// word for a missing one.
proof fn lemma_optional_read(body: Seq<char>, name: Seq<char>, i: nat, text: Option<Seq<char>>)
    requires
        field_at(body, name, i) == Some(optional(text)),
        text != Some("NULL"@),
    ensures
        optional_at(body, name, i) == text,
{
}

/// A port is read as it was written.
proof fn lemma_port_read(body: Seq<char>, name: Seq<char>, i: nat, port: u32)
    requires
        field_at(body, name, i) == Some(decimal(port as nat)),
    ensures
        port_at(body, name, i) == Some(port),
{
    lemma_decimal_value(port as nat);
}

/// A protocol is read as it was written.
proof fn lemma_protocol_read(body: Seq<char>, i: nat, protocol: PortForwardingProtocol)
    requires
        field_at(body, "Protocol"@, i) == Some(protocol_code(protocol)),
    ensures
        protocol_at(body, i) == Some(protocol),
{
    reveal_strlit("0");
    reveal_strlit("1");
    reveal_strlit("2");
    assert("0"@[0] != "1"@[0]);
    assert("0"@[0] != "2"@[0]);
    assert("1"@[0] != "2"@[0]);
}

/// Reading undoes writing: from a page that gives the fields of position `i`
/// the values that the form of `rule` holds, the rule at `i` is read as
/// `rule`, as long as no text of `rule` is the word for a missing one.
pub proof fn lemma_decode_encode(body: Seq<char>, i: nat, rule: PortForwardingParamModel)
    requires
        no_null_text(rule),
        forall|k: int|
            0 <= k < 16 ==> #[trigger] field_at(body, encoded(rule)[k].0, i) == Some(
                encoded(rule)[k].1,
            ),
    ensures
        rule_at(body, i) == Ok::<PortForwardingParamModel, Malformed>(rule),
{
    let form = encoded(rule);
    assert(field_at(body, form[0].0, i) == Some(form[0].1));
    assert(field_at(body, form[1].0, i) == Some(form[1].1));
    assert(field_at(body, form[2].0, i) == Some(form[2].1));
    assert(field_at(body, form[3].0, i) == Some(form[3].1));
    assert(field_at(body, form[4].0, i) == Some(form[4].1));
    assert(field_at(body, form[5].0, i) == Some(form[5].1));
    assert(field_at(body, form[6].0, i) == Some(form[6].1));
    assert(field_at(body, form[7].0, i) == Some(form[7].1));
    assert(field_at(body, form[8].0, i) == Some(form[8].1));
    assert(field_at(body, form[9].0, i) == Some(form[9].1));
    assert(field_at(body, form[10].0, i) == Some(form[10].1));
    assert(field_at(body, form[11].0, i) == Some(form[11].1));
    assert(field_at(body, form[12].0, i) == Some(form[12].1));
    assert(field_at(body, form[13].0, i) == Some(form[13].1));
    assert(field_at(body, form[14].0, i) == Some(form[14].1));
    assert(field_at(body, form[15].0, i) == Some(form[15].1));
    lemma_flag_read(body, "Enable"@, i, rule.enable);
    lemma_protocol_read(body, i, rule.protocol);
    lemma_optional_read(body, "MinRemoteHost"@, i, rule.remote_addr_min);
    lemma_optional_read(body, "MaxRemoteHost"@, i, rule.remote_addr_max);
    lemma_port_read(body, "MinExtPort"@, i, rule.remote_port_min);
    lemma_port_read(body, "MaxExtPort"@, i, rule.remote_port_max);
    lemma_optional_read(body, "InternalHost"@, i, rule.local_addr);
    lemma_optional_read(body, "InternalMacHost"@, i, rule.local_mac);
    lemma_flag_read(body, "MacEnable"@, i, rule.enable_local_mac);
    lemma_port_read(body, "MinIntPort"@, i, rule.local_port_min);
    lemma_port_read(body, "MaxIntPort"@, i, rule.local_port_max);
    lemma_optional_read(body, "Description"@, i, rule.description);
    lemma_optional_read(body, "LeaseDuration"@, i, rule.lease_duration);
    lemma_optional_read(body, "PortMappCreator"@, i, rule.port_map_creator);
    assert(text_at(body, "Name"@, i) == rule.name);
    assert(text_at(body, "WANCViewName"@, i) == rule.wan_interface);
}

} // verus!
