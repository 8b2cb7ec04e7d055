//! The machines on the local side that hold an address from the router.

use vstd::prelude::*;
use crate::onu::context::{received, Context};
use crate::onu::error::{result_model, Malformed, OnuError, OnuErrorModel};
use crate::onu::records::{declared_count, read_count, read_text_at, text_at};
use crate::text::{chars_of};

verus! {

/// A machine that holds an address from the router.
#[derive(Debug, Clone, PartialEq, Eq)]
pub struct LanInfo {
    /// The name of the machine, from the field `HostName`.
    pub name: String,
    /// The address of its network card, from the field `MACAddr`.
    pub mac: String,
    /// Its address, from the field `IPAddr`.
    pub ip: String,
    /// How long the address still holds, from the field `ExpiredTime`.
    pub lease_time: String,
    /// The port of the router that the machine hangs on, from the field
    /// `PhyPortName`.
    pub interface: String,
}

/// The model of a `LanInfo`.
pub struct LanInfoModel {
    pub name: Seq<char>,
    pub mac: Seq<char>,
    pub ip: Seq<char>,
    pub lease_time: Seq<char>,
    pub interface: Seq<char>,
}

impl DeepView for LanInfo {
    type V = LanInfoModel;

    open spec fn deep_view(&self) -> LanInfoModel {
        LanInfoModel {
            name: self.name@,
            mac: self.mac@,
            ip: self.ip@,
            lease_time: self.lease_time@,
            interface: self.interface@,
        }
    }
}

/// The machine at position `i` of the list in `body`, read from the fields
/// that carry `i` and from no others; a field that is not there is empty.
pub open spec fn lan_record(body: Seq<char>, i: nat) -> LanInfoModel {
    LanInfoModel {
        name: text_at(body, "HostName"@, i),
        mac: text_at(body, "MACAddr"@, i),
        ip: text_at(body, "IPAddr"@, i),
        lease_time: text_at(body, "ExpiredTime"@, i),
        interface: text_at(body, "PhyPortName"@, i),
    }
}

/// The list of machines in `body`: as many as `body` declares, each read
/// from its own position; none where `body` declares no number.
pub open spec fn lan_list(body: Seq<char>) -> Result<Seq<LanInfoModel>, OnuErrorModel> {
    match declared_count(body) {
        Some(n) => Ok(Seq::new(n, |i: int| lan_record(body, i as nat))),
        None => Err(OnuErrorModel::Parse(Malformed::Count)),
    }
}

/// A list of machines is read whole or not at all. Where it is read, it has
/// as many machines as the page declares, and the machine at each position
/// is the one read from the fields of that position. It is not read where
/// the page declares no number of machines, and only there.
pub proof fn lemma_lan_list_total(body: Seq<char>)
    ensures
        match lan_list(body) {
            Ok(list) => declared_count(body) == Some(list.len()) && forall|i: nat|
                i < list.len() ==> #[trigger] list[i as int] == lan_record(body, i),
            Err(e) => declared_count(body) is None && e == OnuErrorModel::Parse(Malformed::Count),
        },
{
}

impl LanInfo {
    /// Reads the machine at position `i` of the list in `body`.
    pub fn decode(body: &[char], i: usize) -> (info: LanInfo)
        ensures
            info.deep_view() == lan_record(body@, i as nat),
    {
        LanInfo {
            name: read_text_at(body, "HostName", i),
            mac: read_text_at(body, "MACAddr", i),
            ip: read_text_at(body, "IPAddr", i),
            lease_time: read_text_at(body, "ExpiredTime", i),
            interface: read_text_at(body, "PhyPortName", i),
        }
    }
}

impl Context {
    /// Reads the list of machines in the page `resp`.
    pub fn parse_lan_info(resp: &str) -> (infos: Result<Vec<LanInfo>, OnuError>)
        ensures
            result_model(infos) == lan_list(resp@),
    {
        let chars: Vec<char> = chars_of(resp);
        let body: &[char] = chars.as_slice();
        let count: usize = match read_count(body) {
            Some(n) => n,
            None => { return Err(OnuError::Parse(Malformed::Count)); },
        };
        let mut list: Vec<LanInfo> = Vec::new();
        let mut i: usize = 0;
        while i < count
            invariant
                i <= count,
                list.len() == i,
                forall|k: int|
                    0 <= k < i ==> (#[trigger] list[k]).deep_view() == lan_record(body@, k as nat),
            decreases count - i,
        {
            list.push(LanInfo::decode(body, i));
            i += 1;
        }
        assert(list.deep_view() =~= Seq::new(count as nat, |i: int| lan_record(body@, i as nat)));
        Ok(list)
    }

    /// Takes in the status page of the local side, and reads the list of
    /// machines in it.
    pub fn lan_info(&mut self, page: &str) -> (infos: Result<Vec<LanInfo>, OnuError>)
        ensures
            final(self).deep_view() == received(old(self).deep_view(), page@),
            result_model(infos) == lan_list(page@),
    {
        let _ = self.receive(page);
        Context::parse_lan_info(page)
    }
}

} // verus!
