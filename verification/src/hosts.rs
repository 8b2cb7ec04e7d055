//! A list of machines and the addresses they were last seen at.

use vstd::prelude::*;
use crate::text::same_text;

verus! {

/// A machine and the address it was seen at.
#[derive(Debug, Clone, PartialEq, Eq)]
pub struct HostInfo {
    /// The name of the machine.
    pub host: String,
    /// Its address.
    pub ip: String,
}

/// The model of a `HostInfo`.
pub struct HostInfoModel {
    pub host: Seq<char>,
    pub ip: Seq<char>,
}

impl DeepView for HostInfo {
    type V = HostInfoModel;

    open spec fn deep_view(&self) -> HostInfoModel {
        HostInfoModel { host: self.host@, ip: self.ip@ }
    }
}

/// The machines seen so far, each once, in the order in which they were
/// first seen.
#[derive(Debug, Clone, PartialEq, Eq)]
pub struct AppState {
    /// The machines.
    pub hosts: Vec<HostInfo>,
}

/// The position of the first of `hosts` from `from` on that has the name
/// `name`.
pub open spec fn first_host(hosts: Seq<HostInfoModel>, name: Seq<char>, from: int) -> Option<int>
    decreases hosts.len() - from,
{
    if 0 <= from < hosts.len() {
        if hosts[from].host == name {
            Some(from)
        } else {
            first_host(hosts, name, from + 1)
        }
    } else {
        None
    }
}

/// `hosts` after `host` was seen: it takes the place of the first machine
/// of its name, or the end of the list where there is none.
pub open spec fn updated(hosts: Seq<HostInfoModel>, host: HostInfoModel) -> Seq<HostInfoModel> {
    match first_host(hosts, host.host, 0) {
        Some(at) => hosts.update(at, host),
        None => hosts.push(host),
    }
}

impl AppState {
    /// Takes note that `host` was seen.
    pub fn update_host(&mut self, host: HostInfo)
        ensures
            final(self).hosts.deep_view() == updated(old(self).hosts.deep_view(), host.deep_view()),
    {
        let mut i: usize = 0;
        while i < self.hosts.len()
            invariant
                i <= self.hosts.len(),
                self.hosts == old(self).hosts,
                first_host(self.hosts.deep_view(), host.host@, 0) == first_host(
                    self.hosts.deep_view(),
                    host.host@,
                    i as int,
                ),
            decreases self.hosts.len() - i,
        {
            assert(self.hosts.deep_view()[i as int] == self.hosts[i as int].deep_view());
            if same_text(self.hosts[i].host.as_str(), host.host.as_str()) {
                let ghost before = self.hosts.deep_view();
                let _ = self.hosts.remove(i);
                self.hosts.insert(i, host);
                assert(self.hosts.deep_view() =~= before.update(i as int, host.deep_view()));
                return ;
            }
            i += 1;
        }
        let ghost before = self.hosts.deep_view();
        self.hosts.push(host);
        assert(self.hosts.deep_view() =~= before.push(host.deep_view()));
    }
}

} // verus!
