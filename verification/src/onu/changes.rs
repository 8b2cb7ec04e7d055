//! Changing the list of port forwarding rules.
//!
//! A change is a form posted to the page of the rules; the answer holds the
//! router's report and the list as it is afterwards. Deleting by name takes
//! one page more: the list is read first, and the first rule with the name
//! is deleted by the position it has in that list. This module decides what
//! to send and how a change ends; sending is left to the caller.

use vstd::prelude::*;
use vstd::string::StringExecFns;
use crate::onu::context::{next_url_of, posted, received, Context, ContextModel};
use crate::onu::error::{result_model, OnuError, OnuErrorModel};
use crate::onu::port_forwarding::{
    encoded, forwarding_list, ranges_of, target_agrees, PortForwardingAction,
    PortForwardingActionModel, PortForwardingHost, PortForwardingHostModel, PortForwardingParam,
    PortForwardingParamModel, PortForwardingPort, PortForwardingProtocol, PortRanges,
};
use crate::onu::session::{report_in, reports_success, ApiResult, Method, Request, RequestModel};
use crate::text::{same_text, signed_decimal, signed_decimal_of, string_of};

verus! {

/// The page that holds the rules and takes the changes.
pub open spec fn rules_page() -> Seq<char> {
    "app_virtual_conf_t.gch"@
}

/// The last position that a form can carry: positions go out as numbers of
/// thirty-two bits with a sign.
pub open spec fn last_position() -> int {
    0x7fff_ffff
}

/// The form of a change: what to do, the position to do it at, and the
/// fields of a rule.
pub open spec fn change_form(verb: Seq<char>, index: int, rule: PortForwardingParamModel) -> Seq<
    (Seq<char>, Seq<char>),
> {
    seq![("IF_ACTION"@, verb), ("IF_INDEX"@, signed_decimal(index))] + encoded(rule)
}

/// The rule that goes with a deletion: it says nothing.
pub open spec fn blank_rule() -> PortForwardingParamModel {
    PortForwardingParamModel {
        enable: false,
        name: Seq::empty(),
        protocol: PortForwardingProtocol::TCP,
        wan_interface: Seq::empty(),
        remote_addr_min: None,
        remote_addr_max: None,
        remote_port_min: 0,
        remote_port_max: 0,
        local_addr: None,
        local_mac: None,
        enable_local_mac: false,
        local_port_min: 0,
        local_port_max: 0,
        description: None,
        lease_duration: None,
        port_map_creator: None,
    }
}

/// The rule that forwards `port` of the connection `wan` to the machine
/// `lan`: in force, open to every remote address, and with the local machine
/// given in the one way that `lan` names.
pub open spec fn new_rule(
    name: Seq<char>,
    protocol: PortForwardingProtocol,
    wan: Seq<char>,
    lan: PortForwardingHostModel,
    port: PortForwardingPort,
) -> PortForwardingParamModel {
    PortForwardingParamModel {
        enable: true,
        name: name,
        protocol: protocol,
        wan_interface: wan,
        remote_addr_min: None,
        remote_addr_max: None,
        remote_port_min: ranges_of(port).remote_min,
        remote_port_max: ranges_of(port).remote_max,
        local_addr: match lan {
            PortForwardingHostModel::Host(address) => Some(address),
            PortForwardingHostModel::Mac(_) => None,
        },
        local_mac: match lan {
            PortForwardingHostModel::Mac(address) => Some(address),
            PortForwardingHostModel::Host(_) => None,
        },
        enable_local_mac: lan is Mac,
        local_port_min: ranges_of(port).local_min,
        local_port_max: ranges_of(port).local_max,
        description: None,
        lease_duration: None,
        port_map_creator: None,
    }
}

/// The position of the first rule from `from` on that has the name `name`.
pub open spec fn first_named(
    list: Seq<PortForwardingParamModel>,
    name: Seq<char>,
    from: int,
) -> Option<int>
    decreases list.len() - from,
{
    if 0 <= from < list.len() {
        if list[from].name == name {
            Some(from)
        } else {
            first_named(list, name, from + 1)
        }
    } else {
        None
    }
}

/// What a change waits for.
#[derive(Debug, Clone, PartialEq, Eq)]
pub enum Pending {
    /// The list in which to look up the rule with this name.
    Resolve(String),
    /// The router's answer to the form.
    Reply,
}

/// The model of a `Pending`.
pub enum PendingModel {
    Resolve(Seq<char>),
    Reply,
}

impl DeepView for Pending {
    type V = PendingModel;

    open spec fn deep_view(&self) -> PendingModel {
        match self {
            Pending::Resolve(name) => PendingModel::Resolve(name@),
            Pending::Reply => PendingModel::Reply,
        }
    }
}

/// What a change does next.
#[derive(Debug, Clone, PartialEq, Eq)]
pub enum Step {
    /// The request to send; the page that answers it goes to
    /// `Context::resume`, with what is given here.
    Send(Pending, Request),
    /// The change is made: the list as it is now.
    Done(Vec<PortForwardingParam>),
    /// The change has failed.
    Failed(OnuError),
}

/// The model of a `Step`.
pub enum StepModel {
    Send(PendingModel, RequestModel),
    Done(Seq<PortForwardingParamModel>),
    Failed(OnuErrorModel),
}

impl DeepView for Step {
    type V = StepModel;

    open spec fn deep_view(&self) -> StepModel {
        match self {
            Step::Send(pending, request) => StepModel::Send(
                pending.deep_view(),
                request.deep_view(),
            ),
            Step::Done(list) => StepModel::Done(list.deep_view()),
            Step::Failed(error) => StepModel::Failed(error.deep_view()),
        }
    }
}

/// What posting the form of a change comes to: the client after it, and the
/// step that waits for the router's answer.
pub open spec fn change_posted(
    context: ContextModel,
    verb: Seq<char>,
    index: int,
    rule: PortForwardingParamModel,
) -> (ContextModel, StepModel) {
    let (after, request) = posted(context, rules_page(), change_form(verb, index, rule));
    (after, StepModel::Send(PendingModel::Reply, request))
}

/// How adding a rule, or putting one in the place of another, begins. An
/// action that deletes is turned down, and so is a position beyond the last
/// that a form can carry; nothing changes then.
pub open spec fn forwarding_begun(
    context: ContextModel,
    action: PortForwardingActionModel,
    rule: PortForwardingParamModel,
) -> (ContextModel, StepModel) {
    match action {
        PortForwardingActionModel::New => change_posted(context, "new"@, -1, rule),
        PortForwardingActionModel::Apply(i) => if i <= last_position() {
            change_posted(context, "apply"@, i as int, rule)
        } else {
            (context, StepModel::Failed(OnuErrorModel::PositionTooLarge))
        },
        _ => (context, StepModel::Failed(OnuErrorModel::WrongAction)),
    }
}

/// How deleting a rule begins: by position with the form, by name with the
/// request for the list. Any other action is turned down, and so is a
/// position beyond the last that a form can carry; nothing changes then.
pub open spec fn deletion_begun(context: ContextModel, action: PortForwardingActionModel) -> (
    ContextModel,
    StepModel,
) {
    match action {
        PortForwardingActionModel::Delete(i) => if i <= last_position() {
            change_posted(context, "delete"@, i as int, blank_rule())
        } else {
            (context, StepModel::Failed(OnuErrorModel::PositionTooLarge))
        },
        PortForwardingActionModel::DeleteByName(name) => (
            context,
            StepModel::Send(
                PendingModel::Resolve(name),
                RequestModel {
                    method: Method::Get,
                    url: next_url_of(context, rules_page()),
                    form: None,
                },
            ),
        ),
        _ => (context, StepModel::Failed(OnuErrorModel::WrongAction)),
    }
}

/// How a change ends when the router's answer `page` has come in: with the
/// list in the answer where the router reports success, with its report
/// where it does not.
pub open spec fn change_answered(page: Seq<char>) -> StepModel {
    if reports_success(report_in(page)) {
        match forwarding_list(page) {
            Ok(list) => StepModel::Done(list),
            Err(e) => StepModel::Failed(e),
        }
    } else {
        StepModel::Failed(OnuErrorModel::Protocol(report_in(page)))
    }
}

/// How a change goes on when the page it waited for has come in. The
/// session that the page hands out counts from here on. A deletion by name
/// deletes the first rule with the name, by the position that it has in the
/// list of this page, and fails where a form cannot carry that position.
pub open spec fn resumed(context: ContextModel, pending: PendingModel, page: Seq<char>) -> (
    ContextModel,
    StepModel,
) {
    let arrived = received(context, page);
    match pending {
        PendingModel::Resolve(name) => match forwarding_list(page) {
            Ok(list) => match first_named(list, name, 0) {
                Some(position) => if position <= last_position() {
                    change_posted(arrived, "delete"@, position, blank_rule())
                } else {
                    (arrived, StepModel::Failed(OnuErrorModel::PositionTooLarge))
                },
                None => (arrived, StepModel::Failed(OnuErrorModel::NameNotFound)),
            },
            Err(e) => (arrived, StepModel::Failed(e)),
        },
        PendingModel::Reply => (arrived, change_answered(page)),
    }
}

/// What `first_named` returns is the position of a rule of that name, and no
/// rule between `from` and it has the name; where it returns nothing, no
/// rule from `from` on has the name.
pub proof fn lemma_first_named(list: Seq<PortForwardingParamModel>, name: Seq<char>, from: int)
    requires
        0 <= from,
    ensures
        match first_named(list, name, from) {
            Some(at) => from <= at < list.len() && list[at].name == name && forall|j: int|
                from <= j < at ==> (#[trigger] list[j]).name != name,
            None => forall|j: int| from <= j < list.len() ==> (#[trigger] list[j]).name != name,
        },
    decreases list.len() - from,
{
    if from < list.len() && list[from].name != name {
        lemma_first_named(list, name, from + 1);
    }
}

/// A rule made for a machine names that machine in one way only, the way
/// that its switch says.
pub proof fn lemma_new_rule_agrees(
    name: Seq<char>,
    protocol: PortForwardingProtocol,
    wan: Seq<char>,
    lan: PortForwardingHostModel,
    port: PortForwardingPort,
)
    ensures
        target_agrees(new_rule(name, protocol, wan, lan, port)),
{
}

/// Writes a position as a form carries it.
fn write_index(i: u32) -> (text: String)
    ensures
        text@ == signed_decimal(i as int),
{
    string_of(signed_decimal_of(i as i64).as_slice())
}

/// Puts the form of a change together.
fn make_change_form(verb: &str, index: String, rule: &PortForwardingParam) -> (form: Vec<
    (String, String),
>)
    ensures
        form.deep_view() == seq![("IF_ACTION"@, verb@), ("IF_INDEX"@, index@)] + encoded(
            rule.deep_view(),
        ),
{
    let mut form: Vec<(String, String)> = Vec::new();
    form.push((String::from_str("IF_ACTION"), String::from_str(verb)));
    form.push((String::from_str("IF_INDEX"), index));
    let mut fields: Vec<(String, String)> = rule.encode();
    let ghost head = form.deep_view();
    let ghost tail = fields.deep_view();
    form.append(&mut fields);
    assert(form.deep_view() =~= head + tail);
    assert(head =~= seq![("IF_ACTION"@, verb@), ("IF_INDEX"@, index@)]);
    form
}

/// The rule that goes with a deletion.
fn make_blank_rule() -> (rule: PortForwardingParam)
    ensures
        rule.deep_view() == blank_rule(),
{
    PortForwardingParam {
        enable: false,
        name: String::new(),
        protocol: PortForwardingProtocol::TCP,
        wan_interface: String::new(),
        remote_addr_min: None,
        remote_addr_max: None,
        remote_port_min: 0,
        remote_port_max: 0,
        local_addr: None,
        local_mac: None,
        enable_local_mac: false,
        local_port_min: 0,
        local_port_max: 0,
        description: None,
        lease_duration: None,
        port_map_creator: None,
    }
}

/// Finds the first rule of `list` that has the name `name`.
pub fn find_by_name(list: &Vec<PortForwardingParam>, name: &str) -> (found: Option<usize>)
    ensures
        match found {
            Some(at) => first_named(list.deep_view(), name@, 0) == Some(at as int),
            None => first_named(list.deep_view(), name@, 0) is None,
        },
{
    let mut i: usize = 0;
    while i < list.len()
        invariant
            i <= list.len(),
            first_named(list.deep_view(), name@, 0) == first_named(list.deep_view(), name@, i as int),
        decreases list.len() - i,
    {
        if same_text(list[i].name.as_str(), name) {
            return Some(i);
        }
        i += 1;
    }
    None
}

impl Context {
    /// Posts the form of a change.
    fn post_change(&mut self, verb: &str, index: u32, rule: &PortForwardingParam) -> (step: Step)
        ensures
            (final(self).deep_view(), step.deep_view()) == change_posted(
                old(self).deep_view(),
                verb@,
                index as int,
                rule.deep_view(),
            ),
    {
        let form = make_change_form(verb, write_index(index), rule);
        let request: Request = self.submit("app_virtual_conf_t.gch", form);
        Step::Send(Pending::Reply, request)
    }

    /// Begins to add the rule that forwards `port` of the connection `wan`
    /// to the machine `lan`, or to put it in the place of another. Only
    /// `New` and `Apply` are actions for this.
    pub fn port_forwarding(
        &mut self,
        action: PortForwardingAction,
        name: &str,
        protocol: PortForwardingProtocol,
        wan: &str,
        lan: PortForwardingHost,
        port: PortForwardingPort,
    ) -> (step: Step)
        ensures
            (final(self).deep_view(), step.deep_view()) == forwarding_begun(
                old(self).deep_view(),
                action.deep_view(),
                new_rule(name@, protocol, wan@, lan.deep_view(), port),
            ),
    {
        let ranges: PortRanges = port.ranges();
        let is_mac: bool = lan.is_mac();
        let (local_addr, local_mac): (Option<String>, Option<String>) = match lan {
            PortForwardingHost::Host(address) => (Some(address), None),
            PortForwardingHost::Mac(address) => (None, Some(address)),
        };
        let rule = PortForwardingParam {
            enable: true,
            name: String::from_str(name),
            protocol,
            wan_interface: String::from_str(wan),
            remote_addr_min: None,
            remote_addr_max: None,
            remote_port_min: ranges.remote_min,
            remote_port_max: ranges.remote_max,
            local_addr,
            local_mac,
            enable_local_mac: is_mac,
            local_port_min: ranges.local_min,
            local_port_max: ranges.local_max,
            description: None,
            lease_duration: None,
            port_map_creator: None,
        };
        match action {
            PortForwardingAction::New => {
                let form = make_change_form("new", String::from_str("-1"), &rule);
                proof {
                    reveal_strlit("-1");
                    assert("-1"@ =~= signed_decimal(-1));
                }
                let request: Request = self.submit("app_virtual_conf_t.gch", form);
                Step::Send(Pending::Reply, request)
            },
            PortForwardingAction::Apply(i) => if i <= 0x7fff_ffff {
                self.post_change("apply", i, &rule)
            } else {
                Step::Failed(OnuError::PositionTooLarge)
            },
            _ => Step::Failed(OnuError::WrongAction),
        }
    }

    /// Begins to delete a rule. Only `Delete` and `DeleteByName` are actions
    /// for this.
    pub fn port_forwarding_delete(&mut self, action: PortForwardingAction) -> (step: Step)
        ensures
            (final(self).deep_view(), step.deep_view()) == deletion_begun(
                old(self).deep_view(),
                action.deep_view(),
            ),
    {
        match action {
            PortForwardingAction::Delete(i) => if i <= 0x7fff_ffff {
                let rule = make_blank_rule();
                self.post_change("delete", i, &rule)
            } else {
                Step::Failed(OnuError::PositionTooLarge)
            },
            PortForwardingAction::DeleteByName(name) => Step::Send(
                Pending::Resolve(name),
                self.get("app_virtual_conf_t.gch"),
            ),
            _ => Step::Failed(OnuError::WrongAction),
        }
    }

    /// Carries a change on with the page that it waited for.
    pub fn resume(&mut self, pending: Pending, page: &str) -> (step: Step)
        ensures
            (final(self).deep_view(), step.deep_view()) == resumed(
                old(self).deep_view(),
                pending.deep_view(),
                page@,
            ),
    {
        let report: ApiResult = self.receive(page);
        match pending {
            Pending::Resolve(name) => match Context::parse_forwarding_list(page) {
                Ok(list) => match find_by_name(&list, name.as_str()) {
                    Some(position) => if position <= 0x7fff_ffff {
                        let rule = make_blank_rule();
                        self.post_change("delete", position as u32, &rule)
                    } else {
                        Step::Failed(OnuError::PositionTooLarge)
                    },
                    None => Step::Failed(OnuError::NameNotFound),
                },
                Err(e) => Step::Failed(e),
            },
            Pending::Reply => Context::finish_change(report, page),
        }
    }

    /// Ends a change with the router's answer to its form.
    fn finish_change(report: ApiResult, page: &str) -> (step: Step)
        requires
            report.deep_view() == report_in(page@),
        ensures
            step.deep_view() == change_answered(page@),
    {
        if report.is_success() {
            match Context::parse_forwarding_list(page) {
                Ok(list) => Step::Done(list),
                Err(e) => Step::Failed(e),
            }
        } else {
            Step::Failed(OnuError::Protocol(report))
        }
    }

    /// Takes in the page of the rules, and reads the list in it.
    pub fn port_forwarding_list(&mut self, page: &str) -> (rules: Result<
        Vec<PortForwardingParam>,
        OnuError,
    >)
        ensures
            final(self).deep_view() == received(old(self).deep_view(), page@),
            result_model(rules) == forwarding_list(page@),
    {
        let _ = self.receive(page);
        Context::parse_forwarding_list(page)
    }
}

} // verus!
