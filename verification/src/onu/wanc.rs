//! The connections that a port forwarding rule can listen on.
//!
//! The page of the rules names them twice: in the options of the selection
//! box `Frm_WANCViewName`, which tell the address mode, and in a list of
//! records, which tells the internal name. The two are put together by the
//! view name.

use vstd::prelude::*;
use crate::onu::context::{received, Context};
use crate::onu::dom::{extract_marked, marked_elements};
use crate::onu::error::{result_model, Malformed, OnuError, OnuErrorModel};
use crate::onu::records::{
    declared_count, lemma_records_stop, read_count, read_text_at, records_upto, text_at,
};
use crate::text::{chars_of, parse_signed, same_text, signed_value};

verus! {

/// A connection that a rule can listen on.
#[derive(Debug, Clone, PartialEq, Eq)]
pub struct WancInfo {
    /// The name: the text of the option, or the field `WANCName` of a
    /// connection that has no option.
    pub name: String,
    /// The view name, such as `IGD.WD1.WCD3.WCPPP1`: the value of the option,
    /// or the field `WANCViewName`.
    pub view_name: String,
    /// The name that is shown, from the field `ViewName`.
    pub desc_name: String,
    /// The address mode that the option tells; `-1` for a connection that
    /// has no option.
    pub ipmode: isize,
}

/// The model of a `WancInfo`.
pub struct WancInfoModel {
    pub name: Seq<char>,
    pub view_name: Seq<char>,
    pub desc_name: Seq<char>,
    pub ipmode: isize,
}

impl DeepView for WancInfo {
    type V = WancInfoModel;

    open spec fn deep_view(&self) -> WancInfoModel {
        WancInfoModel {
            name: self.name@,
            view_name: self.view_name@,
            desc_name: self.desc_name@,
            ipmode: self.ipmode,
        }
    }
}

/// The text, or the empty text where there is none.
pub open spec fn or_empty(text: Option<Seq<char>>) -> Seq<char> {
    match text {
        Some(t) => t,
        None => Seq::empty(),
    }
}

/// The address mode that `text` tells, where it is a number that fits.
pub open spec fn ipmode_of(text: Seq<char>) -> Option<isize> {
    match signed_value(text) {
        Some(n) => if isize::MIN <= n <= isize::MAX {
            Some(n as isize)
        } else {
            None
        },
        None => None,
    }
}

/// The connection that an option tells, by its text, its value and its
/// address mode; none where the address mode is no number.
pub open spec fn option_entry(option: (Seq<char>, Option<Seq<char>>, Option<Seq<char>>)) -> Result<
    WancInfoModel,
    Malformed,
> {
    match ipmode_of(or_empty(option.2)) {
        Some(ipmode) => Ok(
            WancInfoModel {
                name: option.0,
                view_name: or_empty(option.1),
                desc_name: Seq::empty(),
                ipmode: ipmode,
            },
        ),
        None => Err(Malformed::IpMode),
    }
}

/// How the connection of each of `options` is read.
pub open spec fn option_reader(
    options: Seq<(Seq<char>, Option<Seq<char>>, Option<Seq<char>>)>,
) -> spec_fn(nat) -> Result<WancInfoModel, Malformed> {
    |i: nat| option_entry(options[i as int])
}

/// The connection at position `i` of the list of records in `body`.
pub open spec fn listed_entry(body: Seq<char>, i: nat) -> WancInfoModel {
    WancInfoModel {
        name: text_at(body, "WANCName"@, i),
        view_name: text_at(body, "WANCViewName"@, i),
        desc_name: text_at(body, "ViewName"@, i),
        ipmode: -1isize,
    }
}

/// The position of the first of `list` from `from` on that has the view name
/// `view_name`.
pub open spec fn first_viewed(list: Seq<WancInfoModel>, view_name: Seq<char>, from: int) -> Option<
    int,
>
    decreases list.len() - from,
{
    if 0 <= from < list.len() {
        if list[from].view_name == view_name {
            Some(from)
        } else {
            first_viewed(list, view_name, from + 1)
        }
    } else {
        None
    }
}

/// `list` with `entry` put to it: the first connection with the view name of
/// `entry` takes its shown name, unless it has one; where there is no such
/// connection, `entry` is added at the end.
pub open spec fn merged(list: Seq<WancInfoModel>, entry: WancInfoModel) -> Seq<WancInfoModel> {
    match first_viewed(list, entry.view_name, 0) {
        Some(at) => if list[at].desc_name.len() == 0 {
            list.update(
                at,
                WancInfoModel {
                    name: list[at].name,
                    view_name: list[at].view_name,
                    desc_name: entry.desc_name,
                    ipmode: list[at].ipmode,
                },
            )
        } else {
            list
        },
        None => list.push(entry),
    }
}

/// `list` with the records of `body` at the positions before `n` put to it,
/// one after the other.
pub open spec fn merged_upto(body: Seq<char>, list: Seq<WancInfoModel>, n: nat) -> Seq<
    WancInfoModel,
>
    decreases n,
{
    if n == 0 {
        list
    } else {
        merged(merged_upto(body, list, (n - 1) as nat), listed_entry(body, (n - 1) as nat))
    }
}

/// The connections that the options `options` and the records of `body`
/// tell together; none where an option tells no address mode, or where
/// `body` declares no number of records.
pub open spec fn wanc_list(
    options: Seq<(Seq<char>, Option<Seq<char>>, Option<Seq<char>>)>,
    body: Seq<char>,
) -> Result<Seq<WancInfoModel>, OnuErrorModel> {
    match records_upto(options.len(), option_reader(options)) {
        Ok(list) => match declared_count(body) {
            Some(n) => Ok(merged_upto(body, list, n)),
            None => Err(OnuErrorModel::Parse(Malformed::Count)),
        },
        Err(e) => Err(OnuErrorModel::Parse(e)),
    }
}

/// The options of the selection box in the page `body`; none for a page
/// that cannot be parsed.
pub open spec fn wanc_options(body: Seq<char>) -> Result<
    Seq<(Seq<char>, Option<Seq<char>>, Option<Seq<char>>)>,
    Malformed,
> {
    marked_elements(body, "id"@, "Frm_WANCViewName"@, "option"@, "value"@, "ipmode"@)
}

/// The connections that the page `body` names.
pub open spec fn wanc_page(body: Seq<char>) -> Result<Seq<WancInfoModel>, OnuErrorModel> {
    match wanc_options(body) {
        Ok(options) => wanc_list(options, body),
        Err(e) => Err(OnuErrorModel::Parse(e)),
    }
}

/// Reads the address mode that `text` tells.
fn read_ipmode(text: &Option<String>) -> (ipmode: Option<isize>)
    ensures
        ipmode == ipmode_of(or_empty(text.deep_view())),
{
    let digits: Vec<char> = match text {
        Some(t) => chars_of(t.as_str()),
        None => Vec::new(),
    };
    match parse_signed(digits.as_slice(), isize::MIN as i64, isize::MAX as i64) {
        Some(n) => Some(n as isize),
        None => None,
    }
}

/// Reads the connections that `options` tell.
pub fn wanc_from_options(options: Vec<(String, Option<String>, Option<String>)>) -> (list: Result<
    Vec<WancInfo>,
    Malformed,
>)
    ensures
        result_model(list) == records_upto(
            options.len() as nat,
            option_reader(options.deep_view()),
        ),
{
    let mut list: Vec<WancInfo> = Vec::new();
    let mut i: usize = 0;
    assert(list.deep_view() =~= Seq::empty());
    while i < options.len()
        invariant
            i <= options.len(),
            records_upto(i as nat, option_reader(options.deep_view())) == Ok::<
                Seq<WancInfoModel>,
                Malformed,
            >(list.deep_view()),
        decreases options.len() - i,
    {
        let option = &options[i];
        assert(options.deep_view()[i as int] == (
            option.0@,
            option.1.deep_view(),
            option.2.deep_view(),
        ));
        match read_ipmode(&option.2) {
            Some(ipmode) => {
                let ghost before = list.deep_view();
                let info = WancInfo {
                    name: option.0.clone(),
                    view_name: match &option.1 {
                        Some(value) => value.clone(),
                        None => String::new(),
                    },
                    desc_name: String::new(),
                    ipmode,
                };
                list.push(info);
                assert(list.deep_view() =~= before.push(info.deep_view()));
            },
            None => {
                proof {
                    lemma_records_stop(
                        options.len() as nat,
                        i as nat,
                        option_reader(options.deep_view()),
                    );
                }
                return Err(Malformed::IpMode);
            },
        }
        i += 1;
    }
    Ok(list)
}

/// Puts `entry` to `list`.
pub fn merge_entry(list: &mut Vec<WancInfo>, entry: WancInfo)
    ensures
        final(list).deep_view() == merged(old(list).deep_view(), entry.deep_view()),
{
    let mut i: usize = 0;
    while i < list.len()
        invariant
            i <= list.len(),
            list == old(list),
            first_viewed(list.deep_view(), entry.view_name@, 0) == first_viewed(
                list.deep_view(),
                entry.view_name@,
                i as int,
            ),
        decreases list.len() - i,
    {
        assert(list.deep_view()[i as int] == list[i as int].deep_view());
        if same_text(list[i].view_name.as_str(), entry.view_name.as_str()) {
            if list[i].desc_name.as_str().unicode_len() == 0 {
                let ghost before = list.deep_view();
                let found: WancInfo = list.remove(i);
                list.insert(
                    i,
                    WancInfo {
                        name: found.name,
                        view_name: found.view_name,
                        desc_name: entry.desc_name,
                        ipmode: found.ipmode,
                    },
                );
                assert(list.deep_view() =~= merged(before, entry.deep_view()));
            }
            return ;
        }
        i += 1;
    }
    let ghost before = list.deep_view();
    list.push(entry);
    assert(list.deep_view() =~= before.push(entry.deep_view()));
}

/// Puts the records of `body` to `list`.
pub fn merge_listed(list: Vec<WancInfo>, body: &[char]) -> (merged: Result<Vec<WancInfo>, OnuError>)
    ensures
        result_model(merged) == match declared_count(body@) {
            Some(n) => Ok::<Seq<WancInfoModel>, OnuErrorModel>(
                merged_upto(body@, list.deep_view(), n),
            ),
            None => Err(OnuErrorModel::Parse(Malformed::Count)),
        },
{
    let count: usize = match read_count(body) {
        Some(n) => n,
        None => { return Err(OnuError::Parse(Malformed::Count)); },
    };
    let mut result: Vec<WancInfo> = list;
    let mut i: usize = 0;
    while i < count
        invariant
            i <= count,
            result.deep_view() == merged_upto(body@, list.deep_view(), i as nat),
        decreases count - i,
    {
        let entry = WancInfo {
            name: read_text_at(body, "WANCName", i),
            view_name: read_text_at(body, "WANCViewName", i),
            desc_name: read_text_at(body, "ViewName", i),
            ipmode: -1,
        };
        merge_entry(&mut result, entry);
        i += 1;
    }
    Ok(result)
}

impl Context {
    /// Reads the connections that the page `resp` names.
    pub fn parse_wanc_info(resp: &str) -> (infos: Result<Vec<WancInfo>, OnuError>)
        ensures
            result_model(infos) == wanc_page(resp@),
    {
        let options = match extract_marked(
            resp,
            "id",
            "Frm_WANCViewName",
            "option",
            "value",
            "ipmode",
        ) {
            Ok(options) => options,
            Err(e) => { return Err(OnuError::Parse(e)); },
        };
        match wanc_from_options(options) {
            Ok(list) => {
                let body: Vec<char> = chars_of(resp);
                merge_listed(list, body.as_slice())
            },
            Err(e) => Err(OnuError::Parse(e)),
        }
    }

    /// Takes in the page of the rules, and reads the connections that it
    /// names.
    pub fn wanc_info(&mut self, page: &str) -> (infos: Result<Vec<WancInfo>, OnuError>)
        ensures
            final(self).deep_view() == received(old(self).deep_view(), page@),
            result_model(infos) == wanc_page(page@),
    {
        let _ = self.receive(page);
        Context::parse_wanc_info(page)
    }
}

} // verus!
