//! What is shown to the person at the keyboard: rules in short, ranges of
//! ports as they are typed, and records laid out under common headers.

use vstd::prelude::*;
use crate::onu::dom::{lookup, map_of, value_of};
use crate::onu::port_forwarding::{
    protocol_name, PortForwardingParam, PortForwardingParamModel,
};
use crate::text::{
    chars_of, decimal, find_char, find_from, lemma_decimal_value, lemma_find_from_first,
    lemma_matches_char, parse_unsigned, part, push_decimal, same_text, string_of, unsigned_value,
};

verus! {

/// The text to show for a text that may be missing: empty where it is.
pub open spec fn shown(text: Option<Seq<char>>) -> Seq<char> {
    match text {
        Some(t) => t,
        None => Seq::empty(),
    }
}

/// The text to show for `o`.
pub fn display_option(o: &Option<String>) -> (text: String)
    ensures
        text@ == shown(o.deep_view()),
{
    match o {
        Some(s) => s.clone(),
        None => String::new(),
    }
}

/// How a range of ports is written: one port alone where the range is one
/// port, else its first and last port with a colon between.
pub open spec fn port_span(min: u32, max: u32) -> Seq<char> {
    if min == max {
        decimal(min as nat)
    } else {
        decimal(min as nat) + seq![':'] + decimal(max as nat)
    }
}

/// The port that `text` denotes, where it denotes one.
pub open spec fn port_value(text: Seq<char>) -> Option<u32> {
    match unsigned_value(text) {
        Some(n) => if n <= u32::MAX {
            Some(n as u32)
        } else {
            None
        },
        None => None,
    }
}

/// The range of ports that `text` denotes: one port, or two with a colon
/// between; nothing where a part is no port.
pub open spec fn port_range_of(text: Seq<char>) -> Option<(u32, u32)> {
    match find_from(text, seq![':'], 0) {
        Some(i) => match port_value(text.take(i)) {
            Some(min) => match port_value(text.skip(i + 1)) {
                Some(max) => Some((min, max)),
                None => None,
            },
            None => None,
        },
        None => match port_value(text) {
            Some(port) => Some((port, port)),
            None => None,
        },
    }
}

/// A range of ports, by its first and its last port.
#[derive(Debug, Clone, Copy, PartialEq, Eq)]
pub struct PortRange(pub u32, pub u32);

/// Reads a port.
fn read_port(text: &[char]) -> (port: Option<u32>)
    ensures
        port == port_value(text@),
{
    match parse_unsigned(text, 0xffff_ffff) {
        Some(n) => Some(n as u32),
        None => None,
    }
}

/// Writes a range of ports.
pub fn write_port_span(min: u32, max: u32) -> (text: String)
    ensures
        text@ == port_span(min, max),
{
    let mut out: Vec<char> = Vec::new();
    push_decimal(&mut out, min as u64);
    if min != max {
        out.push(':');
        push_decimal(&mut out, max as u64);
    }
    assert(out@ =~= port_span(min, max));
    string_of(out.as_slice())
}

impl PortRange {
    /// The range that `s` denotes, such as `3389` or `8000:8999`.
    pub fn from_str(s: &str) -> (range: Option<PortRange>)
        ensures
            match range {
                Some(r) => port_range_of(s@) == Some((r.0, r.1)),
                None => port_range_of(s@) is None,
            },
    {
        let chars: Vec<char> = chars_of(s);
        let text: &[char] = chars.as_slice();
        match find_char(text, ':') {
            Some(i) => {
                let min: u32 = match read_port(part(text, 0, i)) {
                    Some(port) => port,
                    None => { return None; },
                };
                let max: u32 = match read_port(part(text, i + 1, text.len())) {
                    Some(port) => port,
                    None => { return None; },
                };
                Some(PortRange(min, max))
            },
            None => match read_port(text) {
                Some(port) => Some(PortRange(port, port)),
                None => None,
            },
        }
    }

    /// The range as it is written.
    pub fn to_string(&self) -> (text: String)
        ensures
            text@ == port_span(self.0, self.1),
    {
        write_port_span(self.0, self.1)
    }
}

/// A range is read as it was written.
pub proof fn lemma_port_range_round_trip(min: u32, max: u32)
    ensures
        port_range_of(port_span(min, max)) == Some((min, max)),
{
    let first = decimal(min as nat);
    let second = decimal(max as nat);
    lemma_decimal_value(min as nat);
    lemma_decimal_value(max as nat);
    assert forall|j: int| 0 <= j < first.len() implies first[j] != ':' by {
        crate::text::lemma_digit(first[j], 0);
    }
    if min == max {
        assert forall|j: int| 0 <= j implies !crate::text::matches_at(first, seq![':'], j) by {
            lemma_matches_char(first, ':', j);
        }
        crate::text::lemma_find_from(first, seq![':'], 0);
    } else {
        let text = first + seq![':'] + second;
        let at = first.len() as int;
        assert forall|j: int| 0 <= j < at implies !crate::text::matches_at(text, seq![':'], j) by {
            lemma_matches_char(text, ':', j);
            assert(text[j] == first[j]);
        }
        lemma_matches_char(text, ':', at);
        lemma_find_from_first(text, seq![':'], 0, at);
        assert(text.take(at) =~= first);
        assert(text.skip(at + 1) =~= second);
    }
}

/// A rule in short, as it is shown in a list.
#[derive(Debug, Clone, PartialEq, Eq)]
pub struct PortForwardingRow {
    /// The rule is in force.
    pub enabled: bool,
    /// The name of the rule.
    pub name: String,
    /// The protocol, by its name.
    pub protocol: String,
    /// The ports on the router's side.
    pub external_port: String,
    /// The ports on the local side.
    pub internal_port: String,
    /// The local machine, by the address that the rule uses.
    pub internal_addr: String,
    /// The description, empty where the rule has none.
    pub description: String,
}

/// The model of a `PortForwardingRow`.
pub struct PortForwardingRowModel {
    pub enabled: bool,
    pub name: Seq<char>,
    pub protocol: Seq<char>,
    pub external_port: Seq<char>,
    pub internal_port: Seq<char>,
    pub internal_addr: Seq<char>,
    pub description: Seq<char>,
}

impl DeepView for PortForwardingRow {
    type V = PortForwardingRowModel;

    open spec fn deep_view(&self) -> PortForwardingRowModel {
        PortForwardingRowModel {
            enabled: self.enabled,
            name: self.name@,
            protocol: self.protocol@,
            external_port: self.external_port@,
            internal_port: self.internal_port@,
            internal_addr: self.internal_addr@,
            description: self.description@,
        }
    }
}

/// `rule` in short.
pub open spec fn row_of(rule: PortForwardingParamModel) -> PortForwardingRowModel {
    PortForwardingRowModel {
        enabled: rule.enable,
        name: rule.name,
        protocol: protocol_name(rule.protocol),
        external_port: port_span(rule.remote_port_min, rule.remote_port_max),
        internal_port: port_span(rule.local_port_min, rule.local_port_max),
        internal_addr: shown(
            if rule.enable_local_mac {
                rule.local_mac
            } else {
                rule.local_addr
            },
        ),
        description: shown(rule.description),
    }
}

impl PortForwardingParam {
    /// The rule in short.
    pub fn row(&self) -> (row: PortForwardingRow)
        ensures
            row.deep_view() == row_of(self.deep_view()),
    {
        PortForwardingRow {
            enabled: self.enable,
            name: self.name.clone(),
            protocol: self.protocol.to_string(),
            external_port: write_port_span(self.remote_port_min, self.remote_port_max),
            internal_port: write_port_span(self.local_port_min, self.local_port_max),
            internal_addr: if self.enable_local_mac {
                display_option(&self.local_mac)
            } else {
                display_option(&self.local_addr)
            },
            description: display_option(&self.description),
        }
    }
}

/// `keys` with `key` added at the end, unless it is among them.
pub open spec fn with_key(keys: Seq<Seq<char>>, key: Seq<char>) -> Seq<Seq<char>> {
    if keys.contains(key) {
        keys
    } else {
        keys.push(key)
    }
}

/// `keys` with the keys of the first `n` entries of `row` added, one after
/// the other.
pub open spec fn with_keys_of(
    keys: Seq<Seq<char>>,
    row: Seq<(Seq<char>, Seq<char>)>,
    n: nat,
) -> Seq<Seq<char>>
    decreases n,
{
    if n == 0 {
        keys
    } else {
        with_key(with_keys_of(keys, row, (n - 1) as nat), row[n - 1].0)
    }
}

/// The keys of the first `n` of `rows`, each once, in the order in which
/// they are first met.
pub open spec fn headers_upto(rows: Seq<Seq<(Seq<char>, Seq<char>)>>, n: nat) -> Seq<Seq<char>>
    decreases n,
{
    if n == 0 {
        Seq::empty()
    } else {
        with_keys_of(headers_upto(rows, (n - 1) as nat), rows[n - 1], rows[n - 1].len())
    }
}

/// The keys of `rows`, each once, in the order in which they are first met.
pub open spec fn headers_of(rows: Seq<Seq<(Seq<char>, Seq<char>)>>) -> Seq<Seq<char>> {
    headers_upto(rows, rows.len())
}

/// What `row` has under each of `headers`; empty where it has nothing.
pub open spec fn record_of(row: Seq<(Seq<char>, Seq<char>)>, headers: Seq<Seq<char>>) -> Seq<
    Seq<char>,
> {
    Seq::new(headers.len(), |k: int| value_of(map_of(row), headers[k]))
}

/// `rows` laid out under common headers: first the headers, then for each
/// row what it has under each of them.
pub open spec fn tabulated(rows: Seq<Seq<(Seq<char>, Seq<char>)>>) -> Seq<Seq<Seq<char>>> {
    Seq::new(
        rows.len() + 1,
        |i: int|
            if i == 0 {
                headers_of(rows)
            } else {
                record_of(rows[i - 1], headers_of(rows))
            },
    )
}

/// Tells whether `key` is among `keys`.
fn has_key(keys: &Vec<String>, key: &str) -> (found: bool)
    ensures
        found == keys.deep_view().contains(key@),
{
    let mut i: usize = 0;
    while i < keys.len()
        invariant
            i <= keys.len(),
            forall|k: int| 0 <= k < i ==> keys.deep_view()[k] != key@,
        decreases keys.len() - i,
    {
        assert(keys.deep_view()[i as int] == keys[i as int]@);
        if same_text(keys[i].as_str(), key) {
            return true;
        }
        i += 1;
    }
    false
}

/// Finds the keys of `rows`, each once, in the order in which they are first
/// met.
pub fn headers(rows: &Vec<Vec<(String, String)>>) -> (keys: Vec<String>)
    ensures
        keys.deep_view() == headers_of(rows.deep_view()),
{
    let mut keys: Vec<String> = Vec::new();
    let mut i: usize = 0;
    assert(keys.deep_view() =~= Seq::empty());
    while i < rows.len()
        invariant
            i <= rows.len(),
            keys.deep_view() == headers_upto(rows.deep_view(), i as nat),
        decreases rows.len() - i,
    {
        let row = &rows[i];
        let mut j: usize = 0;
        assert(rows.deep_view()[i as int] == row.deep_view());
        while j < row.len()
            invariant
                j <= row.len(),
                i < rows.len(),
                row == &rows[i as int],
                rows.deep_view()[i as int] == row.deep_view(),
                keys.deep_view() == with_keys_of(
                    headers_upto(rows.deep_view(), i as nat),
                    row.deep_view(),
                    j as nat,
                ),
            decreases row.len() - j,
        {
            assert(row.deep_view()[j as int] == (row[j as int].0@, row[j as int].1@));
            if !has_key(&keys, row[j].0.as_str()) {
                let ghost before = keys.deep_view();
                keys.push(row[j].0.clone());
                assert(keys.deep_view() =~= before.push(row[j as int].0@));
            }
            j += 1;
        }
        i += 1;
    }
    keys
}

/// Lays `rows` out under common headers.
pub fn tabulate(rows: &Vec<Vec<(String, String)>>) -> (records: Vec<Vec<String>>)
    ensures
        records.deep_view() == tabulated(rows.deep_view()),
{
    let keys: Vec<String> = headers(rows);
    let mut records: Vec<Vec<String>> = Vec::new();
    let mut first: Vec<String> = Vec::new();
    let mut k: usize = 0;
    while k < keys.len()
        invariant
            k <= keys.len(),
            first.len() == k,
            forall|m: int| 0 <= m < k ==> first[m]@ == keys[m]@,
        decreases keys.len() - k,
    {
        first.push(keys[k].clone());
        k += 1;
    }
    assert(first.deep_view() =~= keys.deep_view());
    records.push(first);
    let mut i: usize = 0;
    while i < rows.len()
        invariant
            i <= rows.len(),
            records.len() == i + 1,
            keys.deep_view() == headers_of(rows.deep_view()),
            records[0].deep_view() == headers_of(rows.deep_view()),
            forall|r: int|
                0 <= r < i ==> (#[trigger] records[r + 1]).deep_view() == record_of(
                    rows[r].deep_view(),
                    headers_of(rows.deep_view()),
                ),
        decreases rows.len() - i,
    {
        let row = &rows[i];
        let mut record: Vec<String> = Vec::new();
        let mut k: usize = 0;
        while k < keys.len()
            invariant
                k <= keys.len(),
                record.len() == k,
                forall|m: int|
                    0 <= m < k ==> (#[trigger] record[m])@ == value_of(
                        map_of(row.deep_view()),
                        keys[m]@,
                    ),
            decreases keys.len() - k,
        {
            let cell: String = match lookup(row, keys[k].as_str()) {
                Some(value) => value.clone(),
                None => String::new(),
            };
            record.push(cell);
            k += 1;
        }
        assert(record.deep_view() =~= record_of(row.deep_view(), headers_of(rows.deep_view())));
        records.push(record);
        i += 1;
    }
    assert(records.deep_view() =~= tabulated(rows.deep_view())) by {
        assert forall|r: int| 0 <= r < records.len() implies records.deep_view()[r] == tabulated(
            rows.deep_view(),
        )[r] by {
            if r > 0 {
                assert(records[r - 1 + 1].deep_view() == record_of(
                    rows[r - 1].deep_view(),
                    headers_of(rows.deep_view()),
                ));
            }
        }
    }
    records
}

} // verus!
