//! Tables of keys and values in the markup of a page.
//!
//! The status pages show what they know in tables of two columns: a label and
//! a value. The markup is parsed by the crate `select`; this module turns the
//! cells that it finds into tables that can be asked for a label.

use select::document::Document;
use select::node::Node;
use select::predicate::{Attr, Class, Name, Predicate};
use vstd::prelude::*;
use crate::onu::error::{result_model, Malformed};
use crate::text::{chars_of, same_text, string_of, trim, trimmed};

verus! {

/// `c` is a letter from `A` to `Z`, capital or small.
pub open spec fn is_letter(c: char) -> bool {
    0x41 <= c as u32 <= 0x5a || 0x61 <= c as u32 <= 0x7a
}

/// The number of places in `s` at which a tag can open: a `<` with a letter
/// from `A` to `Z` behind it. No element begins anywhere else.
pub open spec fn tag_openings(s: Seq<char>) -> nat
    decreases s.len(),
{
    if s.len() < 2 {
        0
    } else {
        tag_openings(s.drop_last()) + if s[s.len() - 2] == '<' && is_letter(s.last()) {
            1nat
        } else {
            0nat
        }
    }
}

/// The most characters of a page that can be handed to the parser. The
/// parser keeps a text in buffers that grow by doubling and hold less than
/// two gigabytes each; a character takes four bytes at most, also where the
/// parser puts another in its place.
pub open spec fn most_characters() -> nat {
    0x1fff_ffff
}

/// The most tag openings of a page that can be handed to the parser. The
/// parser goes through the tree of the elements by calling itself once for
/// each level of nesting. An element begins only where a tag can open, and
/// an opening adds two levels at most, its own and that of a row or table
/// body that it implies; the document adds a few. A closing tag is not
/// counted against an opening, since the parser may pass over it. A stack of
/// two mebibytes, the default of a thread, held 1800 levels of nesting and
/// not 1900 when tried, which makes less than 1200 bytes for a level: the
/// 1606 levels of 800 openings take nine tenths of such a stack.
pub open spec fn most_tag_openings() -> nat {
    800
}

/// The page `body` can be handed to the parser: it is neither longer nor
/// richer in tags than the parser takes.
pub open spec fn can_be_parsed(body: Seq<char>) -> bool {
    body.len() <= most_characters() && tag_openings(body) <= most_tag_openings()
}

/// The cells that `select` finds in the page `body`, as `select_cells` hands
/// them out: for each element `container` of the class `class`, in the order
/// of the document, its descendants `row`; for each of those its descendants
/// `cell`; and of each cell the text that it and its descendants hold, and
/// for each child node the name of the element (none for text and comments)
/// and the value of its attribute `attr` (none where it has none).
pub uninterp spec fn html_cells(
    body: Seq<char>,
    container: Seq<char>,
    class: Seq<char>,
    row: Seq<char>,
    cell: Seq<char>,
    attr: Seq<char>,
) -> Seq<Seq<Seq<(Seq<char>, Seq<(Option<Seq<char>>, Option<Seq<char>>)>)>>>;

/// The elements that `select` finds in the page `body`, as `select_marked`
/// hands them out: the elements `tag` below an element whose attribute `key`
/// is `value`, in the order of the document, and of each the text that it
/// and its descendants hold and the values of its attributes `first` and
/// `second` (none where it has none).
pub uninterp spec fn html_marked(
    body: Seq<char>,
    key: Seq<char>,
    value: Seq<char>,
    tag: Seq<char>,
    first: Seq<char>,
    second: Seq<char>,
) -> Seq<(Seq<char>, Option<Seq<char>>, Option<Seq<char>>)>;

/// Parses `body` with `select::document::Document::from`, finds the
/// containers with `Document::find` under the predicate `Name` and `Class`,
/// the rows and the cells below them with `Node::find` under `Name`, and
/// hands out of each cell what `Node::text` returns and, for each node of
/// `Node::children`, what `Node::name` and `Node::attr` return. The contract
/// claims that the same arguments give the same cells. It leaves out the
/// pages on which the call does not return: the parser behind
/// `Document::from` panics when a text grows to two gigabytes, and
/// `Document::from` and `Node::text` call themselves once for each level of
/// nesting.
#[verifier::external_body]
fn select_cells(body: &str, container: &str, class: &str, row: &str, cell: &str, attr: &str) -> (cells:
    Vec<Vec<Vec<(String, Vec<(Option<String>, Option<String>)>)>>>)
    requires
        can_be_parsed(body@),
    ensures
        cells.deep_view() == html_cells(body@, container@, class@, row@, cell@, attr@),
{
    let document = Document::from(body);
    let child = |n: Node| (n.name().map(String::from), n.attr(attr).map(String::from));
    let content = |td: Node| (td.text(), td.children().map(child).collect());
    let cells = |tr: Node| tr.find(Name(cell)).map(content).collect();
    let rows = |table: Node| table.find(Name(row)).map(cells).collect();
    document.find(Name(container).and(Class(class))).map(rows).collect()
}

/// Parses `body` with `select::document::Document::from`, finds with
/// `Document::find` the elements `tag` that the predicate `Descendant` places
/// below an element matched by `Attr`, and hands out of each what
/// `Node::text` and `Node::attr` return. The contract claims that the same
/// arguments give the same elements. It leaves out the pages on which the
/// call does not return, as `select_cells` does.
#[verifier::external_body]
fn select_marked(body: &str, key: &str, value: &str, tag: &str, first: &str, second: &str) -> (found:
    Vec<(String, Option<String>, Option<String>)>)
    requires
        can_be_parsed(body@),
    ensures
        found.deep_view() == html_marked(body@, key@, value@, tag@, first@, second@),
{
    let document = Document::from(body);
    let content = |node: Node| {
        (node.text(), node.attr(first).map(String::from), node.attr(second).map(String::from))
    };
    document.find(Attr(key, value).descendant(Name(tag))).map(content).collect()
}

/// The table that `entries` make when they are entered one after the other,
/// each only where its key is not in the table yet: of two entries with one
/// key, the first counts.
pub open spec fn map_of(entries: Seq<(Seq<char>, Seq<char>)>) -> Map<Seq<char>, Seq<char>>
    decreases entries.len(),
{
    if entries.len() == 0 {
        Map::empty()
    } else {
        let before = map_of(entries.drop_last());
        if before.contains_key(entries.last().0) {
            before
        } else {
            before.insert(entries.last().0, entries.last().1)
        }
    }
}

/// The value that `table` has for `key`, or the empty text where it has
/// none.
pub open spec fn value_of(table: Map<Seq<char>, Seq<char>>, key: Seq<char>) -> Seq<char> {
    if table.contains_key(key) {
        table[key]
    } else {
        Seq::empty()
    }
}

/// The position of the first of `entries` that has the key `key`.
pub open spec fn first_entry(entries: Seq<(Seq<char>, Seq<char>)>, key: Seq<char>, from: int) -> Option<
    int,
>
    decreases entries.len() - from,
{
    if 0 <= from < entries.len() {
        if entries[from].0 == key {
            Some(from)
        } else {
            first_entry(entries, key, from + 1)
        }
    } else {
        None
    }
}

/// A key is in the table exactly where an entry has it, and its value is
/// that of the first such entry.
pub proof fn lemma_map_of(entries: Seq<(Seq<char>, Seq<char>)>, key: Seq<char>)
    ensures
        match first_entry(entries, key, 0) {
            Some(at) => 0 <= at < entries.len() && map_of(entries).contains_key(key) && map_of(
                entries,
            )[key] == entries[at].1,
            None => !map_of(entries).contains_key(key),
        },
    decreases entries.len(),
{
    if entries.len() > 0 {
        let head = entries.drop_last();
        lemma_map_of(head, key);
        lemma_first_entry_prefix(entries, key, 0);
    }
}

/// The first entry with a key is found in the list without its last entry,
/// where it is there, and is the last entry otherwise, where that has the
/// key.
proof fn lemma_first_entry_prefix(entries: Seq<(Seq<char>, Seq<char>)>, key: Seq<char>, from: int)
    requires
        entries.len() > 0,
        0 <= from,
    ensures
        first_entry(entries, key, from) == match first_entry(entries.drop_last(), key, from) {
            Some(at) => Some(at),
            None => if from < entries.len() && entries.last().0 == key {
                Some(entries.len() - 1)
            } else {
                None
            },
        },
    decreases entries.len() - from,
{
    let head = entries.drop_last();
    if from < entries.len() - 1 {
        assert(head[from] == entries[from]);
        if entries[from].0 != key {
            lemma_first_entry_prefix(entries, key, from + 1);
        }
    } else if from == entries.len() - 1 {
        assert(first_entry(entries, key, from + 1) is None);
    }
}

/// Where no entry is found for a key, no entry has it.
pub proof fn lemma_first_entry_none(
    entries: Seq<(Seq<char>, Seq<char>)>,
    key: Seq<char>,
    from: int,
)
    requires
        0 <= from,
        first_entry(entries, key, from) is None,
    ensures
        forall|j: int| from <= j < entries.len() ==> (#[trigger] entries[j]).0 != key,
    decreases entries.len() - from,
{
    if from < entries.len() {
        lemma_first_entry_none(entries, key, from + 1);
    }
}

/// No two of `entries` have the same key.
pub open spec fn distinct_keys(entries: Seq<(Seq<char>, Seq<char>)>) -> bool {
    forall|i: int, j: int|
        0 <= i < j < entries.len() ==> (#[trigger] entries[i]).0 != (#[trigger] entries[j]).0
}

/// Looks up the value of `key` in the table that `entries` make.
pub fn lookup<'a>(entries: &'a Vec<(String, String)>, key: &str) -> (value: Option<&'a String>)
    ensures
        match value {
            Some(v) => map_of(entries.deep_view()).contains_key(key@) && map_of(
                entries.deep_view(),
            )[key@] == v@,
            None => !map_of(entries.deep_view()).contains_key(key@),
        },
{
    let mut i: usize = 0;
    while i < entries.len()
        invariant
            i <= entries.len(),
            first_entry(entries.deep_view(), key@, 0) == first_entry(
                entries.deep_view(),
                key@,
                i as int,
            ),
        decreases entries.len() - i,
    {
        assert(entries.deep_view()[i as int] == (entries[i as int].0@, entries[i as int].1@));
        if same_text(entries[i].0.as_str(), key) {
            proof {
                lemma_map_of(entries.deep_view(), key@);
            }
            return Some(&entries[i].1);
        }
        i += 1;
    }
    proof {
        lemma_map_of(entries.deep_view(), key@);
    }
    None
}

/// A table of keys and values. A key has one value: the one that was entered
/// first.
#[derive(Debug, PartialEq, Eq)]
pub struct KeyValueTable {
    entries: Vec<(String, String)>,
}

impl DeepView for KeyValueTable {
    type V = Map<Seq<char>, Seq<char>>;

    closed spec fn deep_view(&self) -> Map<Seq<char>, Seq<char>> {
        map_of(self.entries.deep_view())
    }
}

impl KeyValueTable {
    /// The entries hold each key once.
    #[verifier::type_invariant]
    spec fn well_formed(self) -> bool {
        distinct_keys(self.entries.deep_view())
    }

    /// The table without entries.
    pub fn new() -> (table: KeyValueTable)
        ensures
            table.deep_view() == Map::<Seq<char>, Seq<char>>::empty(),
    {
        let entries: Vec<(String, String)> = Vec::new();
        assert(entries.deep_view() =~= Seq::empty());
        KeyValueTable { entries }
    }

    /// The table that `entries` make when they are entered in order.
    pub fn from_entries(entries: Vec<(String, String)>) -> (table: KeyValueTable)
        ensures
            table.deep_view() == map_of(entries.deep_view()),
    {
        let mut table = KeyValueTable::new();
        let mut i: usize = 0;
        assert(entries.deep_view().take(0) =~= Seq::empty());
        while i < entries.len()
            invariant
                i <= entries.len(),
                table.deep_view() == map_of(entries.deep_view().take(i as int)),
            decreases entries.len() - i,
        {
            let ghost all = entries.deep_view();
            assert(all[i as int] == (entries[i as int].0@, entries[i as int].1@));
            assert(all.take(i + 1).drop_last() =~= all.take(i as int));
            table.insert_absent(entries[i].0.clone(), entries[i].1.clone());
            i += 1;
        }
        assert(entries.deep_view().take(entries.len() as int) =~= entries.deep_view());
        table
    }

    /// The value of `key`, where the table has one.
    pub fn get(&self, key: &str) -> (value: Option<&String>)
        ensures
            match value {
                Some(v) => self.deep_view().contains_key(key@) && self.deep_view()[key@] == v@,
                None => !self.deep_view().contains_key(key@),
            },
    {
        lookup(&self.entries, key)
    }

    /// The value of `key`, or the empty text where the table has none.
    pub fn text(&self, key: &str) -> (value: String)
        ensures
            value@ == value_of(self.deep_view(), key@),
    {
        match self.get(key) {
            Some(v) => v.clone(),
            None => String::new(),
        }
    }

    /// Enters `value` for `key`, unless the table has a value for `key`.
    pub fn insert_absent(&mut self, key: String, value: String)
        ensures
            final(self).deep_view() == if old(self).deep_view().contains_key(key@) {
                old(self).deep_view()
            } else {
                old(self).deep_view().insert(key@, value@)
            },
    {
        proof {
            use_type_invariant(&*self);
        }
        if lookup(&self.entries, key.as_str()).is_none() {
            let mut entries: Vec<(String, String)> = Vec::new();
            std::mem::swap(&mut entries, &mut self.entries);
            let ghost before = entries.deep_view();
            proof {
                lemma_map_of(before, key@);
                lemma_first_entry_none(before, key@, 0);
            }
            entries.push((key, value));
            assert(entries.deep_view().drop_last() =~= before);
            assert(entries.deep_view().last() == (key@, value@));
            assert(distinct_keys(entries.deep_view())) by {
                let after = entries.deep_view();
                assert forall|i: int, j: int| 0 <= i < j < after.len() implies (
                #[trigger] after[i]).0 != (#[trigger] after[j]).0 by {
                    assert(after[i] == before[i]);
                    if j < before.len() {
                        assert(after[j] == before[j]);
                    }
                }
            }
            *self = KeyValueTable { entries };
        }
    }
}

/// The text that a cell shows: the value of the first input element among
/// its children, where it has one (empty where that has no value), and the
/// text that it holds otherwise; without the white space around it.
pub open spec fn cell_text(cell: (Seq<char>, Seq<(Option<Seq<char>>, Option<Seq<char>>)>)) -> Seq<
    char,
> {
    trimmed(
        match first_input(cell.1, 0) {
            Some(at) => match cell.1[at].1 {
                Some(value) => value,
                None => Seq::empty(),
            },
            None => cell.0,
        },
    )
}

/// The position of the first input element among `children` from `from` on.
pub open spec fn first_input(
    children: Seq<(Option<Seq<char>>, Option<Seq<char>>)>,
    from: int,
) -> Option<int>
    decreases children.len() - from,
{
    if 0 <= from < children.len() {
        if children[from].0 == Some("input"@) {
            Some(from)
        } else {
            first_input(children, from + 1)
        }
    } else {
        None
    }
}

/// The entry that a row makes: its first cell is the key and its second the
/// value; a cell that is not there counts as empty.
pub open spec fn row_entry(
    row: Seq<(Seq<char>, Seq<(Option<Seq<char>>, Option<Seq<char>>)>)>,
) -> (Seq<char>, Seq<char>) {
    (
        if row.len() > 0 {
            cell_text(row[0])
        } else {
            Seq::empty()
        },
        if row.len() > 1 {
            cell_text(row[1])
        } else {
            Seq::empty()
        },
    )
}

/// The table that the rows make, entered from the first to the last.
pub open spec fn table_of(
    rows: Seq<Seq<(Seq<char>, Seq<(Option<Seq<char>>, Option<Seq<char>>)>)>>,
) -> Map<Seq<char>, Seq<char>> {
    map_of(rows.map_values(|row| row_entry(row)))
}

/// The tables that the containers make, one each.
pub open spec fn tables_of(
    containers: Seq<Seq<Seq<(Seq<char>, Seq<(Option<Seq<char>>, Option<Seq<char>>)>)>>>,
) -> Seq<Map<Seq<char>, Seq<char>>> {
    containers.map_values(|rows| table_of(rows))
}

/// The tables of keys and values in the page `body`: one for each element
/// `container` of the class `class`, made of its rows `row` with their
/// cells `cell`; none for a page that cannot be parsed.
pub open spec fn key_value_tables(
    body: Seq<char>,
    container: Seq<char>,
    class: Seq<char>,
    row: Seq<char>,
    cell: Seq<char>,
) -> Result<Seq<Map<Seq<char>, Seq<char>>>, Malformed> {
    if can_be_parsed(body) {
        Ok(tables_of(html_cells(body, container, class, row, cell, "value"@)))
    } else {
        Err(Malformed::Markup)
    }
}

/// The elements `tag` of the page `body` below an element whose attribute
/// `key` is `value`, each with its text and its attributes `first` and
/// `second`; none for a page that cannot be parsed.
pub open spec fn marked_elements(
    body: Seq<char>,
    key: Seq<char>,
    value: Seq<char>,
    tag: Seq<char>,
    first: Seq<char>,
    second: Seq<char>,
) -> Result<Seq<(Seq<char>, Option<Seq<char>>, Option<Seq<char>>)>, Malformed> {
    if can_be_parsed(body) {
        Ok(html_marked(body, key, value, tag, first, second))
    } else {
        Err(Malformed::Markup)
    }
}

/// Tells whether `c` is a letter from `A` to `Z`, capital or small.
fn is_ascii_letter(c: char) -> (r: bool)
    ensures
        r == is_letter(c),
{
    let n: u32 = c as u32;
    (0x41 <= n && n <= 0x5a) || (0x61 <= n && n <= 0x7a)
}

/// Counts the places in `s` at which a tag can open.
pub fn count_tag_openings(s: &[char]) -> (count: usize)
    ensures
        count == tag_openings(s@),
{
    let mut count: usize = 0;
    let mut k: usize = 0;
    while k < s.len()
        invariant
            k <= s.len(),
            count <= k,
            count == tag_openings(s@.take(k as int)),
        decreases s.len() - k,
    {
        assert(s@.take(k + 1).drop_last() =~= s@.take(k as int));
        if k > 0 && s[k - 1] == '<' && is_ascii_letter(s[k]) {
            count += 1;
        }
        k += 1;
    }
    assert(s@.take(s.len() as int) =~= s@);
    count
}

/// Tells whether the page `body` can be handed to the parser.
pub fn check_markup(body: &str) -> (ok: bool)
    ensures
        ok == can_be_parsed(body@),
{
    if body.unicode_len() > 0x1fff_ffff {
        return false;
    }
    let chars: Vec<char> = chars_of(body);
    count_tag_openings(chars.as_slice()) <= 800
}

/// Reads the text that a cell shows.
pub fn parse_node_text(cell: &(String, Vec<(Option<String>, Option<String>)>)) -> (text: String)
    ensures
        text@ == cell_text(cell.deep_view()),
{
    let mut i: usize = 0;
    let mut shown: &str = cell.0.as_str();
    while i < cell.1.len()
        invariant_except_break
            i <= cell.1.len(),
            shown@ == cell.0@,
            first_input(cell.1.deep_view(), 0) == first_input(cell.1.deep_view(), i as int),
        ensures
            shown@ == match first_input(cell.1.deep_view(), 0) {
                Some(at) => match cell.1.deep_view()[at].1 {
                    Some(value) => value,
                    None => Seq::empty(),
                },
                None => cell.0@,
            },
        decreases cell.1.len() - i,
    {
        assert(cell.1.deep_view()[i as int] == (
            cell.1[i as int].0.deep_view(),
            cell.1[i as int].1.deep_view(),
        ));
        let is_input: bool = match &cell.1[i].0 {
            Some(name) => same_text(name.as_str(), "input"),
            None => false,
        };
        if is_input {
            shown = match &cell.1[i].1 {
                Some(value) => value.as_str(),
                None => "",
            };
            proof {
                reveal_strlit("");
                assert(cell.1[i as int].1 is None ==> shown@ =~= Seq::<char>::empty());
            }
            break ;
        }
        i += 1;
    }
    let chars: Vec<char> = chars_of(shown);
    string_of(trim(chars.as_slice()))
}

/// Makes the table of the rows of one container.
pub fn table_from_rows(rows: &Vec<Vec<(String, Vec<(Option<String>, Option<String>)>)>>) -> (table:
    KeyValueTable)
    ensures
        table.deep_view() == table_of(rows.deep_view()),
{
    let mut table = KeyValueTable::new();
    let mut i: usize = 0;
    let ghost entries = rows.deep_view().map_values(
        |row: Seq<(Seq<char>, Seq<(Option<Seq<char>>, Option<Seq<char>>)>)>| row_entry(row),
    );
    assert(entries.take(0) =~= Seq::empty());
    while i < rows.len()
        invariant
            i <= rows.len(),
            entries == rows.deep_view().map_values(
                |row: Seq<(Seq<char>, Seq<(Option<Seq<char>>, Option<Seq<char>>)>)>|
                    row_entry(row),
            ),
            table.deep_view() == map_of(entries.take(i as int)),
        decreases rows.len() - i,
    {
        let row = &rows[i];
        let key: String = if row.len() > 0 {
            parse_node_text(&row[0])
        } else {
            String::new()
        };
        let value: String = if row.len() > 1 {
            parse_node_text(&row[1])
        } else {
            String::new()
        };
        assert(entries[i as int] == (key@, value@));
        assert(entries.take(i + 1).drop_last() =~= entries.take(i as int));
        table.insert_absent(key, value);
        i += 1;
    }
    assert(entries.take(rows.len() as int) =~= entries);
    table
}

/// Makes the tables of the containers, one each.
pub fn tables_from_cells(
    containers: &Vec<Vec<Vec<(String, Vec<(Option<String>, Option<String>)>)>>>,
) -> (tables: Vec<KeyValueTable>)
    ensures
        tables.deep_view() == tables_of(containers.deep_view()),
{
    let mut tables: Vec<KeyValueTable> = Vec::new();
    let mut i: usize = 0;
    while i < containers.len()
        invariant
            i <= containers.len(),
            tables.len() == i,
            forall|k: int|
                0 <= k < i ==> (#[trigger] tables[k]).deep_view() == table_of(
                    containers[k].deep_view(),
                ),
        decreases containers.len() - i,
    {
        tables.push(table_from_rows(&containers[i]));
        i += 1;
    }
    assert(tables.deep_view() =~= tables_of(containers.deep_view()));
    tables
}

/// Reads the tables of keys and values in the page `body`.
pub fn extract_key_value_tables(
    body: &str,
    container_tag: &str,
    container_class: &str,
    row_tag: &str,
    cell_tag: &str,
) -> (tables: Result<Vec<KeyValueTable>, Malformed>)
    ensures
        result_model(tables) == key_value_tables(
            body@,
            container_tag@,
            container_class@,
            row_tag@,
            cell_tag@,
        ),
{
    if !check_markup(body) {
        return Err(Malformed::Markup);
    }
    let cells = select_cells(body, container_tag, container_class, row_tag, cell_tag, "value");
    Ok(tables_from_cells(&cells))
}

/// Reads the elements `tag` of the page `body` below an element whose
/// attribute `key` is `value`.
pub fn extract_marked(body: &str, key: &str, value: &str, tag: &str, first: &str, second: &str) -> (found:
    Result<Vec<(String, Option<String>, Option<String>)>, Malformed>)
    ensures
        result_model(found) == marked_elements(body@, key@, value@, tag@, first@, second@),
{
    if !check_markup(body) {
        return Err(Malformed::Markup);
    }
    Ok(select_marked(body, key, value, tag, first, second))
}

} // verus!
