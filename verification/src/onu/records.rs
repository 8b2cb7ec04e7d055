//! Lists of records in a page.
//!
//! A page that holds a list gives the number of its records in the field
//! `IF_INSTNUM`, and the fields of the record at position `i`, counted from
//! zero, under their names followed by `i` in decimal notation.

use vstd::prelude::*;
use crate::onu::error::Malformed;
use crate::onu::token_call::{extract, extract_text, text_of, transfer_meaning};
use crate::text::{
    chars_of, decimal, parse_unsigned, push_decimal, string_of, unsigned_value,
};

verus! {

/// The name of the field `name` of the record at position `i`.
pub open spec fn indexed(name: Seq<char>, i: nat) -> Seq<char> {
    name + decimal(i)
}

/// The value that `body` gives to the field `name` of the record at `i`.
pub open spec fn field_at(body: Seq<char>, name: Seq<char>, i: nat) -> Option<Seq<char>> {
    transfer_meaning(body, indexed(name, i))
}

/// The value that `body` gives to the field `name` of the record at `i`, or
/// the empty text where it gives none.
pub open spec fn text_at(body: Seq<char>, name: Seq<char>, i: nat) -> Seq<char> {
    text_of(body, indexed(name, i))
}

/// The number of records that `body` declares: nothing where it declares
/// none, or one that is no number, or a number beyond what can be counted.
pub open spec fn declared_count(body: Seq<char>) -> Option<nat> {
    match unsigned_value(text_of(body, "IF_INSTNUM"@)) {
        Some(n) => if n <= usize::MAX {
            Some(n)
        } else {
            None
        },
        None => None,
    }
}

/// The records at the positions before `n`, in order, each read by
/// `record_at`; or what is wrong with the first one that cannot be read.
pub open spec fn records_upto<T>(
    n: nat,
    record_at: spec_fn(nat) -> Result<T, Malformed>,
) -> Result<Seq<T>, Malformed>
    decreases n,
{
    if n == 0 {
        Ok(Seq::empty())
    } else {
        match records_upto((n - 1) as nat, record_at) {
            Ok(before) => match record_at((n - 1) as nat) {
                Ok(record) => Ok(before.push(record)),
                Err(e) => Err(e),
            },
            Err(e) => Err(e),
        }
    }
}

/// A list is read whole or not at all: where it is read it has `n` records,
/// the one at each position read from that position; where it is not, the
/// first record that cannot be read says why.
pub proof fn lemma_records_upto<T>(n: nat, record_at: spec_fn(nat) -> Result<T, Malformed>)
    ensures
        match records_upto(n, record_at) {
            Ok(list) => list.len() == n && forall|i: nat|
                i < n ==> record_at(i) == Ok::<T, Malformed>(#[trigger] list[i as int]),
            Err(e) => exists|i: nat|
                i < n && #[trigger] record_at(i) == Err::<T, Malformed>(e) && forall|j: nat|
                    j < i ==> (#[trigger] record_at(j)) is Ok,
        },
    decreases n,
{
    if n > 0 {
        let m = (n - 1) as nat;
        lemma_records_upto(m, record_at);
        match records_upto(m, record_at) {
            Ok(before) => match record_at(m) {
                Ok(record) => {
                    let list = before.push(record);
                    assert forall|i: nat| i < n implies record_at(i) == Ok::<T, Malformed>(
                        #[trigger] list[i as int],
                    ) by {
                        if i < m {
                            assert(list[i as int] == before[i as int]);
                        }
                    }
                },
                Err(e) => {
                    assert(record_at(m) == Err::<T, Malformed>(e));
                    assert forall|j: nat| j < m implies (#[trigger] record_at(j)) is Ok by {
                        assert(record_at(j) == Ok::<T, Malformed>(before[j as int]));
                    }
                },
            },
            Err(e) => {},
        }
    }
}

/// Once a record cannot be read, no longer list can.
pub proof fn lemma_records_stop<T>(
    n: nat,
    at: nat,
    record_at: spec_fn(nat) -> Result<T, Malformed>,
)
    requires
        at < n,
        records_upto(at, record_at) is Ok,
        record_at(at) is Err,
    ensures
        records_upto(n, record_at) == Err::<Seq<T>, Malformed>(record_at(at)->Err_0),
    decreases n,
{
    if n - 1 > at {
        lemma_records_stop((n - 1) as nat, at, record_at);
    }
}

/// Reads the number of records that `body` declares.
pub fn read_count(body: &[char]) -> (count: Option<usize>)
    ensures
        match count {
            Some(n) => declared_count(body@) == Some(n as nat),
            None => declared_count(body@) is None,
        },
{
    let text: String = extract_text(body, "IF_INSTNUM");
    let digits: Vec<char> = chars_of(text.as_str());
    match parse_unsigned(digits.as_slice(), usize::MAX as u64) {
        Some(n) => Some(n as usize),
        None => None,
    }
}

/// Reads the value that `body` gives to the field `name` of the record at
/// `i`.
pub fn read_field_at(body: &[char], name: &str, i: usize) -> (value: Option<Vec<char>>)
    ensures
        value.deep_view() == field_at(body@, name@, i as nat),
{
    let mut field: Vec<char> = chars_of(name);
    push_decimal(&mut field, i as u64);
    extract(body, field.as_slice())
}

/// Reads the value that `body` gives to the field `name` of the record at
/// `i`, empty where it gives none.
pub fn read_text_at(body: &[char], name: &str, i: usize) -> (text: String)
    ensures
        text@ == text_at(body@, name@, i as nat),
{
    match read_field_at(body, name, i) {
        Some(value) => {
            assert(value.deep_view() =~= value@);
            string_of(value.as_slice())
        },
        None => String::new(),
    }
}

} // verus!
