//! Values that a page carries as arguments of script calls.
//!
//! The pages hold their data as calls of the form
//! `Transfer_meaning('Field','value');`. Where a field is written more than
//! once, the last call counts. In a value, the characters `-`, `.`, `:` and
//! `_` are written as the codes `\x2d`, `\x2e`, `\x3a` and `\x5f`.

use vstd::prelude::*;
use crate::text::{
    before_char, chars_of, is_space, last_piece, lemma_before_char_at, lemma_last_piece_at,
    lemma_last_piece_none, lemma_trimmed_end, lemma_trimmed_start, matches_at, part, push_all,
    string_of, take_before_char, take_last_piece, trim, trimmed,
};

verus! {

/// What a page writes in front of the value of `field`.
pub open spec fn call_pattern(field: Seq<char>) -> Seq<char> {
    "Transfer_meaning('"@ + field + "',"@
}

/// The character that the code at the beginning of `s` stands for, where `s`
/// begins with one of the four codes.
pub open spec fn code_at_start(s: Seq<char>) -> Option<char> {
    if s.len() >= 4 && s[0] == '\\' && s[1] == 'x' {
        if s[2] == '2' && s[3] == 'd' {
            Some('-')
        } else if s[2] == '2' && s[3] == 'e' {
            Some('.')
        } else if s[2] == '3' && s[3] == 'a' {
            Some(':')
        } else if s[2] == '5' && s[3] == 'f' {
            Some('_')
        } else {
            None
        }
    } else {
        None
    }
}

/// `s` with each of the four codes replaced by the character it stands for.
pub open spec fn unescaped(s: Seq<char>) -> Seq<char>
    decreases s.len(),
{
    if s.len() == 0 {
        s
    } else {
        match code_at_start(s) {
            Some(c) => seq![c] + unescaped(s.skip(4)),
            None => seq![s[0]] + unescaped(s.skip(1)),
        }
    }
}

/// `s` without the apostrophes around it, where it stands between two.
pub open spec fn unquoted(s: Seq<char>) -> Option<Seq<char>> {
    if s.len() >= 2 && s[0] == '\'' && s.last() == '\'' {
        Some(s.subrange(1, s.len() - 1))
    } else {
        None
    }
}

/// The argument that follows `field` in its last call in `body`: the text up
/// to the closing bracket, without the white space around it.
pub open spec fn call_argument(body: Seq<char>, field: Seq<char>) -> Option<Seq<char>> {
    match last_piece(body, call_pattern(field)) {
        Some(rest) => Some(trimmed(before_char(rest, ')'))),
        None => None,
    }
}

/// The value that `body` gives to `field`: nothing where `body` holds no call
/// for `field`, or where the argument of the last one does not stand between
/// apostrophes.
pub open spec fn transfer_meaning(body: Seq<char>, field: Seq<char>) -> Option<Seq<char>> {
    match call_argument(body, field) {
        Some(argument) => match unquoted(argument) {
            Some(value) => Some(unescaped(value)),
            None => None,
        },
        None => None,
    }
}

/// Replaces each of the four codes in `s` by the character it stands for.
pub fn unescape(s: &[char]) -> (r: Vec<char>)
    ensures
        r@ == unescaped(s@),
{
    let mut out: Vec<char> = Vec::new();
    let mut i: usize = 0;
    assert(s@.skip(0) =~= s@);
    assert(out@ + unescaped(s@) =~= unescaped(s@));
    while i < s.len()
        invariant
            i <= s.len(),
            out@ + unescaped(s@.skip(i as int)) == unescaped(s@),
        decreases s.len() - i,
    {
        let ghost rest = s@.skip(i as int);
        let ghost before = out@;
        let mut code: Option<char> = None;
        if s.len() - i >= 4 && s[i] == '\\' && s[i + 1] == 'x' {
            let a: char = s[i + 2];
            let b: char = s[i + 3];
            if a == '2' && b == 'd' {
                code = Some('-');
            } else if a == '2' && b == 'e' {
                code = Some('.');
            } else if a == '3' && b == 'a' {
                code = Some(':');
            } else if a == '5' && b == 'f' {
                code = Some('_');
            }
        }
        assert(code == code_at_start(rest));
        match code {
            Some(c) => {
                assert(rest.skip(4) =~= s@.skip(i + 4));
                out.push(c);
                i += 4;
                assert(out@ + unescaped(s@.skip(i as int)) =~= before + (seq![c] + unescaped(
                    s@.skip(i as int),
                )));
            },
            None => {
                assert(rest.skip(1) =~= s@.skip(i + 1));
                out.push(s[i]);
                i += 1;
                assert(out@ + unescaped(s@.skip(i as int)) =~= before + (seq![s@[i - 1]]
                    + unescaped(s@.skip(i as int))));
            },
        }
    }
    assert(s@.skip(s@.len() as int) =~= Seq::<char>::empty());
    assert(out@ + Seq::<char>::empty() =~= out@);
    out
}

/// Reads the value that `body` gives to `field`.
pub fn extract(body: &[char], field: &[char]) -> (r: Option<Vec<char>>)
    ensures
        r.deep_view() == transfer_meaning(body@, field@),
{
    let mut pattern: Vec<char> = chars_of("Transfer_meaning('");
    push_all(&mut pattern, field);
    let tail: Vec<char> = chars_of("',");
    push_all(&mut pattern, tail.as_slice());
    match take_last_piece(body, pattern.as_slice()) {
        Some(rest) => {
            let argument: &[char] = trim(take_before_char(rest, ')'));
            let n: usize = argument.len();
            if n >= 2 && argument[0] == '\'' && argument[n - 1] == '\'' {
                let value: Vec<char> = unescape(part(argument, 1, n - 1));
                assert(value.deep_view() =~= value@);
                Some(value)
            } else {
                None
            }
        },
        None => None,
    }
}

/// Reads the value that the page `resp` gives to `field`.
pub fn parse_transfer_meaning(resp: &str, field: &str) -> (r: Option<String>)
    ensures
        r.deep_view() == transfer_meaning(resp@, field@),
{
    let body: Vec<char> = chars_of(resp);
    let name: Vec<char> = chars_of(field);
    match extract(body.as_slice(), name.as_slice()) {
        Some(value) => {
            assert(value.deep_view() =~= value@);
            Some(string_of(value.as_slice()))
        },
        None => None,
    }
}

/// The value that `body` gives to `field`, or the empty text where it gives
/// none.
pub open spec fn text_of(body: Seq<char>, field: Seq<char>) -> Seq<char> {
    match transfer_meaning(body, field) {
        Some(value) => value,
        None => Seq::<char>::empty(),
    }
}

/// Reads the value that `body` gives to `field`, empty where it gives none.
pub fn extract_text(body: &[char], field: &str) -> (text: String)
    ensures
        text@ == text_of(body@, field@),
{
    let name: Vec<char> = chars_of(field);
    match extract(body, name.as_slice()) {
        Some(value) => {
            assert(value.deep_view() =~= value@);
            string_of(value.as_slice())
        },
        None => String::new(),
    }
}

/// A call as a page writes it: the field, the value between apostrophes
/// with white space or none before and behind it, and the closing bracket.
pub open spec fn written_call(
    field: Seq<char>,
    gap: Seq<char>,
    value: Seq<char>,
    tail: Seq<char>,
) -> Seq<char> {
    call_pattern(field) + gap + seq!['\''] + value + seq!['\''] + tail + seq![')']
}

/// The code that a page writes for `c`: one of the four codes, or `c` itself.
pub open spec fn code_of(c: char) -> Seq<char> {
    if c == '-' {
        seq!['\\', 'x', '2', 'd']
    } else if c == '.' {
        seq!['\\', 'x', '2', 'e']
    } else if c == ':' {
        seq!['\\', 'x', '3', 'a']
    } else if c == '_' {
        seq!['\\', 'x', '5', 'f']
    } else {
        seq![c]
    }
}

/// `s` with each of the four characters written as its code.
pub open spec fn escaped(s: Seq<char>) -> Seq<char>
    decreases s.len(),
{
    if s.len() == 0 {
        s
    } else {
        code_of(s[0]) + escaped(s.skip(1))
    }
}

/// The last call counts. A page gives `field` the value written in the last
/// call for it, with the codes replaced, whatever stands before and after
/// the call and however much white space stands around the value: as long
/// as the value holds no closing bracket, and no other call for `field`
/// begins after this one or runs into it.
pub proof fn lemma_written_call_is_read(
    before: Seq<char>,
    field: Seq<char>,
    gap: Seq<char>,
    value: Seq<char>,
    tail: Seq<char>,
    after: Seq<char>,
)
    requires
        forall|i: int| 0 <= i < gap.len() ==> is_space(#[trigger] gap[i]),
        forall|i: int| 0 <= i < tail.len() ==> is_space(#[trigger] tail[i]),
        forall|i: int| 0 <= i < value.len() ==> value[i] != ')',
        forall|i: int| #[trigger]
            matches_at(
                before + written_call(field, gap, value, tail) + after,
                call_pattern(field),
                i,
            ) ==> i + call_pattern(field).len() <= before.len() || i == before.len(),
    ensures
        transfer_meaning(before + written_call(field, gap, value, tail) + after, field) == Some(
            unescaped(value),
        ),
{
    reveal_strlit("Transfer_meaning('");
    reveal_strlit("',");
    let pattern = call_pattern(field);
    let body = before + written_call(field, gap, value, tail) + after;
    let start: int = (before.len() + pattern.len()) as int;
    let inner = seq!['\''] + value + seq!['\''];
    let argument = gap + inner + tail;
    let rest = body.skip(start);
    assert(body.subrange(before.len() as int, start) =~= pattern);
    lemma_last_piece_at(body, pattern, 0, before.len() as int);
    assert(last_piece(body, pattern) == Some(rest));
    assert(rest =~= argument + seq![')'] + after);
    assert forall|j: int| 0 <= j < argument.len() implies rest[j] != ')' by {
        if j < gap.len() {
            assert(rest[j] == gap[j]);
        } else if j == gap.len() {
        } else if j < gap.len() + 1 + value.len() {
            assert(rest[j] == value[j - gap.len() - 1]);
        } else if j == gap.len() + 1 + value.len() {
        } else {
            assert(rest[j] == tail[j - gap.len() - 2 - value.len()]);
        }
    }
    lemma_before_char_at(rest, ')', argument.len() as int);
    assert(rest.take(argument.len() as int) =~= argument);
    assert(argument =~= gap + (inner + tail));
    assert((inner + tail)[0] == '\'');
    lemma_trimmed_start(gap, inner + tail);
    assert(inner.last() == '\'');
    lemma_trimmed_end(inner, tail);
    assert(trimmed(argument) == inner);
    assert(inner.subrange(1, inner.len() - 1) =~= value);
}

/// A page that holds no call for `field` gives it no value.
pub proof fn lemma_absent_field(body: Seq<char>, field: Seq<char>)
    requires
        forall|i: int| !matches_at(body, call_pattern(field), i),
    ensures
        transfer_meaning(body, field) is None,
{
    lemma_last_piece_none(body, call_pattern(field), 0);
}

/// A value that holds none of the four codes is read as it stands.
pub proof fn lemma_unescaped_plain(s: Seq<char>)
    requires
        forall|i: int| 0 <= i < s.len() ==> code_at_start(#[trigger] s.skip(i)) is None,
    ensures
        unescaped(s) == s,
    decreases s.len(),
{
    if s.len() > 0 {
        assert(s.skip(0) =~= s);
        assert forall|i: int| 0 <= i < s.skip(1).len() implies code_at_start(
            #[trigger] s.skip(1).skip(i),
        ) is None by {
            assert(s.skip(1).skip(i) =~= s.skip(i + 1));
        }
        lemma_unescaped_plain(s.skip(1));
        assert(seq![s[0]] + s.skip(1) =~= s);
    }
}

/// Reading undoes writing: a value without a backslash, written with the
/// codes, is read back as it was.
pub proof fn lemma_unescaped_escaped(s: Seq<char>)
    requires
        forall|i: int| 0 <= i < s.len() ==> s[i] != '\\',
    ensures
        unescaped(escaped(s)) == s,
    decreases s.len(),
{
    if s.len() > 0 {
        let c = s[0];
        let tail = escaped(s.skip(1));
        lemma_unescaped_escaped(s.skip(1));
        let written = code_of(c) + tail;
        if c == '-' || c == '.' || c == ':' || c == '_' {
            assert(code_at_start(written) == Some(c));
            assert(written.skip(4) =~= tail);
        } else {
            assert(written[0] == c);
            assert(code_at_start(written) is None);
            assert(written.skip(1) =~= tail);
        }
        assert(seq![c] + s.skip(1) =~= s);
    }
}

} // verus!
