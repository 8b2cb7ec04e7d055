//! Character sequences: searching, splitting, trimming and decimal numbers.
//!
//! Pages are handled as sequences of `char`, so that every contract can speak
//! of the text itself rather than of its encoding.

use vstd::prelude::*;
use vstd::slice::slice_subrange;

verus! {

/// `String::push` appends the character `c` to the end of the string: the
/// contract states only that, over the view of the string.
pub assume_specification[ String::push ](text: &mut String, c: char)
    ensures
        final(text)@ == old(text)@.push(c),
;

/// The characters of `s`, in order.
pub fn chars_of(s: &str) -> (v: Vec<char>)
    ensures
        v@ == s@,
{
    let mut v: Vec<char> = Vec::new();
    for c in it: s.chars()
        invariant
            it.seq() == s@,
            v@ =~= s@.take(it.index()),
    {
        v.push(c);
    }
    assert(s@.take(s@.len() as int) =~= s@);
    v
}

/// The string that holds the characters of `v`, in order.
pub fn string_of(v: &[char]) -> (s: String)
    ensures
        s@ == v@,
{
    let mut s = String::new();
    let mut i: usize = 0;
    while i < v.len()
        invariant
            i <= v.len(),
            s@ =~= v@.take(i as int),
        decreases v.len() - i,
    {
        s.push(v[i]);
        i += 1;
    }
    assert(v@.take(v@.len() as int) =~= v@);
    s
}

/// Appends the characters of `more` to `v`.
pub fn push_all(v: &mut Vec<char>, more: &[char])
    ensures
        final(v)@ == old(v)@ + more@,
{
    let mut i: usize = 0;
    while i < more.len()
        invariant
            i <= more.len(),
            v@ =~= old(v)@ + more@.take(i as int),
        decreases more.len() - i,
    {
        v.push(more[i]);
        i += 1;
    }
    assert(more@.take(more@.len() as int) =~= more@);
}

/// `pat` stands in `s` at position `i`.
pub open spec fn matches_at(s: Seq<char>, pat: Seq<char>, i: int) -> bool {
    &&& 0 <= i
    &&& i + pat.len() <= s.len()
    &&& s.subrange(i, i + pat.len()) == pat
}

/// The least position at or after `from` at which `pat` stands in `s`.
pub open spec fn find_from(s: Seq<char>, pat: Seq<char>, from: int) -> Option<int>
    decreases s.len() - from + 1,
{
    if 0 <= from && from + pat.len() <= s.len() {
        if matches_at(s, pat, from) {
            Some(from)
        } else {
            find_from(s, pat, from + 1)
        }
    } else {
        None
    }
}

/// `pat` stands somewhere in `s`.
pub open spec fn contains(s: Seq<char>, pat: Seq<char>) -> bool {
    find_from(s, pat, 0) is Some
}

/// What `find_from` returns is a match, and no position between `from` and it
/// is one; where it returns nothing, no position from `from` on is a match.
pub proof fn lemma_find_from(s: Seq<char>, pat: Seq<char>, from: int)
    requires
        0 <= from,
    ensures
        match find_from(s, pat, from) {
            Some(i) => from <= i && matches_at(s, pat, i) && forall|j: int|
                from <= j < i ==> !matches_at(s, pat, j),
            None => forall|j: int| from <= j ==> !matches_at(s, pat, j),
        },
    decreases s.len() - from + 1,
{
    if from + pat.len() <= s.len() && !matches_at(s, pat, from) {
        lemma_find_from(s, pat, from + 1);
    }
}

/// The first match at or after `from` is the one that `find_from` returns.
pub proof fn lemma_find_from_first(s: Seq<char>, pat: Seq<char>, from: int, i: int)
    requires
        0 <= from <= i,
        matches_at(s, pat, i),
        forall|j: int| from <= j < i ==> !matches_at(s, pat, j),
    ensures
        find_from(s, pat, from) == Some(i),
    decreases i - from,
{
    if from < i {
        lemma_find_from_first(s, pat, from + 1, i);
    }
}

/// Tells whether `pat` stands in `s` at position `i`.
pub fn is_match_at(s: &[char], pat: &[char], i: usize) -> (found: bool)
    ensures
        found == matches_at(s@, pat@, i as int),
{
    if pat.len() > s.len() || i > s.len() - pat.len() {
        return false;
    }
    let mut k: usize = 0;
    while k < pat.len()
        invariant
            k <= pat.len(),
            i + pat.len() <= s.len(),
            forall|j: int| 0 <= j < k ==> s@[i + j] == pat@[j],
        decreases pat.len() - k,
    {
        if s[i + k] != pat[k] {
            assert(s@.subrange(i as int, i + pat.len())[k as int] != pat@[k as int]);
            return false;
        }
        k += 1;
    }
    assert(s@.subrange(i as int, i + pat.len()) =~= pat@);
    true
}

/// Finds the least position at or after `from` at which `pat` stands in `s`.
pub fn find(s: &[char], pat: &[char], from: usize) -> (found: Option<usize>)
    ensures
        match found {
            Some(i) => find_from(s@, pat@, from as int) == Some(i as int),
            None => find_from(s@, pat@, from as int) is None,
        },
{
    if pat.len() > s.len() {
        return None;
    }
    let last: usize = s.len() - pat.len();
    let mut i: usize = from;
    while i <= last
        invariant
            from <= i,
            last == s.len() - pat.len(),
            find_from(s@, pat@, from as int) == find_from(s@, pat@, i as int),
        decreases s.len() + 1 - i,
    {
        if is_match_at(s, pat, i) {
            return Some(i);
        }
        if i == last {
            assert(find_from(s@, pat@, i + 1) is None);
            return None;
        }
        i += 1;
    }
    None
}

/// The part of `s` from position `from` up to, not including, position `to`.
pub fn part(s: &[char], from: usize, to: usize) -> (r: &[char])
    requires
        from <= to <= s.len(),
    ensures
        r@ == s@.subrange(from as int, to as int),
{
    slice_subrange(s, from, to)
}

/// The text of `s` before its first `c`, or all of `s` where it holds no `c`.
pub open spec fn before_char(s: Seq<char>, c: char) -> Seq<char> {
    match find_from(s, seq![c], 0) {
        Some(i) => s.take(i),
        None => s,
    }
}

/// The text between the first quotation mark of `s` and the next one, or up to
/// the end of `s` where there is no next one; nothing where `s` holds no
/// quotation mark.
pub open spec fn quoted(s: Seq<char>) -> Option<Seq<char>> {
    match find_from(s, seq!['"'], 0) {
        Some(i) => Some(before_char(s.skip(i + 1), '"')),
        None => None,
    }
}

/// The text between the first occurrence of `pat` in `s` and the next one
/// after it, or up to the end of `s` where there is no next one; nothing
/// where `pat` does not occur. The pattern is meant not to be empty.
pub open spec fn second_piece(s: Seq<char>, pat: Seq<char>) -> Option<Seq<char>> {
    match find_from(s, pat, 0) {
        Some(i) => Some(
            match find_from(s, pat, i + pat.len()) {
                Some(j) => s.subrange(i + pat.len(), j),
                None => s.skip(i + pat.len()),
            },
        ),
        None => None,
    }
}

/// Where the text begins that is left after the last occurrence of `pat`,
/// when the occurrences are taken from position `from` on, from left to right
/// and without overlap. Nothing where there is no occurrence, or where `pat`
/// is empty.
pub open spec fn last_piece_start(s: Seq<char>, pat: Seq<char>, from: int) -> Option<int>
    decreases s.len() - from + 1,
{
    if pat.len() > 0 && 0 <= from && from + pat.len() <= s.len() {
        if matches_at(s, pat, from) {
            match last_piece_start(s, pat, from + pat.len()) {
                Some(k) => Some(k),
                None => Some(from + pat.len()),
            }
        } else {
            last_piece_start(s, pat, from + 1)
        }
    } else {
        None
    }
}

/// The text that is left after the last occurrence of `pat` in `s`.
pub open spec fn last_piece(s: Seq<char>, pat: Seq<char>) -> Option<Seq<char>> {
    match last_piece_start(s, pat, 0) {
        Some(k) => Some(s.skip(k)),
        None => None,
    }
}

/// Positions without a match do not count: the scan may start at any position
/// up to the next match.
pub proof fn lemma_last_piece_skip(s: Seq<char>, pat: Seq<char>, from: int, to: int)
    requires
        0 <= from <= to,
        to + pat.len() <= s.len() || to == from,
        forall|j: int| from <= j < to ==> !matches_at(s, pat, j),
    ensures
        last_piece_start(s, pat, from) == last_piece_start(s, pat, to),
    decreases to - from,
{
    if from < to {
        lemma_last_piece_skip(s, pat, from + 1, to);
    }
}

/// Where no match is left, nothing is left after one.
pub proof fn lemma_last_piece_none(s: Seq<char>, pat: Seq<char>, from: int)
    requires
        0 <= from,
        forall|j: int| from <= j ==> !matches_at(s, pat, j),
    ensures
        last_piece_start(s, pat, from) is None,
    decreases s.len() - from + 1,
{
    if pat.len() > 0 && from + pat.len() <= s.len() {
        lemma_last_piece_none(s, pat, from + 1);
    }
}

/// Finds the first `c` in `s`.
pub fn find_char(s: &[char], c: char) -> (found: Option<usize>)
    ensures
        match found {
            Some(i) => find_from(s@, seq![c], 0) == Some(i as int) && i < s.len() && s@[i as int]
                == c,
            None => find_from(s@, seq![c], 0) is None,
        },
{
    let mut i: usize = 0;
    while i < s.len()
        invariant
            i <= s.len(),
            find_from(s@, seq![c], 0) == find_from(s@, seq![c], i as int),
        decreases s.len() - i,
    {
        if s[i] == c {
            assert(s@.subrange(i as int, i + 1) =~= seq![c]);
            return Some(i);
        }
        assert(s@.subrange(i as int, i + 1)[0] != seq![c][0]);
        i += 1;
    }
    None
}

/// Takes the text of `s` before its first `c`.
pub fn take_before_char<'a>(s: &'a [char], c: char) -> (r: &'a [char])
    ensures
        r@ == before_char(s@, c),
{
    match find_char(s, c) {
        Some(i) => part(s, 0, i),
        None => s,
    }
}

/// Takes the text between the first two quotation marks of `s`.
pub fn take_quoted<'a>(s: &'a [char]) -> (r: Option<&'a [char]>)
    ensures
        match r {
            Some(t) => quoted(s@) == Some(t@),
            None => quoted(s@) is None,
        },
{
    match find_char(s, '"') {
        Some(i) => Some(take_before_char(part(s, i + 1, s.len()), '"')),
        None => None,
    }
}

/// Takes the text between the first occurrence of `pat` in `s` and the next.
pub fn take_second_piece<'a>(s: &'a [char], pat: &[char]) -> (r: Option<&'a [char]>)
    ensures
        match r {
            Some(t) => second_piece(s@, pat@) == Some(t@),
            None => second_piece(s@, pat@) is None,
        },
{
    match find(s, pat, 0) {
        Some(i) => {
            proof {
                lemma_find_from(s@, pat@, 0);
            }
            assert(i + pat.len() <= s.len());
            let start: usize = i + pat.len();
            match find(s, pat, start) {
                Some(j) => {
                    proof {
                        lemma_find_from(s@, pat@, start as int);
                    }
                    Some(part(s, start, j))
                },
                None => Some(part(s, start, s.len())),
            }
        },
        None => None,
    }
}

/// Takes the text that is left after the last occurrence of `pat` in `s`.
pub fn take_last_piece<'a>(s: &'a [char], pat: &[char]) -> (r: Option<&'a [char]>)
    ensures
        match r {
            Some(t) => last_piece(s@, pat@) == Some(t@),
            None => last_piece(s@, pat@) is None,
        },
{
    if pat.len() == 0 {
        return None;
    }
    let mut start: Option<usize> = None;
    let mut from: usize = 0;
    loop
        invariant
            pat.len() > 0,
            from <= s.len(),
            start matches Some(k) ==> k <= s.len(),
            last_piece_start(s@, pat@, 0) == match last_piece_start(s@, pat@, from as int) {
                Some(k) => Some(k),
                None => match start {
                    Some(k) => Some(k as int),
                    None => None,
                },
            },
        ensures
            last_piece_start(s@, pat@, from as int) is None,
        decreases s.len() - from,
    {
        proof {
            lemma_find_from(s@, pat@, from as int);
        }
        match find(s, pat, from) {
            Some(i) => {
                proof {
                    lemma_last_piece_skip(s@, pat@, from as int, i as int);
                }
                from = i + pat.len();
                start = Some(from);
            },
            None => {
                proof {
                    lemma_last_piece_none(s@, pat@, from as int);
                }
                break ;
            },
        }
    }
    match start {
        Some(k) => Some(part(s, k, s.len())),
        None => None,
    }
}

/// `c` is white space: a character with the Unicode property `White_Space`.
pub open spec fn is_space(c: char) -> bool {
    let n = c as u32;
    ||| 0x09 <= n <= 0x0d
    ||| n == 0x20
    ||| n == 0x85
    ||| n == 0xa0
    ||| n == 0x1680
    ||| 0x2000 <= n <= 0x200a
    ||| n == 0x2028
    ||| n == 0x2029
    ||| n == 0x202f
    ||| n == 0x205f
    ||| n == 0x3000
}

/// `s` without the white space that it begins with.
pub open spec fn trimmed_start(s: Seq<char>) -> Seq<char>
    decreases s.len(),
{
    if s.len() > 0 && is_space(s[0]) {
        trimmed_start(s.skip(1))
    } else {
        s
    }
}

/// `s` without the white space that it ends with.
pub open spec fn trimmed_end(s: Seq<char>) -> Seq<char>
    decreases s.len(),
{
    if s.len() > 0 && is_space(s.last()) {
        trimmed_end(s.drop_last())
    } else {
        s
    }
}

/// `s` without the white space at either end.
pub open spec fn trimmed(s: Seq<char>) -> Seq<char> {
    trimmed_end(trimmed_start(s))
}

/// `s` with every occurrence of `pat` replaced by `to`, the occurrences taken
/// from left to right and without overlap. An empty `pat` replaces nothing.
pub open spec fn replaced(s: Seq<char>, pat: Seq<char>, to: Seq<char>) -> Seq<char>
    decreases s.len(),
{
    if pat.len() == 0 || s.len() < pat.len() {
        s
    } else if s.take(pat.len() as int) == pat {
        to + replaced(s.skip(pat.len() as int), pat, to)
    } else {
        seq![s[0]] + replaced(s.skip(1), pat, to)
    }
}

/// Tells whether `c` is white space.
pub fn is_white_space(c: char) -> (r: bool)
    ensures
        r == is_space(c),
{
    let n: u32 = c as u32;
    (0x09 <= n && n <= 0x0d) || n == 0x20 || n == 0x85 || n == 0xa0 || n == 0x1680 || (0x2000 <= n
        && n <= 0x200a) || n == 0x2028 || n == 0x2029 || n == 0x202f || n == 0x205f || n == 0x3000
}

/// Takes `s` without the white space at either end.
pub fn trim<'a>(s: &'a [char]) -> (r: &'a [char])
    ensures
        r@ == trimmed(s@),
{
    let mut from: usize = 0;
    assert(s@.skip(0) =~= s@);
    while from < s.len() && is_white_space(s[from])
        invariant
            from <= s.len(),
            trimmed_start(s@) == trimmed_start(s@.skip(from as int)),
        decreases s.len() - from,
    {
        assert(s@.skip(from as int).skip(1) =~= s@.skip(from + 1));
        from += 1;
    }
    let mut to: usize = s.len();
    assert(s@.skip(from as int) =~= s@.subrange(from as int, to as int));
    while from < to && is_white_space(s[to - 1])
        invariant
            from <= to <= s.len(),
            trimmed_start(s@) == s@.subrange(from as int, s.len() as int),
            trimmed(s@) == trimmed_end(s@.subrange(from as int, to as int)),
        decreases to - from,
    {
        assert(s@.subrange(from as int, to as int).drop_last() =~= s@.subrange(
            from as int,
            to - 1,
        ));
        to -= 1;
    }
    part(s, from, to)
}

/// Replaces every occurrence of `pat` in `s` by `to`.
pub fn replace_all(s: &[char], pat: &[char], to: &[char]) -> (r: Vec<char>)
    ensures
        r@ == replaced(s@, pat@, to@),
{
    let mut out: Vec<char> = Vec::new();
    let mut i: usize = 0;
    assert(s@.skip(0) =~= s@);
    assert(out@ + replaced(s@, pat@, to@) =~= replaced(s@, pat@, to@));
    while i < s.len()
        invariant
            i <= s.len(),
            out@ + replaced(s@.skip(i as int), pat@, to@) == replaced(s@, pat@, to@),
        decreases s.len() - i,
    {
        let ghost rest = s@.skip(i as int);
        let ghost before = out@;
        if pat.len() > 0 && is_match_at(s, pat, i) {
            assert(rest.take(pat.len() as int) =~= s@.subrange(i as int, i + pat.len()));
            assert(rest.skip(pat.len() as int) =~= s@.skip(i + pat.len()));
            push_all(&mut out, to);
            i += pat.len();
            assert(out@ + replaced(s@.skip(i as int), pat@, to@) =~= before + (to@ + replaced(
                s@.skip(i as int),
                pat@,
                to@,
            )));
        } else {
            assert(pat.len() == 0 || rest.len() < pat.len() || rest.take(pat.len() as int)
                =~= s@.subrange(i as int, i + pat.len()));
            assert(rest.skip(1) =~= s@.skip(i + 1));
            assert(replaced(rest, pat@, to@) =~= seq![s@[i as int]] + replaced(
                s@.skip(i + 1),
                pat@,
                to@,
            )) by {
                if pat.len() == 0 || rest.len() < pat.len() {
                    lemma_replaced_short(rest, pat@, to@);
                    lemma_replaced_short(rest.skip(1), pat@, to@);
                    assert(rest =~= seq![rest[0]] + rest.skip(1));
                }
            }
            out.push(s[i]);
            i += 1;
            assert(out@ + replaced(s@.skip(i as int), pat@, to@) =~= before + (seq![
                s@[i - 1],
            ] + replaced(s@.skip(i as int), pat@, to@)));
        }
    }
    assert(s@.skip(s@.len() as int) =~= Seq::<char>::empty());
    assert(out@ + Seq::<char>::empty() =~= out@);
    out
}

/// A text that is shorter than the pattern, or any text where the pattern is
/// empty, holds nothing to replace.
pub proof fn lemma_replaced_short(s: Seq<char>, pat: Seq<char>, to: Seq<char>)
    requires
        pat.len() == 0 || s.len() < pat.len(),
    ensures
        replaced(s, pat, to) == s,
{
}

/// The character that stands for the decimal digit `d`.
pub open spec fn digit(d: int) -> char {
    (0x30 + d) as char
}

/// `c` is a decimal digit.
pub open spec fn is_digit(c: char) -> bool {
    0x30 <= c as u32 <= 0x39
}

/// The number that the decimal digit `c` stands for.
pub open spec fn digit_value(c: char) -> nat {
    (c as u32 - 0x30) as nat
}

/// The decimal notation of `n`, without a sign and without leading zeros.
pub open spec fn decimal(n: nat) -> Seq<char>
    decreases n,
{
    if n < 10 {
        seq![digit(n as int)]
    } else {
        decimal(n / 10).push(digit((n % 10) as int))
    }
}

/// The decimal notation of `n`, with a minus sign where `n` is negative.
pub open spec fn signed_decimal(n: int) -> Seq<char> {
    if n < 0 {
        seq!['-'] + decimal((-n) as nat)
    } else {
        decimal(n as nat)
    }
}

/// Every character of `s` is a decimal digit.
pub open spec fn all_digits(s: Seq<char>) -> bool {
    forall|i: int| 0 <= i < s.len() ==> is_digit(#[trigger] s[i])
}

/// The number that the digits `s` denote in decimal notation.
pub open spec fn digits_value(s: Seq<char>) -> nat
    decreases s.len(),
{
    if s.len() == 0 {
        0
    } else {
        digits_value(s.drop_last()) * 10 + digit_value(s.last())
    }
}

/// The number that `s` denotes where it is an unsigned decimal number: an
/// optional plus sign, then one digit at least, and digits only.
pub open spec fn unsigned_value(s: Seq<char>) -> Option<nat> {
    let digits = if s.len() > 0 && s[0] == '+' {
        s.skip(1)
    } else {
        s
    };
    if digits.len() > 0 && all_digits(digits) {
        Some(digits_value(digits))
    } else {
        None
    }
}

/// The number that `s` denotes where it is a signed decimal number: an
/// optional plus or minus sign, then one digit at least, and digits only.
pub open spec fn signed_value(s: Seq<char>) -> Option<int> {
    if s.len() > 0 && s[0] == '-' {
        let digits = s.skip(1);
        if digits.len() > 0 && all_digits(digits) {
            Some(-(digits_value(digits) as int))
        } else {
            None
        }
    } else {
        match unsigned_value(s) {
            Some(n) => Some(n as int),
            None => None,
        }
    }
}

/// `s` is the decimal notation of a number as `decimal` writes it.
pub open spec fn is_canonical(s: Seq<char>) -> bool {
    &&& s.len() > 0
    &&& all_digits(s)
    &&& s.len() == 1 || s[0] != '0'
}

/// A digit stands for a number under ten, and that number is written as the
/// digit; and the other way round.
pub proof fn lemma_digit(c: char, d: int)
    ensures
        is_digit(c) ==> digit_value(c) < 10 && digit(digit_value(c) as int) == c,
        is_digit(c) && c != '0' ==> digit_value(c) >= 1,
        0 <= d < 10 ==> is_digit(digit(d)) && digit_value(digit(d)) == d,
        1 <= d < 10 ==> digit(d) != '0',
        is_digit(c) ==> c != '+' && c != '-',
{
}

/// The digits of a longer number denote no less than those it begins with.
pub proof fn lemma_digits_value_prefix(s: Seq<char>, k: int)
    requires
        0 <= k <= s.len(),
    ensures
        digits_value(s.take(k)) <= digits_value(s),
    decreases s.len(),
{
    if k == s.len() {
        assert(s.take(k) =~= s);
    } else {
        lemma_digits_value_prefix(s.drop_last(), k);
        assert(s.drop_last().take(k) =~= s.take(k));
    }
}

/// What `decimal` writes is canonical and denotes the number written.
pub proof fn lemma_decimal_value(n: nat)
    ensures
        is_canonical(decimal(n)),
        digits_value(decimal(n)) == n,
        unsigned_value(decimal(n)) == Some(n),
        signed_value(decimal(n)) == Some(n as int),
        n >= 10 ==> decimal(n).len() >= 2,
        n >= 1 ==> decimal(n)[0] != '0',
    decreases n,
{
    let s = decimal(n);
    if n < 10 {
        assert(s.drop_last() =~= Seq::<char>::empty());
        assert(digits_value(s.drop_last()) == 0);
        assert(s.last() == digit(n as int));
        assert(digits_value(s) == n);
    } else {
        lemma_decimal_value(n / 10);
        let head = decimal(n / 10);
        assert(s.drop_last() =~= head);
        assert(s.last() == digit((n % 10) as int));
        assert(s[0] == head[0]);
        assert(digits_value(s) == n);
        assert forall|i: int| 0 <= i < s.len() implies is_digit(#[trigger] s[i]) by {
            if i < head.len() {
                assert(s[i] == head[i]);
            }
        }
    }
    assert(s[0] != '+' && s[0] != '-') by {
        assert(is_digit(s[0]));
    }
}

/// A canonical number that does not begin with zero denotes one at least, and
/// one of two digits or more denotes ten at least.
pub proof fn lemma_canonical_leading(s: Seq<char>)
    requires
        is_canonical(s),
    ensures
        s[0] != '0' ==> digits_value(s) >= 1,
        s.len() >= 2 ==> digits_value(s) >= 10,
    decreases s.len(),
{
    let head = s.drop_last();
    assert(is_digit(s.last()));
    lemma_digit(s.last(), 0);
    assert(digits_value(s) == digits_value(head) * 10 + digit_value(s.last()));
    if s.len() == 1 {
        assert(head =~= Seq::<char>::empty());
        assert(digits_value(head) == 0);
        assert(s.last() == s[0]);
    } else {
        assert(is_canonical(head)) by {
            assert forall|i: int| 0 <= i < head.len() implies is_digit(#[trigger] head[i]) by {
                assert(head[i] == s[i]);
            }
            assert(head[0] == s[0]);
        }
        lemma_canonical_leading(head);
    }
}

/// A canonical number is written back as it was read.
pub proof fn lemma_canonical_decimal(s: Seq<char>)
    requires
        is_canonical(s),
    ensures
        decimal(digits_value(s)) == s,
    decreases s.len(),
{
    let head = s.drop_last();
    let n = digits_value(s);
    assert(is_digit(s.last()));
    assert(n == digits_value(head) * 10 + digit_value(s.last()));
    lemma_digit(s.last(), 0);
    if s.len() == 1 {
        assert(head =~= Seq::<char>::empty());
        assert(digits_value(head) == 0);
        assert(decimal(n) =~= s);
    } else {
        assert(is_canonical(head)) by {
            assert forall|i: int| 0 <= i < head.len() implies is_digit(#[trigger] head[i]) by {
                assert(head[i] == s[i]);
            }
            assert(head[0] == s[0]);
        }
        lemma_canonical_decimal(head);
        lemma_canonical_leading(head);
        assert(head[0] == s[0]);
        assert(digits_value(head) >= 1);
        assert(n / 10 == digits_value(head));
        assert(n % 10 == digit_value(s.last()));
        assert(decimal(n) == decimal(n / 10).push(digit((n % 10) as int)));
        assert(decimal(n) =~= s);
    }
}

/// Appends the decimal notation of `n` to `out`.
pub fn push_decimal(out: &mut Vec<char>, n: u64)
    ensures
        final(out)@ == old(out)@ + decimal(n as nat),
    decreases n,
{
    if n >= 10 {
        push_decimal(out, n / 10);
    }
    let d: u8 = (n % 10) as u8;
    let c: char = (0x30u8 + d) as char;
    out.push(c);
    assert(out@ =~= old(out)@ + decimal(n as nat));
}

/// The decimal notation of `n`.
pub fn decimal_of(n: u64) -> (r: Vec<char>)
    ensures
        r@ == decimal(n as nat),
{
    let mut out: Vec<char> = Vec::new();
    push_decimal(&mut out, n);
    assert(out@ =~= decimal(n as nat));
    out
}

/// The decimal notation of `n`, with its sign where `n` is negative.
pub fn signed_decimal_of(n: i64) -> (r: Vec<char>)
    ensures
        r@ == signed_decimal(n as int),
{
    let mut out: Vec<char> = Vec::new();
    if n < 0 {
        out.push('-');
        let magnitude: u64 = if n == i64::MIN {
            0x8000_0000_0000_0000u64
        } else {
            (-n) as u64
        };
        push_decimal(&mut out, magnitude);
    } else {
        push_decimal(&mut out, n as u64);
    }
    assert(out@ =~= signed_decimal(n as int));
    out
}

/// Reads the digits of `s` from position `from` on as a number up to `max`.
fn parse_digits(s: &[char], from: usize, max: u64) -> (r: Option<u64>)
    requires
        from <= s.len(),
    ensures
        r == (if from < s.len() && all_digits(s@.skip(from as int)) && digits_value(
            s@.skip(from as int),
        ) <= max {
            Some(digits_value(s@.skip(from as int)) as u64)
        } else {
            None
        }),
{
    if from == s.len() {
        return None;
    }
    let ghost digits = s@.skip(from as int);
    let mut value: u64 = 0;
    let mut i: usize = from;
    assert(digits.take(0) =~= Seq::<char>::empty());
    while i < s.len()
        invariant
            from <= i <= s.len(),
            digits == s@.skip(from as int),
            all_digits(digits.take(i - from)),
            value == digits_value(digits.take(i - from)),
            value <= max,
        decreases s.len() - i,
    {
        let n: u32 = s[i] as u32;
        if n < 0x30 || n > 0x39 {
            assert(!is_digit(digits[i - from]));
            return None;
        }
        let next: u128 = value as u128 * 10 + (n - 0x30) as u128;
        let ghost longer = digits.take(i - from + 1);
        assert(longer.drop_last() =~= digits.take(i - from));
        assert(longer.last() == s@[i as int]);
        assert(next == digits_value(longer));
        if next > max as u128 {
            proof {
                lemma_digits_value_prefix(digits, i - from + 1);
            }
            return None;
        }
        assert(all_digits(longer)) by {
            assert forall|j: int| 0 <= j < longer.len() implies is_digit(#[trigger] longer[j]) by {
                if j < i - from {
                    assert(longer[j] == digits.take(i - from)[j]);
                }
            }
        }
        value = next as u64;
        i += 1;
    }
    assert(digits.take(digits.len() as int) =~= digits);
    Some(value)
}

/// Reads `s` as an unsigned decimal number that is no more than `max`.
pub fn parse_unsigned(s: &[char], max: u64) -> (r: Option<u64>)
    ensures
        r == match unsigned_value(s@) {
            Some(n) => if n <= max {
                Some(n as u64)
            } else {
                None
            },
            None => None,
        },
{
    if s.len() > 0 && s[0] == '+' {
        parse_digits(s, 1, max)
    } else {
        assert(s@.skip(0) =~= s@);
        parse_digits(s, 0, max)
    }
}

/// Reads `s` as a signed decimal number from `min` to `max`.
pub fn parse_signed(s: &[char], min: i64, max: i64) -> (r: Option<i64>)
    ensures
        r == match signed_value(s@) {
            Some(n) => if min <= n <= max {
                Some(n as i64)
            } else {
                None
            },
            None => None,
        },
{
    let value: i128 = if s.len() > 0 && s[0] == '-' {
        match parse_digits(s, 1, 0x8000_0000_0000_0000) {
            Some(magnitude) => -(magnitude as i128),
            None => { return None; },
        }
    } else {
        match parse_unsigned(s, 0x7fff_ffff_ffff_ffff) {
            Some(n) => n as i128,
            None => { return None; },
        }
    };
    if min as i128 <= value && value <= max as i128 {
        Some(value as i64)
    } else {
        None
    }
}

/// A pattern of one character stands where that character does.
pub proof fn lemma_matches_char(s: Seq<char>, c: char, i: int)
    ensures
        matches_at(s, seq![c], i) <==> 0 <= i < s.len() && s[i] == c,
{
    if 0 <= i < s.len() {
        if s[i] == c {
            assert(s.subrange(i, i + 1) =~= seq![c]);
        } else {
            assert(s.subrange(i, i + 1)[0] != seq![c][0]);
        }
    }
}

/// The text before the first `c`, where the first `c` stands at `i`.
pub proof fn lemma_before_char_at(s: Seq<char>, c: char, i: int)
    requires
        0 <= i < s.len(),
        s[i] == c,
        forall|j: int| 0 <= j < i ==> s[j] != c,
    ensures
        before_char(s, c) == s.take(i),
{
    assert forall|j: int| 0 <= j < i implies !matches_at(s, seq![c], j) by {
        lemma_matches_char(s, c, j);
    }
    lemma_matches_char(s, c, i);
    lemma_find_from_first(s, seq![c], 0, i);
}

/// White space in front of a text that begins with none is all that
/// `trimmed_start` takes away.
pub proof fn lemma_trimmed_start(gap: Seq<char>, rest: Seq<char>)
    requires
        forall|i: int| 0 <= i < gap.len() ==> is_space(#[trigger] gap[i]),
        rest.len() == 0 || !is_space(rest[0]),
    ensures
        trimmed_start(gap + rest) == rest,
    decreases gap.len(),
{
    if gap.len() == 0 {
        assert(gap + rest =~= rest);
    } else {
        assert((gap + rest)[0] == gap[0]);
        assert((gap + rest).skip(1) =~= gap.skip(1) + rest);
        assert forall|i: int| 0 <= i < gap.skip(1).len() implies is_space(
            #[trigger] gap.skip(1)[i],
        ) by {
            assert(gap.skip(1)[i] == gap[i + 1]);
        }
        lemma_trimmed_start(gap.skip(1), rest);
    }
}

/// Tells whether `a` and `b` hold the same characters.
pub fn same(a: &[char], b: &[char]) -> (r: bool)
    ensures
        r == (a@ == b@),
{
    if a.len() != b.len() {
        return false;
    }
    let mut i: usize = 0;
    while i < a.len()
        invariant
            i <= a.len(),
            a.len() == b.len(),
            forall|j: int| 0 <= j < i ==> a@[j] == b@[j],
        decreases a.len() - i,
    {
        if a[i] != b[i] {
            return false;
        }
        i += 1;
    }
    assert(a@ =~= b@);
    true
}

/// Tells whether the strings `a` and `b` hold the same text.
pub fn same_text(a: &str, b: &str) -> (r: bool)
    ensures
        r == (a@ == b@),
{
    let left: Vec<char> = chars_of(a);
    let right: Vec<char> = chars_of(b);
    same(left.as_slice(), right.as_slice())
}

/// The small letter for a capital letter from `A` to `Z`; any other
/// character itself.
pub open spec fn lowered(c: char) -> char {
    if 0x41 <= c as u32 <= 0x5a {
        (c as u32 + 0x20) as char
    } else {
        c
    }
}

/// `s` with its capital letters from `A` to `Z` made small.
pub open spec fn lowercase(s: Seq<char>) -> Seq<char> {
    Seq::new(s.len(), |i: int| lowered(s[i]))
}

/// Makes the capital letters from `A` to `Z` in `s` small.
pub fn to_lowercase(s: &[char]) -> (r: Vec<char>)
    ensures
        r@ == lowercase(s@),
{
    let mut out: Vec<char> = Vec::new();
    let mut i: usize = 0;
    while i < s.len()
        invariant
            i <= s.len(),
            out.len() == i,
            forall|k: int| 0 <= k < i ==> out@[k] == lowered(s@[k]),
        decreases s.len() - i,
    {
        let c: char = s[i];
        let n: u32 = c as u32;
        if 0x41 <= n && n <= 0x5a {
            out.push((n as u8 + 0x20) as char);
        } else {
            out.push(c);
        }
        i += 1;
    }
    assert(out@ =~= lowercase(s@));
    out
}

/// Tells whether `s` holds the character `c`.
pub fn has_char(s: &[char], c: char) -> (r: bool)
    ensures
        r == s@.contains(c),
{
    let mut i: usize = 0;
    while i < s.len()
        invariant
            i <= s.len(),
            forall|k: int| 0 <= k < i ==> s@[k] != c,
        decreases s.len() - i,
    {
        if s[i] == c {
            return true;
        }
        i += 1;
    }
    false
}


/// White space behind a text that ends with none is all that `trimmed_end`
/// takes away.
pub proof fn lemma_trimmed_end(rest: Seq<char>, gap: Seq<char>)
    requires
        forall|i: int| 0 <= i < gap.len() ==> is_space(#[trigger] gap[i]),
        rest.len() == 0 || !is_space(rest.last()),
    ensures
        trimmed_end(rest + gap) == rest,
    decreases gap.len(),
{
    if gap.len() == 0 {
        assert(rest + gap =~= rest);
    } else {
        assert((rest + gap).last() == gap.last());
        assert((rest + gap).drop_last() =~= rest + gap.drop_last());
        assert forall|i: int| 0 <= i < gap.drop_last().len() implies is_space(
            #[trigger] gap.drop_last()[i],
        ) by {
            assert(gap.drop_last()[i] == gap[i]);
        }
        lemma_trimmed_end(rest, gap.drop_last());
    }
}


/// A scan that cannot step over the match at `at`, and finds none after it,
/// ends behind that match.
pub proof fn lemma_last_piece_at(s: Seq<char>, pat: Seq<char>, from: int, at: int)
    requires
        pat.len() > 0,
        0 <= from <= at,
        matches_at(s, pat, at),
        forall|i: int| #[trigger] matches_at(s, pat, i) ==> i + pat.len() <= at || i == at,
    ensures
        last_piece_start(s, pat, from) == Some(at + pat.len()),
    decreases at - from,
{
    if from == at {
        lemma_last_piece_none(s, pat, at + pat.len());
    } else if matches_at(s, pat, from) {
        lemma_last_piece_at(s, pat, from + pat.len(), at);
    } else {
        lemma_last_piece_at(s, pat, from + 1, at);
    }
}

/// `value` between quotation marks.
pub open spec fn in_quotes(value: Seq<char>) -> Seq<char> {
    seq!['"'] + value + seq!['"']
}

/// `value` stands between quotation marks in `s` at position `at`.
pub open spec fn quoted_at(s: Seq<char>, at: int, value: Seq<char>) -> bool {
    &&& 0 <= at
    &&& at + value.len() + 2 <= s.len()
    &&& s.subrange(at, at + value.len() + 2) == in_quotes(value)
}

/// A text that begins with a value between quotation marks gives that
/// value, as long as the value holds no quotation mark.
pub proof fn lemma_quoted_literal(s: Seq<char>, value: Seq<char>)
    requires
        quoted_at(s, 0, value),
        forall|i: int| 0 <= i < value.len() ==> value[i] != '"',
    ensures
        quoted(s) == Some(value),
{
    let literal = in_quotes(value);
    assert(s[0] == literal[0]);
    lemma_matches_char(s, '"', 0);
    lemma_find_from_first(s, seq!['"'], 0, 0);
    let rest = s.skip(1);
    assert forall|j: int| 0 <= j < value.len() implies rest[j] != '"' by {
        assert(rest[j] == literal[j + 1]);
    }
    assert(rest[value.len() as int] == literal[value.len() as int + 1]);
    lemma_before_char_at(rest, '"', value.len() as int);
    assert(rest.take(value.len() as int) =~= value) by {
        assert forall|j: int| 0 <= j < value.len() implies rest[j] == value[j] by {
            assert(rest[j] == literal[j + 1]);
        }
    }
}

/// The value between quotation marks behind the first `mark` is what is read
/// after the first `mark`, as long as no other `mark` begins before the
/// value has ended.
pub proof fn lemma_first_mark_quoted(s: Seq<char>, mark: Seq<char>, at: int, value: Seq<char>)
    requires
        mark.len() > 0,
        matches_at(s, mark, at),
        quoted_at(s, at + mark.len(), value),
        forall|i: int| 0 <= i < value.len() ==> value[i] != '"',
        forall|i: int| #[trigger]
            matches_at(s, mark, i) ==> i == at || i >= at + mark.len() + value.len() + 2,
    ensures
        second_piece(s, mark) is Some,
        quoted(second_piece(s, mark)->0) == Some(value),
{
    let start = at + mark.len();
    let end = start + value.len() + 2;
    lemma_find_from_first(s, mark, 0, at);
    lemma_find_from(s, mark, start);
    let piece = second_piece(s, mark)->0;
    match find_from(s, mark, start) {
        Some(j) => {
            assert(piece == s.subrange(start, j));
            assert(piece.subrange(0, value.len() as int + 2) =~= s.subrange(start, end));
        },
        None => {
            assert(piece == s.skip(start));
            assert(piece.subrange(0, value.len() as int + 2) =~= s.subrange(start, end));
        },
    }
    lemma_quoted_literal(piece, value);
}

/// The value between quotation marks behind the last `mark` is what is read
/// after the last `mark`, as long as no other `mark` begins after this one
/// or runs into it.
pub proof fn lemma_last_mark_quoted(s: Seq<char>, mark: Seq<char>, at: int, value: Seq<char>)
    requires
        mark.len() > 0,
        matches_at(s, mark, at),
        quoted_at(s, at + mark.len(), value),
        forall|i: int| 0 <= i < value.len() ==> value[i] != '"',
        forall|i: int| #[trigger] matches_at(s, mark, i) ==> i + mark.len() <= at || i == at,
    ensures
        last_piece(s, mark) is Some,
        quoted(last_piece(s, mark)->0) == Some(value),
{
    let start = at + mark.len();
    lemma_last_piece_at(s, mark, 0, at);
    let rest = s.skip(start);
    assert(rest.subrange(0, value.len() as int + 2) =~= s.subrange(start, start + value.len() + 2));
    lemma_quoted_literal(rest, value);
}

/// A text in which the pattern does not stand is left as it is.
pub proof fn lemma_replaced_nothing(s: Seq<char>, pat: Seq<char>, to: Seq<char>)
    requires
        forall|i: int| !matches_at(s, pat, i),
    ensures
        replaced(s, pat, to) == s,
    decreases s.len(),
{
    if pat.len() > 0 && s.len() >= pat.len() {
        assert(s.take(pat.len() as int) != pat) by {
            if s.take(pat.len() as int) == pat {
                assert(s.subrange(0, pat.len() as int) =~= s.take(pat.len() as int));
                assert(matches_at(s, pat, 0));
            }
        }
        let rest = s.skip(1);
        assert forall|i: int| !matches_at(rest, pat, i) by {
            if matches_at(rest, pat, i) {
                assert(s.subrange(i + 1, i + 1 + pat.len()) =~= rest.subrange(i, i + pat.len()));
                assert(matches_at(s, pat, i + 1));
            }
        }
        lemma_replaced_nothing(rest, pat, to);
        assert(seq![s[0]] + rest =~= s);
    }
}

/// A text in which the pattern stands somewhere holds it.
pub proof fn lemma_contains(s: Seq<char>, pat: Seq<char>, at: int)
    requires
        matches_at(s, pat, at),
    ensures
        contains(s, pat),
{
    lemma_find_from(s, pat, 0);
}

} // verus!
