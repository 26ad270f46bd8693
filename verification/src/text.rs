//! Texts as sequences of characters: splitting, trimming, numbers.

use crate::external::{digit, is_white_space};
use vstd::prelude::*;

verus! {

/// Where `sep` first occurs in `s`.
pub open spec fn find(s: Seq<char>, sep: Seq<char>) -> Option<int>
    decreases s.len(),
{
    if s.len() < sep.len() {
        None
    } else if s.take(sep.len() as int) == sep {
        Some(0)
    } else if s.len() == 0 {
        None
    } else {
        match find(s.skip(1), sep) {
            Some(i) => Some(i + 1),
            None => None,
        }
    }
}

/// The parts of `s` between the occurrences of `sep`, taken from the left and
/// without overlap. There is always one part more than there are separators.
pub open spec fn split(s: Seq<char>, sep: Seq<char>) -> Seq<Seq<char>>
    decreases s.len(),
{
    match find(s, sep) {
        Some(i) => if 0 <= i && 0 < sep.len() && i + sep.len() <= s.len() {
            seq![s.take(i)] + split(s.skip(i + sep.len()), sep)
        } else {
            seq![s]
        },
        None => seq![s],
    }
}

/// `s` without the white space at its start.
pub open spec fn trim_start(s: Seq<char>) -> Seq<char>
    decreases s.len(),
{
    if s.len() > 0 && is_white_space(s[0]) {
        trim_start(s.skip(1))
    } else {
        s
    }
}

/// `s` without the white space at its end.
pub open spec fn trim_end(s: Seq<char>) -> Seq<char>
    decreases s.len(),
{
    if s.len() > 0 && is_white_space(s.last()) {
        trim_end(s.drop_last())
    } else {
        s
    }
}

/// `s` without the white space around it.
pub open spec fn trim(s: Seq<char>) -> Seq<char> {
    trim_end(trim_start(s))
}

/// The contents of each of some character vectors.
pub open spec fn contents(parts: Seq<Vec<char>>) -> Seq<Seq<char>> {
    parts.map_values(|part: Vec<char>| part@)
}

/// The decimal digits of a number.
pub open spec fn decimal(n: nat) -> Seq<char>
    decreases n,
{
    if n < 10 {
        seq![digit(n as int)]
    } else {
        decimal(n / 10).push(digit(n as int % 10))
    }
}

/// The line of a header field, given by its name and its value.
pub open spec fn field_line(field: (Seq<char>, Seq<char>)) -> Seq<char> {
    field.0 + seq![':'] + field.1 + seq!['\r', '\n']
}

/// The lines of some header fields.
pub open spec fn field_lines(fields: Seq<(Seq<char>, Seq<char>)>) -> Seq<char>
    decreases fields.len(),
{
    if fields.len() == 0 {
        Seq::empty()
    } else {
        field_line(fields[0]) + field_lines(fields.drop_first())
    }
}

/// The characters of a text.
pub fn chars_of(s: &str) -> (chars: Vec<char>)
    ensures
        chars@ == s@,
{
    let mut chars: Vec<char> = Vec::new();
    for c in it: s.chars()
        invariant
            it.seq() == s@,
            chars@ == s@.take(it.index()),
    {
        assert(s@.take(it.index() + 1) =~= s@.take(it.index()).push(s@[it.index()]));
        chars.push(c);
    }
    assert(s@.take(s@.len() as int) =~= s@);
    chars
}

/// The text of some characters.
pub fn string_of(chars: &Vec<char>) -> (s: String)
    ensures
        s@ == chars@,
{
    let mut s = String::new();
    let mut i: usize = 0;
    while i < chars.len()
        invariant
            i <= chars.len(),
            s@ == chars@.take(i as int),
        decreases chars.len() - i,
    {
        assert(chars@.take(i + 1) =~= chars@.take(i as int).push(chars@[i as int]));
        s.push(chars[i]);
        i = i + 1;
    }
    assert(chars@.take(i as int) =~= chars@);
    s
}

/// The characters of `chars` from `begin` up to, and without, `end`.
pub fn part_of(chars: &Vec<char>, begin: usize, end: usize) -> (part: Vec<char>)
    requires
        begin <= end <= chars@.len(),
    ensures
        part@ == chars@.subrange(begin as int, end as int),
{
    let mut part: Vec<char> = Vec::new();
    let mut i: usize = begin;
    while i < end
        invariant
            begin <= i <= end <= chars@.len(),
            part@ == chars@.subrange(begin as int, i as int),
        decreases end - i,
    {
        assert(chars@.subrange(begin as int, i + 1) =~= chars@.subrange(begin as int, i as int).push(
            chars@[i as int],
        ));
        part.push(chars[i]);
        i = i + 1;
    }
    part
}

/// Whether `sep` occurs in `chars` at `at`.
fn occurs_at(chars: &Vec<char>, at: usize, sep: &Vec<char>) -> (occurs: bool)
    requires
        at + sep@.len() <= chars@.len(),
    ensures
        occurs == (chars@.skip(at as int).take(sep@.len() as int) == sep@),
{
    let ghost there = chars@.skip(at as int).take(sep@.len() as int);
    let mut i: usize = 0;
    while i < sep.len()
        invariant
            i <= sep@.len(),
            at + sep@.len() <= chars@.len(),
            there == chars@.skip(at as int).take(sep@.len() as int),
            forall|j: int| 0 <= j < i ==> there[j] == sep@[j],
        decreases sep.len() - i,
    {
        assert(there[i as int] == chars@[at + i]);
        assert(at + i < chars.len());
        if chars[at + i] != sep[i] {
            return false;
        }
        i = i + 1;
    }
    assert(there =~= sep@);
    true
}

/// Where `sep` first occurs in `chars` at or after `from`.
fn find_from(chars: &Vec<char>, from: usize, sep: &Vec<char>) -> (at: Option<usize>)
    requires
        from <= chars@.len(),
    ensures
        match at {
            Some(i) => from <= i && i + sep@.len() <= chars@.len() && find(
                chars@.skip(from as int),
                sep@,
            ) == Some(i - from),
            None => find(chars@.skip(from as int), sep@) is None,
        },
{
    let mut i: usize = from;
    loop
        invariant
            from <= i <= chars@.len(),
            find(chars@.skip(from as int), sep@) == (match find(chars@.skip(i as int), sep@) {
                Some(k) => Some(k + (i - from)),
                None => None,
            }),
        decreases chars@.len() - i,
    {
        let ghost rest = chars@.skip(i as int);
        if chars.len() - i < sep.len() {
            return None;
        }
        if occurs_at(chars, i, sep) {
            return Some(i);
        }
        if i == chars.len() {
            return None;
        }
        assert(rest.skip(1) =~= chars@.skip(i + 1));
        i = i + 1;
    }
}

/// Splits at each occurrence of `sep`.
pub fn split_chars(chars: &Vec<char>, sep: &Vec<char>) -> (parts: Vec<Vec<char>>)
    requires
        sep@.len() > 0,
    ensures
        contents(parts@) == split(chars@, sep@),
        parts@.len() >= 1,
{
    let mut parts: Vec<Vec<char>> = Vec::new();
    let mut from: usize = 0;
    assert(chars@.skip(0) =~= chars@);
    assert(contents(parts@) + split(chars@, sep@) =~= split(chars@, sep@));
    loop
        invariant
            from <= chars@.len(),
            sep@.len() > 0,
            contents(parts@) + split(chars@.skip(from as int), sep@) == split(chars@, sep@),
        decreases chars@.len() - from,
    {
        let ghost rest = chars@.skip(from as int);
        let ghost before = parts@;
        match find_from(chars, from, sep) {
            Some(at) => {
                let part = part_of(chars, from, at);
                assert(part@ =~= rest.take(at - from));
                parts.push(part);
                assert(at + sep.len() <= chars.len());
                from = at + sep.len();
                assert(rest.skip(at - (chars@.len() - rest.len()) + sep@.len()) =~= chars@.skip(
                    from as int,
                ));
                assert(contents(parts@) =~= contents(before).push(part@));
                assert(contents(parts@) + split(chars@.skip(from as int), sep@) =~= contents(before)
                    + split(rest, sep@));
            },
            None => {
                let part = part_of(chars, from, chars.len());
                assert(part@ =~= rest);
                parts.push(part);
                assert(contents(parts@) =~= contents(before) + split(rest, sep@));
                return parts;
            },
        }
    }
}

/// Splits at the first occurrence of `sep`.
pub fn split_once_chars(chars: &Vec<char>, sep: &Vec<char>) -> (parts: Option<
    (Vec<char>, Vec<char>),
>)
    ensures
        match parts {
            Some((before, after)) => match find(chars@, sep@) {
                Some(i) => before@ == chars@.take(i) && after@ == chars@.skip(i + sep@.len()),
                None => false,
            },
            None => find(chars@, sep@) is None,
        },
{
    assert(chars@.skip(0) =~= chars@);
    match find_from(chars, 0, sep) {
        Some(at) => {
            let before = part_of(chars, 0, at);
            assert(at + sep.len() <= chars.len());
            let after = part_of(chars, at + sep.len(), chars.len());
            assert(before@ =~= chars@.take(at as int));
            assert(after@ =~= chars@.skip(at + sep@.len()));
            Some((before, after))
        },
        None => None,
    }
}

/// Removes the white space around some characters.
pub fn trim_chars(chars: &Vec<char>) -> (part: Vec<char>)
    ensures
        part@ == trim(chars@),
{
    let mut begin: usize = 0;
    assert(chars@.skip(0) =~= chars@);
    while begin < chars.len() && chars[begin].is_whitespace()
        invariant
            begin <= chars@.len(),
            trim_start(chars@) == trim_start(chars@.skip(begin as int)),
        decreases chars.len() - begin,
    {
        assert(chars@.skip(begin as int).skip(1) =~= chars@.skip(begin + 1));
        begin = begin + 1;
    }
    let mut end: usize = chars.len();
    assert(chars@.subrange(begin as int, end as int) =~= chars@.skip(begin as int));
    while begin < end && chars[end - 1].is_whitespace()
        invariant
            begin <= end <= chars@.len(),
            trim(chars@) == trim_end(chars@.subrange(begin as int, end as int)),
        decreases end - begin,
    {
        assert(chars@.subrange(begin as int, end as int).drop_last() =~= chars@.subrange(
            begin as int,
            end - 1,
        ));
        end = end - 1;
    }
    part_of(chars, begin, end)
}

/// Writes a number in decimal.
pub fn decimal_text(n: u16) -> (text: String)
    ensures
        text@ == decimal(n as nat),
    decreases n,
{
    let d: u8 = (n % 10) as u8;
    let c: char = ('0' as u8 + d) as char;
    if n < 10 {
        let mut text = String::new();
        text.push(c);
        assert(text@ =~= decimal(n as nat));
        text
    } else {
        let mut text = decimal_text(n / 10);
        text.push(c);
        text
    }
}

/// Whether `sep` occurs in `s` at `i`.
pub open spec fn occurs(s: Seq<char>, sep: Seq<char>, i: int) -> bool {
    0 <= i && i + sep.len() <= s.len() && s.subrange(i, i + sep.len()) == sep
}

/// Puts `sep` between the parts of a text.
pub open spec fn join(parts: Seq<Seq<char>>, sep: Seq<char>) -> Seq<char>
    decreases parts.len(),
{
    if parts.len() == 0 {
        Seq::empty()
    } else if parts.len() == 1 {
        parts[0]
    } else {
        parts[0] + sep + join(parts.drop_first(), sep)
    }
}

/// Searching finds the first occurrence, and fails only if there is none.
pub proof fn law_find_is_first(s: Seq<char>, sep: Seq<char>)
    ensures
        match find(s, sep) {
            Some(i) => occurs(s, sep, i) && forall|j: int| j < i ==> !#[trigger] occurs(s, sep, j),
            None => forall|j: int| !#[trigger] occurs(s, sep, j),
        },
    decreases s.len(),
{
    let n = sep.len() as int;
    if s.len() >= n {
        assert(s.take(n) =~= s.subrange(0, n));
        if s.take(n) != sep && s.len() > 0 {
            let rest = s.skip(1);
            law_find_is_first(rest, sep);
            assert forall|j: int| j >= 1 implies #[trigger] occurs(s, sep, j) == occurs(
                rest,
                sep,
                j - 1,
            ) by {
                if j + n <= s.len() {
                    assert(s.subrange(j, j + n) =~= rest.subrange(j - 1, j - 1 + n));
                }
            }
            assert forall|j: int| #[trigger] occurs(s, sep, j) implies occurs(rest, sep, j - 1) by {
                assert(j != 0);
            }
            if let Some(i) = find(rest, sep) {
                assert(occurs(s, sep, i + 1));
            }
        }
    }
}

/// Splitting loses nothing: joined again, the parts are the text.
pub proof fn law_split_join(s: Seq<char>, sep: Seq<char>)
    requires
        sep.len() > 0,
    ensures
        join(split(s, sep), sep) == s,
        split(s, sep).len() >= 1,
    decreases s.len(),
{
    law_find_is_first(s, sep);
    if let Some(i) = find(s, sep) {
        let rest = s.skip(i + sep.len());
        law_split_join(rest, sep);
        let parts = split(s, sep);
        assert(parts.drop_first() =~= split(rest, sep));
        assert(s =~= s.take(i) + sep + rest) by {
            assert(s.subrange(i, i + sep.len()) =~= sep);
            assert(s =~= s.take(i) + s.subrange(i, i + sep.len()) + rest);
        }
    }
}

/// A text without `sep` in it has no part with `sep` in it.
pub proof fn lemma_part_without(s: Seq<char>, sep: Seq<char>, begin: int, end: int)
    requires
        find(s, sep) is None,
        0 <= begin <= end <= s.len(),
    ensures
        find(s.subrange(begin, end), sep) is None,
{
    let part = s.subrange(begin, end);
    law_find_is_first(s, sep);
    law_find_is_first(part, sep);
    if let Some(i) = find(part, sep) {
        assert(part.subrange(i, i + sep.len()) =~= s.subrange(begin + i, begin + i + sep.len()));
        assert(occurs(s, sep, begin + i));
    }
}

/// Splitting is complete: no part has the separator in it.
pub proof fn law_parts_without_separator(s: Seq<char>, sep: Seq<char>, k: int)
    requires
        sep.len() > 0,
        0 <= k < split(s, sep).len(),
    ensures
        find(split(s, sep)[k], sep) is None,
    decreases s.len(),
{
    law_find_is_first(s, sep);
    if let Some(i) = find(s, sep) {
        if k == 0 {
            let part = s.take(i);
            law_find_is_first(part, sep);
            if let Some(j) = find(part, sep) {
                assert(part.subrange(j, j + sep.len()) =~= s.subrange(j, j + sep.len()));
                assert(occurs(s, sep, j));
            }
        } else {
            let rest = s.skip(i + sep.len());
            law_parts_without_separator(rest, sep, k - 1);
            assert(split(s, sep)[k] == split(rest, sep)[k - 1]);
        }
    }
}

/// What a text does not hold, no part of it holds.
pub proof fn law_parts_hold_nothing_new(s: Seq<char>, sep: Seq<char>, other: Seq<char>, k: int)
    requires
        sep.len() > 0,
        find(s, other) is None,
        0 <= k < split(s, sep).len(),
    ensures
        find(split(s, sep)[k], other) is None,
    decreases s.len(),
{
    law_find_is_first(s, sep);
    if let Some(i) = find(s, sep) {
        if k == 0 {
            lemma_part_without(s, other, 0, i);
            assert(s.subrange(0, i) =~= s.take(i));
        } else {
            let rest = s.skip(i + sep.len());
            lemma_part_without(s, other, i + sep.len(), s.len() as int);
            assert(s.subrange(i + sep.len(), s.len() as int) =~= rest);
            law_parts_hold_nothing_new(rest, sep, other, k - 1);
            assert(split(s, sep)[k] == split(rest, sep)[k - 1]);
        }
    }
}

/// A separator is found right after a text that does not hold it, if the first
/// character of the separator does not come again in it.
pub proof fn lemma_split_after(part: Seq<char>, sep: Seq<char>, rest: Seq<char>)
    requires
        sep.len() > 0,
        forall|j: int| 1 <= j < sep.len() ==> #[trigger] sep[j] != sep[0],
        find(part, sep) is None,
    ensures
        find(part + sep + rest, sep) == Some(part.len() as int),
        split(part + sep + rest, sep) == seq![part] + split(rest, sep),
{
    let s = part + sep + rest;
    let n = part.len() as int;
    assert(find(s, sep) == Some(n)) by {
        law_find_is_first(s, sep);
        law_find_is_first(part, sep);
        assert(s.subrange(n, n + sep.len()) =~= sep);
        assert(occurs(s, sep, n));
        let i = find(s, sep)->Some_0;
        if i < n {
            let there = s.subrange(i, i + sep.len());
            if i + sep.len() <= n {
                assert(part.subrange(i, i + sep.len()) =~= there);
                assert(occurs(part, sep, i));
            } else {
                assert(there[n - i] == s[n]);
                assert(sep[n - i] == sep[0]);
            }
        }
    }
    let after = s.skip(n + sep.len());
    assert(s.take(n) =~= part);
    assert(after =~= rest);
    assert(split(s, sep) == seq![s.take(n)] + split(after, sep));
}

/// Two texts without `sep` in them, and a character that is not of `sep`
/// between them, are a text without `sep` in it.
pub proof fn lemma_joined_without(before: Seq<char>, c: char, after: Seq<char>, sep: Seq<char>)
    requires
        sep.len() > 0,
        !sep.contains(c),
        find(before, sep) is None,
        find(after, sep) is None,
    ensures
        find(before + seq![c] + after, sep) is None,
{
    let s = before + seq![c] + after;
    let n = before.len() as int;
    law_find_is_first(s, sep);
    law_find_is_first(before, sep);
    law_find_is_first(after, sep);
    if let Some(i) = find(s, sep) {
        let there = s.subrange(i, i + sep.len());
        if i + sep.len() <= n {
            assert(before.subrange(i, i + sep.len()) =~= there);
            assert(occurs(before, sep, i));
        } else if i > n {
            assert(after.subrange(i - n - 1, i - n - 1 + sep.len()) =~= there);
            assert(occurs(after, sep, i - n - 1));
        } else {
            assert(there[n - i] == c);
            assert(sep.contains(c));
        }
    }
}

/// A text that does not hold the first character of a separator is not split.
pub proof fn lemma_split_none(s: Seq<char>, sep: Seq<char>)
    requires
        sep.len() > 0,
        !s.contains(sep[0]),
    ensures
        find(s, sep) is None,
        split(s, sep) == seq![s],
{
    law_find_is_first(s, sep);
    if let Some(i) = find(s, sep) {
        assert(s.subrange(i, i + sep.len())[0] == s[i]);
    }
}

/// Whether a text is not empty and has no white space around it.
pub open spec fn is_trimmed(s: Seq<char>) -> bool {
    s.len() > 0 && !is_white_space(s[0]) && !is_white_space(s.last())
}

/// Trimming removes white space around a text and nothing else: what is left
/// is empty or has none at its ends, and a trimmed text is left alone.
pub proof fn law_trim(s: Seq<char>) -> (bounds: (int, int))
    ensures
        0 <= bounds.0 <= bounds.1 <= s.len(),
        trim(s) == s.subrange(bounds.0, bounds.1),
        forall|i: int| 0 <= i < bounds.0 ==> is_white_space(#[trigger] s[i]),
        forall|i: int| bounds.1 <= i < s.len() ==> is_white_space(#[trigger] s[i]),
        trim(s).len() > 0 ==> is_trimmed(trim(s)),
        trim(trim(s)) == trim(s),
        is_trimmed(s) ==> trim(s) == s,
{
    let begin = lemma_trim_start(s);
    let t = trim_start(s);
    let end = begin + lemma_trim_end(t);
    assert(t =~= s.skip(begin));
    assert(trim(s) =~= s.subrange(begin, end));
    assert forall|i: int| end <= i < s.len() implies is_white_space(#[trigger] s[i]) by {
        assert(t[i - begin] == s[i]);
    }
    if trim(s).len() > 0 {
        assert(trim(s)[0] == t[0]);
    }
    (begin, end)
}

proof fn lemma_trim_start(s: Seq<char>) -> (begin: int)
    ensures
        0 <= begin <= s.len(),
        trim_start(s) == s.skip(begin),
        forall|i: int| 0 <= i < begin ==> is_white_space(#[trigger] s[i]),
        trim_start(s).len() > 0 ==> !is_white_space(trim_start(s)[0]),
    decreases s.len(),
{
    if s.len() > 0 && is_white_space(s[0]) {
        let rest = s.skip(1);
        let begin = lemma_trim_start(rest) + 1;
        assert(rest.skip(begin - 1) =~= s.skip(begin));
        assert forall|i: int| 0 <= i < begin implies is_white_space(#[trigger] s[i]) by {
            if i > 0 {
                assert(rest[i - 1] == s[i]);
            }
        }
        begin
    } else {
        assert(s.skip(0) =~= s);
        0
    }
}

proof fn lemma_trim_end(s: Seq<char>) -> (end: int)
    ensures
        0 <= end <= s.len(),
        trim_end(s) == s.take(end),
        forall|i: int| end <= i < s.len() ==> is_white_space(#[trigger] s[i]),
        trim_end(s).len() > 0 ==> !is_white_space(trim_end(s).last()),
    decreases s.len(),
{
    if s.len() > 0 && is_white_space(s.last()) {
        let rest = s.drop_last();
        let end = lemma_trim_end(rest);
        assert(rest.take(end) =~= s.take(end));
        assert forall|i: int| end <= i < s.len() implies is_white_space(#[trigger] s[i]) by {
            if i < rest.len() {
                assert(rest[i] == s[i]);
            }
        }
        end
    } else {
        assert(s.take(s.len() as int) =~= s);
        s.len() as int
    }
}

/// The lines of a head are its first line, one line for each header field, and
/// an empty rest, if nothing in it holds the end of a line.
pub proof fn lemma_head_lines(first: Seq<char>, fields: Seq<(Seq<char>, Seq<char>)>)
    requires
        find(first, seq!['\r', '\n']) is None,
        forall|i: int|
            0 <= i < fields.len() ==> find((#[trigger] fields[i]).0, seq!['\r', '\n']) is None
                && find(fields[i].1, seq!['\r', '\n']) is None,
    ensures
        split(first + seq!['\r', '\n'] + field_lines(fields), seq!['\r', '\n']) == seq![first]
            + fields.map_values(
            |field: (Seq<char>, Seq<char>)| field.0 + seq![':'] + field.1,
        ) + seq![Seq::<char>::empty()],
    decreases fields.len(),
{
    let line_end = seq!['\r', '\n'];
    let lines = fields.map_values(|field: (Seq<char>, Seq<char>)| field.0 + seq![':'] + field.1);
    let rest = field_lines(fields);
    lemma_split_after(first, line_end, rest);
    if fields.len() == 0 {
        assert(rest =~= Seq::<char>::empty());
        assert(split(rest, line_end) == seq![rest]);
        assert(seq![first] + seq![rest] =~= seq![first] + lines + seq![Seq::<char>::empty()]);
    } else {
        let later = fields.drop_first();
        let line = fields[0].0 + seq![':'] + fields[0].1;
        lemma_joined_without(fields[0].0, ':', fields[0].1, line_end);
        assert forall|i: int| 0 <= i < later.len() implies find(
            (#[trigger] later[i]).0,
            line_end,
        ) is None && find(later[i].1, line_end) is None by {
            assert(later[i] == fields[i + 1]);
        }
        lemma_head_lines(line, later);
        assert(rest =~= line + line_end + field_lines(later));
        assert(lines =~= seq![line] + later.map_values(
            |field: (Seq<char>, Seq<char>)| field.0 + seq![':'] + field.1,
        ));
        assert(seq![first] + split(rest, line_end) =~= seq![first] + lines + seq![
            Seq::<char>::empty(),
        ]);
    }
}

/// The number that decimal digits stand for.
pub open spec fn value_of(digits: Seq<char>) -> int
    decreases digits.len(),
{
    if digits.len() == 0 {
        0
    } else {
        value_of(digits.drop_last()) * 10 + (digits.last() as int - '0' as int)
    }
}

/// A number is written in decimal digits that stand for it, and without zeros
/// in front.
pub proof fn law_decimal(n: nat)
    ensures
        decimal(n).len() > 0,
        forall|i: int| 0 <= i < decimal(n).len() ==> '0' <= #[trigger] decimal(n)[i] <= '9',
        value_of(decimal(n)) == n,
        decimal(n).len() > 1 ==> decimal(n)[0] != '0',
    decreases n,
{
    if n < 10 {
        let s = decimal(n);
        assert(s.drop_last() =~= Seq::empty());
        assert(value_of(s.drop_last()) == 0);
    } else {
        law_decimal(n / 10);
        let before = decimal(n / 10);
        assert(decimal(n).drop_last() =~= before);
        assert(decimal(n)[0] == before[0]);
        if before.len() == 1 {
            assert(before.drop_last() =~= Seq::empty());
            assert(value_of(before.drop_last()) == 0);
        }
        assert forall|i: int| 0 <= i < decimal(n).len() implies '0' <= #[trigger] decimal(n)[i]
            <= '9' by {
            if i < before.len() {
                assert(decimal(n)[i] == before[i]);
            }
        }
    }
}

/// Different numbers are written differently.
pub proof fn law_decimal_tells_apart(a: nat, b: nat)
    requires
        decimal(a) == decimal(b),
    ensures
        a == b,
{
    law_decimal(a);
    law_decimal(b);
}

/// Whether a text is white space.
pub open spec fn all_white(s: Seq<char>) -> bool {
    forall|i: int| 0 <= i < s.len() ==> is_white_space(#[trigger] s[i])
}

/// Trimming gives back what white space was put around.
pub proof fn law_padding_is_trimmed(before: Seq<char>, s: Seq<char>, after: Seq<char>)
    requires
        all_white(before),
        all_white(after),
        s.len() == 0 || is_trimmed(s),
    ensures
        trim(before + s + after) == s,
{
    let whole = before + s + after;
    let (x, y) = law_trim(whole);
    let (m, n) = (before.len() as int, s.len() as int);
    let t = trim(whole);
    if n == 0 {
        if t.len() > 0 {
            assert(t[0] == whole[x]);
            if x < m {
                assert(is_white_space(before[x]));
            } else {
                assert(is_white_space(after[x - m]));
            }
        }
        assert(t =~= s);
    } else {
        assert(whole[m] == s[0]);
        assert(whole[m + n - 1] == s.last());
        assert(x <= m);
        assert(m + n <= y);
        assert(t[0] == whole[x]);
        assert(t.last() == whole[y - 1]);
        if x < m {
            assert(whole[x] == before[x]);
        }
        if y > m + n {
            assert(whole[y - 1] == after[y - 1 - m - n]);
        }
        assert(t =~= s);
    }
}

/// Splitting takes apart what was joined, if no part holds the separator and
/// the first character of the separator does not come again in it.
pub proof fn law_join_split(parts: Seq<Seq<char>>, sep: Seq<char>)
    requires
        parts.len() > 0,
        sep.len() > 0,
        forall|j: int| 1 <= j < sep.len() ==> #[trigger] sep[j] != sep[0],
        forall|i: int| 0 <= i < parts.len() ==> find(#[trigger] parts[i], sep) is None,
    ensures
        split(join(parts, sep), sep) == parts,
    decreases parts.len(),
{
    if parts.len() == 1 {
        assert(find(parts[0], sep) is None);
        assert(parts =~= seq![parts[0]]);
    } else {
        let rest = parts.drop_first();
        assert forall|i: int| 0 <= i < rest.len() implies find(#[trigger] rest[i], sep) is None by {
            assert(rest[i] == parts[i + 1]);
        }
        law_join_split(rest, sep);
        assert(find(parts[0], sep) is None);
        lemma_split_after(parts[0], sep, join(rest, sep));
        assert(seq![parts[0]] + rest =~= parts);
    }
}

/// Whether a line ends within a text.
pub open spec fn holds_line_end(s: Seq<char>) -> bool {
    exists|i: int| 0 <= i < s.len() - 1 && #[trigger] s[i] == '\r' && s[i + 1] == '\n'
}

/// A text in which no line ends has no line end to be found.
pub proof fn lemma_no_line_end(s: Seq<char>)
    requires
        !holds_line_end(s),
    ensures
        find(s, seq!['\r', '\n']) is None,
{
    let line_end = seq!['\r', '\n'];
    law_find_is_first(s, line_end);
    if let Some(i) = find(s, line_end) {
        let there = s.subrange(i, i + 2);
        assert(there[0] == s[i] && there[1] == s[i + 1]);
        assert(holds_line_end(s));
    }
}

/// Parts are taken as they are, one for one and in order.
pub proof fn law_contents_in_order(parts: Seq<Vec<char>>, i: int)
    requires
        0 <= i < parts.len(),
    ensures
        contents(parts).len() == parts.len(),
        contents(parts)[i] == parts[i]@,
{
}

} // verus!
