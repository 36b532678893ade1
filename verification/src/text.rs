//! Operations on text, stated over sequences of characters.

use vstd::prelude::*;
use vstd::string::*;

verus! {

/// The characters with the Unicode property `White_Space`.
pub open spec fn is_white_space(c: char) -> bool {
    ||| '\u{9}' <= c <= '\u{d}'
    ||| c == '\u{20}'
    ||| c == '\u{85}'
    ||| c == '\u{a0}'
    ||| c == '\u{1680}'
    ||| '\u{2000}' <= c <= '\u{200a}'
    ||| c == '\u{2028}'
    ||| c == '\u{2029}'
    ||| c == '\u{202f}'
    ||| c == '\u{205f}'
    ||| c == '\u{3000}'
}

/// `s` without the white space at its start.
pub open spec fn trim_start(s: Seq<char>) -> Seq<char>
    decreases s.len(),
{
    if s.len() > 0 && is_white_space(s.first()) {
        trim_start(s.drop_first())
    } else {
        s
    }
}

/// `s` without the white space at its end.
pub open spec fn trim_end(s: Seq<char>) -> Seq<char>
    decreases s.len(),
{
    if s.len() > 0 && is_white_space(s.last()) {
        trim_end(s.drop_last())
    } else {
        s
    }
}

/// `s` without the white space around it.
pub open spec fn trim(s: Seq<char>) -> Seq<char> {
    trim_end(trim_start(s))
}

/// The place of the first `c` in `s`, or the length of `s` where there is none.
pub open spec fn find(s: Seq<char>, c: char) -> nat
    decreases s.len(),
{
    if s.len() == 0 || s.first() == c {
        0
    } else {
        1 + find(s.drop_first(), c)
    }
}

/// The part of `s` before the first `c`, or all of it where there is no `c`.
pub open spec fn before(s: Seq<char>, c: char) -> Seq<char> {
    s.take(find(s, c) as int)
}

/// The part of `s` after the first `c`, or nothing where there is no `c`.
pub open spec fn after(s: Seq<char>, c: char) -> Seq<char> {
    if find(s, c) < s.len() {
        s.skip((find(s, c) + 1) as int)
    } else {
        Seq::empty()
    }
}

/// The parts of `s` between the occurrences of `c`.
pub open spec fn split(s: Seq<char>, c: char) -> Seq<Seq<char>>
    decreases s.len(),
{
    if find(s, c) < s.len() {
        seq![before(s, c)] + split(after(s, c), c)
    } else {
        seq![s]
    }
}

/// `s` without a carriage return at its end.
pub open spec fn strip_carriage_return(s: Seq<char>) -> Seq<char> {
    if s.len() > 0 && s.last() == '\r' {
        s.drop_last()
    } else {
        s
    }
}

/// The lines of `s`. A line ends at a line feed or at the end of the text; a carriage
/// return before a line feed belongs to the line's end.
pub open spec fn lines(s: Seq<char>) -> Seq<Seq<char>>
    decreases s.len(),
{
    if s.len() == 0 {
        Seq::empty()
    } else if find(s, '\n') < s.len() {
        seq![strip_carriage_return(before(s, '\n'))] + lines(after(s, '\n'))
    } else {
        seq![s]
    }
}

/// Tells that `s` begins with `prefix`.
pub open spec fn starts_with(s: Seq<char>, prefix: Seq<char>) -> bool {
    prefix.len() <= s.len() && s.take(prefix.len() as int) == prefix
}

/// Tells that `s` ends with `suffix`.
pub open spec fn ends_with(s: Seq<char>, suffix: Seq<char>) -> bool {
    suffix.len() <= s.len() && s.skip(s.len() - suffix.len()) == suffix
}

/// The contents of each text in `v`.
pub open spec fn views(v: Seq<&str>) -> Seq<Seq<char>> {
    v.map_values(|s: &str| s@)
}

/// `s` with its ASCII letters in upper case.
pub open spec fn upper(s: Seq<char>) -> Seq<char> {
    s.map_values(|c: char| ascii_upper(c))
}

pub open spec fn ascii_upper(c: char) -> char {
    if 'a' <= c <= 'z' {
        (c as u32 - 32) as char
    } else {
        c
    }
}

/// `s` with its ASCII letters in lower case.
pub open spec fn lower(s: Seq<char>) -> Seq<char> {
    s.map_values(|c: char| ascii_lower(c))
}

pub open spec fn ascii_lower(c: char) -> char {
    if 'A' <= c <= 'Z' {
        (c as u32 + 32) as char
    } else {
        c
    }
}

/// The place `find` gives is the first one that holds `c`.
pub proof fn lemma_find(s: Seq<char>, c: char)
    ensures
        find(s, c) <= s.len(),
        forall|i: int| 0 <= i < find(s, c) ==> s[i] != c,
        find(s, c) < s.len() ==> s[find(s, c) as int] == c,
    decreases s.len(),
{
    if s.len() > 0 && s.first() != c {
        let rest = s.drop_first();
        lemma_find(rest, c);
        assert forall|i: int| 0 <= i < find(s, c) implies s[i] != c by {
            if i > 0 {
                assert(s[i] == rest[i - 1]);
            }
        }
    }
}

/// The first place that holds `c` is what `find` gives.
pub proof fn lemma_find_is(s: Seq<char>, c: char, at: int)
    requires
        0 <= at <= s.len(),
        forall|i: int| 0 <= i < at ==> s[i] != c,
        at < s.len() ==> s[at] == c,
    ensures
        find(s, c) == at,
{
    lemma_find(s, c);
    if find(s, c) < at {
        assert(s[find(s, c) as int] == c);
    }
}

/// Joining two texts adds no `c`.
pub proof fn lemma_lacks(a: Seq<char>, b: Seq<char>, c: char)
    requires
        !a.contains(c),
        !b.contains(c),
    ensures
        !(a + b).contains(c),
{
    let s = a + b;
    if s.contains(c) {
        let i = choose|i: int| 0 <= i < s.len() && s[i] == c;
        assert(if i < a.len() {
            a.contains(a[i])
        } else {
            b.contains(b[i - a.len()])
        });
    }
}

/// Joining two texts by another character adds no `c`.
pub proof fn lemma_lacks_between(a: Seq<char>, d: char, b: Seq<char>, c: char)
    requires
        !a.contains(c),
        !b.contains(c),
        d != c,
    ensures
        !(a.push(d) + b).contains(c),
{
    assert(!seq![d].contains(c));
    lemma_lacks(a, seq![d], c);
    assert(a + seq![d] =~= a.push(d));
    lemma_lacks(a.push(d), b, c);
}

/// A part of a text without `c` has no `c`.
pub proof fn lemma_part_lacks(s: Seq<char>, from: int, to: int, c: char)
    requires
        0 <= from <= to <= s.len(),
        !s.contains(c),
    ensures
        !s.subrange(from, to).contains(c),
{
    assert forall|i: int| 0 <= i < to - from implies s.subrange(from, to)[i] != c by {
        assert(s.contains(s[from + i]));
    }
}

/// What stands before the first `c` has no `c`. Where a text lacks another character, so do
/// the parts before and after the first `c`.
pub proof fn lemma_around_lacks(s: Seq<char>, c: char, other: char)
    ensures
        !before(s, c).contains(c),
        !s.contains(other) ==> !before(s, c).contains(other) && !after(s, c).contains(other),
{
    lemma_find(s, c);
    let at = find(s, c) as int;
    if !s.contains(other) {
        assert(before(s, c) =~= s.subrange(0, at));
        lemma_part_lacks(s, 0, at, other);
        if at < s.len() {
            assert(after(s, c) =~= s.subrange(at + 1, s.len() as int));
            lemma_part_lacks(s, at + 1, s.len() as int, other);
        }
    }
}

/// Trimming adds no `c`.
pub proof fn lemma_trim_lacks(s: Seq<char>, c: char)
    requires
        !s.contains(c),
    ensures
        !trim(s).contains(c),
{
    lemma_trim_start_lacks(s, c);
    let t = trim_start(s);
    lemma_trim_end(t);
    assert(trim_end(t) =~= t.subrange(0, trim_end(t).len() as int));
    lemma_part_lacks(t, 0, trim_end(t).len() as int, c);
}

proof fn lemma_trim_start_lacks(s: Seq<char>, c: char)
    requires
        !s.contains(c),
    ensures
        !trim_start(s).contains(c),
    decreases s.len(),
{
    if s.len() > 0 && is_white_space(s.first()) {
        assert(s.drop_first() =~= s.subrange(1, s.len() as int));
        lemma_part_lacks(s, 1, s.len() as int, c);
        lemma_trim_start_lacks(s.drop_first(), c);
    }
}

/// No line holds a line feed.
pub proof fn lemma_lines_lack(s: Seq<char>)
    ensures
        forall|i: int| 0 <= i < lines(s).len() ==> !(#[trigger] lines(s)[i]).contains('\n'),
    decreases s.len(),
{
    if s.len() > 0 {
        lemma_find(s, '\n');
        if find(s, '\n') < s.len() {
            let first = before(s, '\n');
            lemma_around_lacks(s, '\n', '\n');
            if first.len() > 0 {
                assert(first.drop_last() =~= first.subrange(0, first.len() - 1));
                lemma_part_lacks(first, 0, first.len() - 1, '\n');
            }
            let rest = lines(after(s, '\n'));
            lemma_lines_lack(after(s, '\n'));
            assert forall|i: int| 0 <= i < lines(s).len() implies !(#[trigger] lines(
                s,
            )[i]).contains('\n') by {
                if i > 0 {
                    assert(lines(s)[i] == rest[i - 1]);
                }
            }
        } else {
            assert(!s.contains('\n'));
            assert(lines(s) =~= seq![s]);
        }
    }
}

/// A part without `c` that stands before a `c` is the first of the parts.
pub proof fn lemma_split_joined(part: Seq<char>, c: char, rest: Seq<char>)
    requires
        !part.contains(c),
    ensures
        find(part.push(c) + rest, c) == part.len(),
        before(part.push(c) + rest, c) == part,
        after(part.push(c) + rest, c) == rest,
        split(part.push(c) + rest, c) == seq![part] + split(rest, c),
{
    let s = part.push(c) + rest;
    assert forall|i: int| 0 <= i < part.len() implies s[i] != c by {
        assert(part.contains(part[i]));
    }
    lemma_find_is(s, c, part.len() as int);
    assert(before(s, c) =~= part);
    assert(after(s, c) =~= rest);
}

/// A text without `c` is its only part.
pub proof fn lemma_split_single(part: Seq<char>, c: char)
    requires
        !part.contains(c),
    ensures
        find(part, c) == part.len(),
        split(part, c) == seq![part],
{
    assert forall|i: int| 0 <= i < part.len() implies part[i] != c by {
        assert(part.contains(part[i]));
    }
    lemma_find_is(part, c, part.len() as int);
}

/// The parts of a text hold no `c`, and joining them by `c` gives the text back.
pub proof fn lemma_split_step(s: Seq<char>, c: char)
    ensures
        split(s, c).len() > 0,
        split(s, c)[0] == before(s, c),
        split(s, c).len() == 1 ==> s == split(s, c)[0],
        split(s, c).len() > 1 ==> {
            &&& s == before(s, c).push(c) + after(s, c)
            &&& split(s, c).drop_first() == split(after(s, c), c)
        },
{
    lemma_find(s, c);
    assert(split(s, c).len() > 0);
    if find(s, c) < s.len() {
        reveal_with_fuel(split, 2);
        assert(s =~= before(s, c).push(c) + after(s, c));
        assert(split(s, c).drop_first() =~= split(after(s, c), c));
    } else {
        assert(before(s, c) =~= s);
    }
}

/// What remains is the beginning of the text, and has no white space at its end.
pub proof fn lemma_trim_end(s: Seq<char>)
    ensures
        trim_end(s).len() <= s.len(),
        trim_end(s) == s.take(trim_end(s).len() as int),
        trim_end(s).len() > 0 ==> !is_white_space(trim_end(s).last()),
    decreases s.len(),
{
    if s.len() > 0 && is_white_space(s.last()) {
        lemma_trim_end(s.drop_last());
        let n = trim_end(s).len() as int;
        assert(s.drop_last().take(n) =~= s.take(n));
    } else {
        assert(s.take(s.len() as int) =~= s);
    }
}

/// What remains has no white space at its start.
pub proof fn lemma_trim_start(s: Seq<char>)
    ensures
        trim_start(s).len() <= s.len(),
        trim_start(s).len() > 0 ==> !is_white_space(trim_start(s).first()),
    decreases s.len(),
{
    if s.len() > 0 && is_white_space(s.first()) {
        lemma_trim_start(s.drop_first());
    }
}

/// Trimming twice is trimming once, and what remains has no white space at its ends.
pub proof fn lemma_trim(s: Seq<char>)
    ensures
        trim(trim(s)) == trim(s),
        trim(s).len() > 0 ==> !is_white_space(trim(s).first()) && !is_white_space(trim(s).last()),
{
    lemma_trim_start(s);
    lemma_trim_end(trim_start(s));
}

/// White space at the end makes no difference to a trimmed text.
pub proof fn lemma_trim_push(s: Seq<char>, c: char)
    requires
        is_white_space(c),
    ensures
        trim(s.push(c)) == trim(s),
        trim_end(s.push(c)) == trim_end(s),
    decreases s.len(),
{
    let t = s.push(c);
    assert(t.drop_last() =~= s);
    if s.len() == 0 {
        assert(t.drop_first() =~= s);
    } else if is_white_space(s.first()) {
        assert(t.drop_first() =~= s.drop_first().push(c));
        lemma_trim_push(s.drop_first(), c);
    }
}

/// Tells whether `c` has the Unicode property `White_Space`.
pub fn white_space(c: char) -> (b: bool)
    ensures
        b == is_white_space(c),
{
    ('\u{9}' <= c && c <= '\u{d}') || c == '\u{20}' || c == '\u{85}' || c == '\u{a0}'
        || c == '\u{1680}' || ('\u{2000}' <= c && c <= '\u{200a}') || c == '\u{2028}'
        || c == '\u{2029}' || c == '\u{202f}' || c == '\u{205f}' || c == '\u{3000}'
}

/// The characters of `s`.
pub fn chars_of(s: &str) -> (v: Vec<char>)
    ensures
        v@ == s@,
{
    let mut v: Vec<char> = Vec::new();
    for c in it: s.chars()
        invariant
            v@ == it.seq().take(it.index()),
            it.seq() == s@,
    {
        v.push(c);
    }
    v
}

/// Tells whether two texts are the same.
pub fn same_text(a: &str, b: &str) -> (same: bool)
    ensures
        same == (a@ == b@),
{
    let x: Vec<char> = chars_of(a);
    let y: Vec<char> = chars_of(b);
    if x.len() != y.len() {
        return false;
    }
    for i in 0..x.len()
        invariant
            x@ == a@,
            y@ == b@,
            x.len() == y.len(),
            forall|j: int| 0 <= j < i ==> x[j] == y[j],
    {
        if x[i] != y[i] {
            return false;
        }
    }
    proof {
        assert(a@ =~= b@);
    }
    true
}

/// The place of the first `c` in `s`, or the length of `s` where there is none.
pub fn find_char(s: &str, c: char) -> (at: usize)
    ensures
        at == find(s@, c),
{
    let chars: Vec<char> = chars_of(s);
    for i in 0..chars.len()
        invariant
            chars@ == s@,
            forall|j: int| 0 <= j < i ==> s@[j] != c,
    {
        if chars[i] == c {
            proof {
                lemma_find_is(s@, c, i as int);
            }
            return i;
        }
    }
    proof {
        lemma_find_is(s@, c, s@.len() as int);
    }
    chars.len()
}

/// The part of `s` before the first `c`, and the part after it where there is one.
pub fn split_at_char(s: &str, c: char) -> (parts: (&str, Option<&str>))
    ensures
        parts.0@ == before(s@, c),
        parts.1 is Some <==> find(s@, c) < s@.len(),
        parts.1 matches Some(rest) ==> rest@ == after(s@, c),
{
    let at: usize = find_char(s, c);
    let len: usize = s.unicode_len();
    proof {
        lemma_find(s@, c);
    }
    if at < len {
        (s.substring_char(0, at), Some(s.substring_char(at + 1, len)))
    } else {
        (s, None)
    }
}

/// `s` without the white space at its start.
pub fn trimmed_start(s: &str) -> (t: &str)
    ensures
        t@ == trim_start(s@),
{
    let chars: Vec<char> = chars_of(s);
    let mut i: usize = 0;
    assert(s@.skip(0) =~= s@);
    while i < chars.len() && white_space(chars[i])
        invariant
            chars@ == s@,
            i <= chars.len(),
            trim_start(s@) == trim_start(s@.skip(i as int)),
        decreases chars.len() - i,
    {
        assert(s@.skip(i as int).drop_first() =~= s@.skip(i + 1));
        i = i + 1;
    }
    s.substring_char(i, chars.len())
}

/// `s` without the white space at its end.
pub fn trimmed_end(s: &str) -> (t: &str)
    ensures
        t@ == trim_end(s@),
{
    let chars: Vec<char> = chars_of(s);
    let mut i: usize = chars.len();
    assert(s@.take(s@.len() as int) =~= s@);
    while i > 0 && white_space(chars[i - 1])
        invariant
            chars@ == s@,
            i <= chars.len(),
            trim_end(s@) == trim_end(s@.take(i as int)),
        decreases i,
    {
        assert(s@.take(i as int).drop_last() =~= s@.take(i - 1));
        i = i - 1;
    }
    s.substring_char(0, i)
}

/// `s` without the white space around it.
pub fn trimmed(s: &str) -> (t: &str)
    ensures
        t@ == trim(s@),
{
    trimmed_end(trimmed_start(s))
}

/// The parts of `s` between the occurrences of `c`.
pub fn split_text(s: &str, c: char) -> (parts: Vec<&str>)
    ensures
        views(parts@) == split(s@, c),
{
    let mut parts: Vec<&str> = Vec::new();
    let mut rest: &str = s;
    loop
        invariant
            split(s@, c) =~= views(parts@) + split(rest@, c),
        decreases rest@.len(),
    {
        let (part, tail) = split_at_char(rest, c);
        let ghost done = parts@;
        parts.push(part);
        assert(views(parts@) =~= views(done).push(part@));
        match tail {
            Some(t) => {
                proof {
                    lemma_find(rest@, c);
                }
                rest = t;
            },
            None => {
                proof {
                    lemma_find(rest@, c);
                    assert(before(rest@, c) =~= rest@);
                }
                return parts;
            },
        }
    }
}

/// The lines of `s`.
pub fn lines_of(s: &str) -> (found: Vec<&str>)
    ensures
        views(found@) == lines(s@),
{
    let mut found: Vec<&str> = Vec::new();
    let mut rest: &str = s;
    loop
        invariant
            lines(s@) =~= views(found@) + lines(rest@),
        decreases rest@.len(),
    {
        if rest.is_empty() {
            return found;
        }
        let (part, tail) = split_at_char(rest, '\n');
        proof {
            lemma_find(rest@, '\n');
        }
        let ghost done = found@;
        match tail {
            Some(t) => {
                let chars: Vec<char> = chars_of(part);
                let line: &str = if chars.len() > 0 && chars[chars.len() - 1] == '\r' {
                    part.substring_char(0, chars.len() - 1)
                } else {
                    part
                };
                assert(line@ =~= strip_carriage_return(part@));
                found.push(line);
                assert(views(found@) =~= views(done).push(line@));
                rest = t;
            },
            None => {
                found.push(part);
                assert(views(found@) =~= views(done).push(part@));
                assert(before(rest@, '\n') =~= rest@);
                return found;
            },
        }
    }
}

/// Tells whether `s` is `word` once its ASCII letters are in upper case.
pub fn upper_is(s: &str, word: &str) -> (same: bool)
    ensures
        same == (upper(s@) == word@),
{
    let x: Vec<char> = chars_of(s);
    let y: Vec<char> = chars_of(word);
    if x.len() != y.len() {
        assert(upper(s@).len() != word@.len());
        return false;
    }
    for i in 0..x.len()
        invariant
            x@ == s@,
            y@ == word@,
            x.len() == y.len(),
            forall|j: int| 0 <= j < i ==> upper(s@)[j] == word@[j],
    {
        let c: char = x[i];
        let u: char = if 'a' <= c && c <= 'z' {
            (c as u8 - 32) as char
        } else {
            c
        };
        if u != y[i] {
            assert(upper(s@)[i as int] != word@[i as int]);
            return false;
        }
    }
    proof {
        assert(upper(s@) =~= word@);
    }
    true
}

/// Tells whether `s` begins with `prefix`.
pub fn begins_with(s: &str, prefix: &str) -> (b: bool)
    ensures
        b == starts_with(s@, prefix@),
{
    let len: usize = prefix.unicode_len();
    if len <= s.unicode_len() {
        same_text(s.substring_char(0, len), prefix)
    } else {
        false
    }
}

/// Tells whether `s` ends with `suffix` once its ASCII letters are in lower case.
pub fn lower_ends_with(s: &str, suffix: &str) -> (b: bool)
    ensures
        b == ends_with(lower(s@), suffix@),
{
    let x: Vec<char> = chars_of(s);
    let y: Vec<char> = chars_of(suffix);
    if x.len() < y.len() {
        return false;
    }
    let skip: usize = x.len() - y.len();
    for i in 0..y.len()
        invariant
            x@ == s@,
            y@ == suffix@,
            skip + y.len() == x.len(),
            forall|j: int| 0 <= j < i ==> lower(s@)[skip + j] == suffix@[j],
    {
        let c: char = x[skip + i];
        let l: char = if 'A' <= c && c <= 'Z' {
            (c as u8 + 32) as char
        } else {
            c
        };
        if l != y[i] {
            assert(lower(s@).skip(skip as int)[i as int] != suffix@[i as int]);
            return false;
        }
    }
    proof {
        assert(lower(s@).skip(skip as int) =~= suffix@);
    }
    true
}

} // verus!
