//! What the operations on text give, in terms of the text that they are given.

use vstd::prelude::*;

use crate::text::{
    after, before, ends_with, find, is_white_space, lemma_split_joined, lemma_split_single, lines, lower, split, starts_with, strip_carriage_return, trim, trim_end,
    trim_start, upper, views,
};

verus! {

/// Tells that `s` is made of white space only.
pub open spec fn all_white_space(s: Seq<char>) -> bool {
    forall|i: int| 0 <= i < s.len() ==> is_white_space(#[trigger] s[i])
}

/// Tells that `s` neither starts nor ends with white space.
pub open spec fn has_bare_ends(s: Seq<char>) -> bool {
    s.len() > 0 ==> !is_white_space(s[0]) && !is_white_space(s[s.len() - 1])
}

/// White space is what Unicode says it is.
pub proof fn white_space_is_that_of_unicode(c: char)
    ensures
        is_white_space(c) <==> {
            let code = c as u32;
            ||| 0x9 <= code <= 0xd || code == 0x20 || code == 0x85 || code == 0xa0
            ||| code == 0x1680 || 0x2000 <= code <= 0x200a || code == 0x2028 || code == 0x2029
            ||| code == 0x202f || code == 0x205f || code == 0x3000
        },
{
}

/// Trimming at the end takes away all the white space that follows a text, and nothing of
/// the text.
pub proof fn white_space_at_the_end_is_dropped(s: Seq<char>, ending: Seq<char>)
    requires
        all_white_space(ending),
        s.len() > 0 ==> !is_white_space(s[s.len() - 1]),
    ensures
        trim_end(s + ending) == s,
    decreases ending.len(),
{
    if ending.len() == 0 {
        assert(s + ending =~= s);
    } else {
        let front = ending.drop_last();
        assert(is_white_space(ending[ending.len() - 1]));
        assert forall|i: int| 0 <= i < front.len() implies is_white_space(#[trigger] front[i]) by {
            assert(front[i] == ending[i]);
        }
        white_space_at_the_end_is_dropped(s, front);
        assert((s + ending).drop_last() =~= s + front);
        assert((s + ending).last() == ending[ending.len() - 1]);
    }
}

/// Trimming at the start takes away all the white space that precedes a text, and nothing of
/// the text.
pub proof fn white_space_at_the_start_is_dropped(start: Seq<char>, s: Seq<char>)
    requires
        all_white_space(start),
        s.len() > 0 ==> !is_white_space(s[0]),
    ensures
        trim_start(start + s) == s,
    decreases start.len(),
{
    if start.len() == 0 {
        assert(start + s =~= s);
    } else {
        let rest = start.drop_first();
        assert(is_white_space(start[0]));
        assert forall|i: int| 0 <= i < rest.len() implies is_white_space(#[trigger] rest[i]) by {
            assert(rest[i] == start[i + 1]);
        }
        white_space_at_the_start_is_dropped(rest, s);
        assert((start + s).drop_first() =~= rest + s);
        assert((start + s).first() == start[0]);
    }
}

/// Trimming takes away the white space on both sides of a text, and nothing of the text.
pub proof fn white_space_around_is_dropped(start: Seq<char>, s: Seq<char>, ending: Seq<char>)
    requires
        all_white_space(start),
        has_bare_ends(s),
        all_white_space(ending),
    ensures
        trim(start + s + ending) == s,
{
    if s.len() == 0 {
        let all = start + ending;
        assert(start + s + ending =~= all);
        assert forall|i: int| 0 <= i < all.len() implies is_white_space(#[trigger] all[i]) by {
            if i < start.len() {
                assert(is_white_space(start[i]));
            } else {
                assert(is_white_space(ending[i - start.len()]));
            }
        }
        white_space_at_the_start_is_dropped(all, s);
        assert(all + s =~= all);
        assert(trim_end(s) == s);
    } else {
        assert(start + s + ending =~= start + (s + ending));
        white_space_at_the_start_is_dropped(start, s + ending);
        white_space_at_the_end_is_dropped(s, ending);
    }
}

/// A text is split at each `c`, and nowhere else.
pub proof fn text_is_split_at_the_character(part: Seq<char>, c: char, rest: Seq<char>)
    requires
        !part.contains(c),
    ensures
        find(part.push(c) + rest, c) == part.len(),
        before(part.push(c) + rest, c) == part,
        after(part.push(c) + rest, c) == rest,
        split(part.push(c) + rest, c) == seq![part] + split(rest, c),
        find(part, c) == part.len(),
        before(part, c) == part,
        after(part, c) == Seq::<char>::empty(),
        split(part, c) == seq![part],
{
    lemma_split_joined(part, c, rest);
    lemma_split_single(part, c);
    assert(before(part, c) =~= part);
}

/// A line ends at a line feed, and a carriage return before the line feed does not belong to
/// it. What follows the last line feed is a line where it is not empty.
pub proof fn text_is_split_into_lines(line: Seq<char>, rest: Seq<char>)
    requires
        !line.contains('\n'),
    ensures
        lines(line.push('\r').push('\n') + rest) == seq![line] + lines(rest),
        line.len() == 0 || line[line.len() - 1] != '\r' ==> lines(line.push('\n') + rest)
            == seq![line] + lines(rest),
        lines(line) == if line.len() == 0 {
            Seq::<Seq<char>>::empty()
        } else {
            seq![line]
        },
{
    let ended = line.push('\r');
    assert(!ended.contains('\n')) by {
        if ended.contains('\n') {
            let i = choose|i: int| 0 <= i < ended.len() && ended[i] == '\n';
            assert(i < line.len());
            assert(line.contains(line[i]));
        }
    }
    lemma_split_joined(ended, '\n', rest);
    assert(strip_carriage_return(ended) =~= line);
    lemma_split_joined(line, '\n', rest);
    lemma_split_single(line, '\n');
}

/// A text begins with its prefixes and ends with its suffixes, and with nothing else.
pub proof fn text_begins_and_ends(s: Seq<char>, a: Seq<char>, b: Seq<char>)
    ensures
        starts_with(a + b, a),
        ends_with(a + b, b),
        starts_with(s, a) ==> s == a + s.skip(a.len() as int),
        ends_with(s, b) ==> s == s.take(s.len() - b.len()) + b,
{
    assert((a + b).take(a.len() as int) =~= a);
    assert((a + b).skip(a.len() as int) =~= b);
    if starts_with(s, a) {
        assert(s =~= s.take(a.len() as int) + s.skip(a.len() as int));
    }
    if ends_with(s, b) {
        assert(s =~= s.take(s.len() - b.len()) + s.skip(s.len() - b.len()));
    }
}

/// Changing the case changes the ASCII letters, each to the letter of the other case, and no
/// other character.
pub proof fn case_is_that_of_ascii_letters(s: Seq<char>, i: int)
    requires
        0 <= i < s.len(),
    ensures
        upper(s).len() == s.len(),
        lower(s).len() == s.len(),
        upper(s)[i] as int == if 'a' <= s[i] <= 'z' {
            s[i] as int - 32
        } else {
            s[i] as int
        },
        lower(s)[i] as int == if 'A' <= s[i] <= 'Z' {
            s[i] as int + 32
        } else {
            s[i] as int
        },
{
}

/// The contents of several texts are those of each, in their order.
pub proof fn texts_are_viewed_in_order(v: Seq<&str>, i: int)
    requires
        0 <= i < v.len(),
    ensures
        views(v).len() == v.len(),
        views(v)[i] == v[i]@,
{
}

/// Every text is white space, a text with bare ends, and white space.
pub proof fn text_has_a_core(s: Seq<char>)
    ensures
        exists|start: Seq<char>, ending: Seq<char>|
            {
                &&& all_white_space(start)
                &&& all_white_space(ending)
                &&& s == #[trigger] (start + trim(s) + ending)
                &&& has_bare_ends(trim(s))
            },
{
    let (start, t) = lemma_start(s);
    let (u, ending) = lemma_ending(t);
    white_space_at_the_start_is_dropped(start, t);
    white_space_at_the_end_is_dropped(u, ending);
    assert(s =~= start + u + ending);
    if u.len() > 0 {
        assert(u[0] == t[0]);
    }
    assert(s == start + trim(s) + ending);
}

/// The white space at the start of a text, and the rest.
pub proof fn lemma_start(s: Seq<char>) -> (parts: (Seq<char>, Seq<char>))
    ensures
        s == parts.0 + parts.1,
        all_white_space(parts.0),
        parts.1.len() > 0 ==> !is_white_space(parts.1[0]),
    decreases s.len(),
{
    if s.len() > 0 && is_white_space(s[0]) {
        let (start, rest) = lemma_start(s.drop_first());
        let longer = seq![s[0]] + start;
        assert forall|i: int| 0 <= i < longer.len() implies is_white_space(#[trigger] longer[i]) by {
            if i > 0 {
                assert(longer[i] == start[i - 1]);
            }
        }
        assert(s =~= seq![s[0]] + s.drop_first());
        assert(s =~= longer + rest);
        (longer, rest)
    } else {
        assert(s =~= Seq::<char>::empty() + s);
        (Seq::empty(), s)
    }
}

/// A text without the white space at its end, and that white space.
pub proof fn lemma_ending(s: Seq<char>) -> (parts: (Seq<char>, Seq<char>))
    ensures
        s == parts.0 + parts.1,
        all_white_space(parts.1),
        parts.0.len() > 0 ==> !is_white_space(parts.0[parts.0.len() - 1]),
    decreases s.len(),
{
    if s.len() > 0 && is_white_space(s[s.len() - 1]) {
        let (front, ending) = lemma_ending(s.drop_last());
        let longer = ending.push(s[s.len() - 1]);
        assert forall|i: int| 0 <= i < longer.len() implies is_white_space(#[trigger] longer[i]) by {
            if i < ending.len() {
                assert(longer[i] == ending[i]);
            }
        }
        assert(s =~= s.drop_last().push(s[s.len() - 1]));
        assert(s =~= front + longer);
        (front, longer)
    } else {
        assert(s =~= s + Seq::<char>::empty());
        (s, Seq::empty())
    }
}

} // verus!
