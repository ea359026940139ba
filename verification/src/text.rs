//! Plain text operations over the characters of a string.

use vstd::prelude::*;

verus! {

/// Whether `needle` occurs in `hay` as a contiguous run of characters.
pub open spec fn occurs_in(needle: Seq<char>, hay: Seq<char>) -> bool {
    exists|at: int| occurs_at(needle, hay, at)
}

/// Whether `needle` stands in `hay` at position `at`.
pub open spec fn occurs_at(needle: Seq<char>, hay: Seq<char>, at: int) -> bool {
    0 <= at && at + needle.len() <= hay.len() && hay.subrange(at, at + needle.len()) == needle
}

/// `text` without the `c`s at its end.
pub open spec fn trim_end(text: Seq<char>, c: char) -> Seq<char>
    decreases text.len(),
{
    if text.len() > 0 && text.last() == c {
        trim_end(text.drop_last(), c)
    } else {
        text
    }
}

/// `text` without the repetitions of `prefix` at its start.
pub open spec fn trim_start(text: Seq<char>, prefix: Seq<char>) -> Seq<char>
    decreases text.len(),
{
    if prefix.len() > 0 && prefix.is_prefix_of(text) {
        trim_start(text.skip(prefix.len() as int), prefix)
    } else {
        text
    }
}

/// Lexicographic order by character: `a` stands at or before `b`.
pub open spec fn text_le(a: Seq<char>, b: Seq<char>) -> bool
    decreases a.len(),
{
    if a.len() == 0 {
        true
    } else if b.len() == 0 {
        false
    } else if a[0] != b[0] {
        a[0] < b[0]
    } else {
        text_le(a.skip(1), b.skip(1))
    }
}

/// The characters of `text`, in order.
pub fn characters(text: &str) -> (chars: Vec<char>)
    ensures
        chars@ == text@,
{
    let mut chars: Vec<char> = Vec::new();
    for c in it: text.chars()
        invariant
            chars@ == text@.take(it.index()),
            it.seq() == text@,
    {
        chars.push(c);
        assert(text@.take(it.index() + 1) == text@.take(it.index()).push(c));
    }
    chars
}

/// Whether two strings hold the same characters.
pub fn same_text(a: &str, b: &str) -> (same: bool)
    ensures
        same == (a@ == b@),
{
    a.to_owned() == b.to_owned()
}

/// Whether `needle` stands in `hay` at position `at`.
fn stands_at(hay: &Vec<char>, needle: &Vec<char>, at: usize) -> (stands: bool)
    ensures
        stands == occurs_at(needle@, hay@, at as int),
{
    if at > hay.len() || needle.len() > hay.len() - at {
        return false;
    }
    let mut i: usize = 0;
    while i < needle.len()
        invariant
            i <= needle@.len(),
            at + needle@.len() <= hay@.len(),
            hay@.len() <= usize::MAX,
            forall|j: int| 0 <= j < i ==> hay@[at + j] == needle@[j],
        decreases needle@.len() - i,
    {
        if hay[at + i] != needle[i] {
            assert(hay@.subrange(at as int, at + needle@.len())[i as int] != needle@[i as int]);
            return false;
        }
        i += 1;
    }
    assert(hay@.subrange(at as int, at + needle@.len()) =~= needle@);
    true
}

/// Whether `needle` occurs in `hay`.
pub fn contains(hay: &str, needle: &str) -> (found: bool)
    ensures
        found == occurs_in(needle@, hay@),
{
    let all = characters(hay);
    let sought = characters(needle);
    let mut at: usize = 0;
    while at < all.len()
        invariant
            all@ == hay@,
            sought@ == needle@,
            at <= all@.len(),
            forall|j: int| 0 <= j < at ==> !occurs_at(needle@, hay@, j),
        decreases all@.len() - at,
    {
        if stands_at(&all, &sought, at) {
            assert(occurs_at(needle@, hay@, at as int));
            return true;
        }
        at += 1;
    }
    let found = stands_at(&all, &sought, at);
    assert(found == occurs_at(needle@, hay@, at as int));
    found
}

/// Whether `a` stands at or before `b` in lexicographic order.
pub fn at_or_before(a: &str, b: &str) -> (ordered: bool)
    ensures
        ordered == text_le(a@, b@),
{
    let left = characters(a);
    let right = characters(b);
    let mut i: usize = 0;
    assert(left@.skip(0) =~= left@);
    assert(right@.skip(0) =~= right@);
    while i < left.len() && i < right.len()
        invariant
            left@ == a@,
            right@ == b@,
            i <= left@.len(),
            i <= right@.len(),
            text_le(a@, b@) == text_le(left@.skip(i as int), right@.skip(i as int)),
        decreases left@.len() - i,
    {
        if left[i] != right[i] {
            return left[i] < right[i];
        }
        assert(left@.skip(i as int).skip(1) =~= left@.skip(i + 1));
        assert(right@.skip(i as int).skip(1) =~= right@.skip(i + 1));
        i += 1;
    }
    i == left.len()
}

/// Whether `text` starts with `prefix`.
pub fn starts_with(text: &str, prefix: &str) -> (starts: bool)
    ensures
        starts == prefix@.is_prefix_of(text@),
{
    let all = characters(text);
    let sought = characters(prefix);
    stands_at(&all, &sought, 0)
}

/// `text` without the `c`s at its end.
pub fn trim_end_matches(text: &str, c: char) -> (trimmed: &str)
    ensures
        trimmed@ == trim_end(text@, c),
{
    let all = characters(text);
    let mut end: usize = all.len();
    assert(all@.take(end as int) =~= all@);
    while end > 0 && all[end - 1] == c
        invariant
            end <= all@.len(),
            trim_end(all@.take(end as int), c) == trim_end(all@, c),
        decreases end,
    {
        assert(all@.take(end as int).drop_last() =~= all@.take(end - 1));
        end -= 1;
    }
    let trimmed = text.substring_char(0, end);
    assert(trimmed@ =~= all@.take(end as int));
    trimmed
}

/// `text` without the repetitions of `prefix` at its start.
pub(crate) fn trim_start_matches<'a>(text: &'a str, prefix: &str) -> (trimmed: &'a str)
    requires
        prefix@.len() > 0,
    ensures
        trimmed@ == trim_start(text@, prefix@),
{
    let all = characters(text);
    let sought = characters(prefix);
    let mut start: usize = 0;
    assert(all@.skip(0) =~= all@);
    while stands_at(&all, &sought, start)
        invariant
            sought@ == prefix@,
            prefix@.len() > 0,
            start <= all@.len(),
            trim_start(all@.skip(start as int), prefix@) == trim_start(all@, prefix@),
        decreases all@.len() - start,
    {
        proof {
            let rest = all@.skip(start as int);
            assert(rest.subrange(0, prefix@.len() as int) =~= all@.subrange(
                start as int,
                start + prefix@.len(),
            ));
            assert(rest.skip(prefix@.len() as int) =~= all@.skip(start + prefix@.len()));
            assert(start + prefix@.len() <= all.len());
        }
        start += sought.len();
    }
    proof {
        let rest = all@.skip(start as int);
        if prefix@.is_prefix_of(rest) {
            assert(rest.subrange(0, prefix@.len() as int) =~= all@.subrange(
                start as int,
                start + prefix@.len(),
            ));
        }
    }
    let trimmed = text.substring_char(start, all.len());
    assert(trimmed@ =~= all@.skip(start as int));
    trimmed
}

/// What is trimmed at its end is a start of the text, does not end in what was
/// trimmed, and has nothing left to trim.
pub proof fn lemma_trim_end(text: Seq<char>, c: char)
    ensures
        trim_end(text, c).is_prefix_of(text),
        trim_end(text, c).len() > 0 ==> trim_end(text, c).last() != c,
        trim_end(trim_end(text, c), c) == trim_end(text, c),
    decreases text.len(),
{
    if text.len() > 0 && text.last() == c {
        lemma_trim_end(text.drop_last(), c);
    }
}

/// Lexicographic order is total.
pub proof fn lemma_text_le_total(a: Seq<char>, b: Seq<char>)
    ensures
        text_le(a, b) || text_le(b, a),
    decreases a.len(),
{
    if a.len() > 0 && b.len() > 0 && a[0] == b[0] {
        lemma_text_le_total(a.skip(1), b.skip(1));
    }
}

/// Two texts that stand at or before each other are the same.
pub proof fn lemma_text_le_antisymmetric(a: Seq<char>, b: Seq<char>)
    requires
        text_le(a, b),
        text_le(b, a),
    ensures
        a == b,
    decreases a.len(),
{
    if a.len() > 0 && b.len() > 0 {
        lemma_text_le_antisymmetric(a.skip(1), b.skip(1));
        assert(a =~= seq![a[0]] + a.skip(1));
        assert(b =~= seq![b[0]] + b.skip(1));
    } else {
        assert(a =~= b);
    }
}

/// Lexicographic order is transitive.
pub proof fn lemma_text_le_transitive(a: Seq<char>, b: Seq<char>, c: Seq<char>)
    requires
        text_le(a, b),
        text_le(b, c),
    ensures
        text_le(a, c),
    decreases a.len(),
{
    if a.len() > 0 && b.len() > 0 && c.len() > 0 && a[0] == b[0] && b[0] == c[0] {
        lemma_text_le_transitive(a.skip(1), b.skip(1), c.skip(1));
    }
}

/// A text occurs in whatever is put around it.
pub proof fn law_occurs_within(before: Seq<char>, needle: Seq<char>, after: Seq<char>)
    ensures
        occurs_in(needle, before + needle + after),
{
    let hay = before + needle + after;
    let at = before.len() as int;
    assert(hay.subrange(at, at + needle.len()) =~= needle);
    assert(occurs_at(needle, hay, at));
}

/// Where a text occurs, the rest stands before and after it.
pub proof fn law_occurs_splits(needle: Seq<char>, hay: Seq<char>) -> (around: (
    Seq<char>,
    Seq<char>,
))
    requires
        occurs_in(needle, hay),
    ensures
        hay == around.0 + needle + around.1,
{
    let at = choose|at: int| occurs_at(needle, hay, at);
    let around = (hay.take(at), hay.skip(at + needle.len()));
    assert(hay =~= around.0 + needle + around.1) by {
        assert(needle =~= hay.subrange(at, at + needle.len()));
    }
    around
}

/// Trimming takes off all of the character at the end, and nothing else.
pub proof fn law_trim_end(kept: Seq<char>, tail: Seq<char>, c: char)
    requires
        kept.len() == 0 || kept[kept.len() - 1] != c,
        forall|i: int| 0 <= i < tail.len() ==> tail[i] == c,
    ensures
        trim_end(kept + tail, c) == kept,
    decreases tail.len(),
{
    let all = kept + tail;
    if tail.len() > 0 {
        assert(all.last() == tail[tail.len() - 1]);
        assert(all.drop_last() =~= kept + tail.drop_last());
        law_trim_end(kept, tail.drop_last(), c);
    } else {
        assert(all =~= kept);
    }
}

/// Trimming takes a prefix off the start as often as it stands there, and
/// nothing else.
pub proof fn law_trim_start(text: Seq<char>, prefix: Seq<char>)
    requires
        prefix.len() > 0,
    ensures
        trim_start(prefix + text, prefix) == trim_start(text, prefix),
        !prefix.is_prefix_of(text) ==> trim_start(text, prefix) == text,
{
    assert((prefix + text).subrange(0, prefix.len() as int) =~= prefix);
    assert((prefix + text).skip(prefix.len() as int) =~= text);
}

/// Text is ordered by the first character in which two texts differ, and a text
/// stands before those that it starts.
pub proof fn law_text_order(common: Seq<char>, a: Seq<char>, b: Seq<char>)
    ensures
        text_le(common, common + b),
        b.len() > 0 ==> !text_le(common + b, common),
        a.len() > 0 && b.len() > 0 && a[0] < b[0] ==> text_le(common + a, common + b) && !text_le(
            common + b,
            common + a,
        ),
    decreases common.len(),
{
    if common.len() > 0 {
        let rest = common.skip(1);
        law_text_order(rest, a, b);
        assert((common + a).skip(1) =~= rest + a);
        assert((common + b).skip(1) =~= rest + b);
    } else {
        assert(common + a =~= a);
        assert(common + b =~= b);
    }
}

} // verus!
