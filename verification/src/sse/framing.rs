//! Framing of a server-sent event stream: events end in a blank line, events
//! hold lines, and `data:` lines carry the payload.

use vstd::prelude::*;

verus! {

/// The byte `\n`.
pub const NEWLINE: u8 = 0x0a;

/// The byte `:`.
pub const COLON: u8 = 0x3a;

/// `\n\n` stands in `s` at position `i`.
pub open spec fn boundary_at(s: Seq<u8>, i: int) -> bool {
    0 <= i && i + 1 < s.len() && s[i] == NEWLINE && s[i + 1] == NEWLINE
}

/// The first `\n\n` of `s` stands at position `i`.
pub open spec fn is_first_boundary(s: Seq<u8>, i: int) -> bool {
    boundary_at(s, i) && forall|j: int| j < i ==> !boundary_at(s, j)
}

/// Some complete event stands in `s`.
pub open spec fn has_boundary(s: Seq<u8>) -> bool {
    exists|i: int| boundary_at(s, i)
}

/// The position of the first `\n\n` of `s`, where there is one.
pub open spec fn first_boundary(s: Seq<u8>) -> int {
    choose|i: int| is_first_boundary(s, i)
}

/// The complete events of `s` in order, each with its closing `\n\n`.
pub open spec fn events(s: Seq<u8>) -> Seq<Seq<u8>>
    decreases s.len(),
{
    if is_first_boundary(s, first_boundary(s)) {
        seq![s.take(first_boundary(s) + 2)] + events(s.skip(first_boundary(s) + 2))
    } else {
        Seq::empty()
    }
}

/// What follows the last complete event of `s`.
pub open spec fn residue(s: Seq<u8>) -> Seq<u8>
    decreases s.len(),
{
    if is_first_boundary(s, first_boundary(s)) {
        residue(s.skip(first_boundary(s) + 2))
    } else {
        s
    }
}

/// The first `\n` of `s` stands at position `i`.
pub open spec fn is_first_newline(s: Seq<u8>, i: int) -> bool {
    0 <= i < s.len() && s[i] == NEWLINE && forall|j: int| 0 <= j < i ==> s[j] != NEWLINE
}

/// The position of the first `\n` of `s`, where there is one.
pub open spec fn first_newline(s: Seq<u8>) -> int {
    choose|i: int| is_first_newline(s, i)
}

/// The lines of `s`: what stands between its newlines, before the first and
/// after the last.
pub open spec fn lines(s: Seq<u8>) -> Seq<Seq<u8>>
    decreases s.len(),
{
    if is_first_newline(s, first_newline(s)) {
        seq![s.take(first_newline(s))] + lines(s.skip(first_newline(s) + 1))
    } else {
        seq![s]
    }
}

/// The five bytes that open a data line: `data:`.
pub open spec fn data_prefix() -> Seq<u8> {
    seq![0x64u8, 0x61u8, 0x74u8, 0x61u8, 0x3au8]
}

/// A byte that may stand between `data:` and the payload: ASCII whitespace
/// (tab, newline, form feed, carriage return, space) or a colon.
pub open spec fn is_padding(b: u8) -> bool {
    b == 0x09 || b == NEWLINE || b == 0x0c || b == 0x0d || b == 0x20 || b == COLON
}

/// `s` without the whitespace and colons at its start.
pub open spec fn skip_padding(s: Seq<u8>) -> Seq<u8>
    decreases s.len(),
{
    if s.len() > 0 && is_padding(s[0]) {
        skip_padding(s.skip(1))
    } else {
        s
    }
}

/// What a data line carries: the bytes behind `data:` and the whitespace and
/// colons that follow it. Any other line carries nothing.
pub open spec fn data_payload(line: Seq<u8>) -> Option<Seq<u8>> {
    if data_prefix().is_prefix_of(line) {
        Some(skip_padding(line.skip(5)))
    } else {
        None
    }
}

/// Where some `\n\n` stands, there is a first one.
pub proof fn lemma_first_boundary(s: Seq<u8>, i: int)
    requires
        boundary_at(s, i),
    ensures
        is_first_boundary(s, first_boundary(s)),
        first_boundary(s) <= i,
    decreases i,
{
    if exists|j: int| j < i && boundary_at(s, j) {
        let j = choose|j: int| j < i && boundary_at(s, j);
        lemma_first_boundary(s, j);
    } else {
        assert(is_first_boundary(s, i));
    }
}

/// There is at most one first `\n\n`.
pub proof fn lemma_first_boundary_unique(s: Seq<u8>, i: int)
    requires
        is_first_boundary(s, i),
    ensures
        first_boundary(s) == i,
{
    lemma_first_boundary(s, i);
}

/// Taking events off a stream loses no byte and adds none, and leaves no
/// complete event behind.
pub proof fn lemma_events_partition(s: Seq<u8>)
    ensures
        events(s).flatten() + residue(s) == s,
        !has_boundary(residue(s)),
    decreases s.len(),
{
    let b = first_boundary(s);
    if is_first_boundary(s, b) {
        let rest = s.skip(b + 2);
        lemma_events_partition(rest);
        assert(events(s).first() == s.take(b + 2));
        assert(events(s).drop_first() =~= events(rest));
        assert(s.take(b + 2) + rest =~= s);
        assert(events(s).flatten() == s.take(b + 2) + events(rest).flatten());
        assert((s.take(b + 2) + events(rest).flatten()) + residue(rest) =~= s.take(b + 2) + (events(
            rest,
        ).flatten() + residue(rest)));
    } else {
        assert(events(s).flatten() + residue(s) =~= s);
        assert forall|i: int| !boundary_at(s, i) by {
            if boundary_at(s, i) {
                lemma_first_boundary(s, i);
            }
        }
    }
}

/// Bytes without a complete event are all residue.
pub proof fn lemma_no_boundary(s: Seq<u8>)
    requires
        !has_boundary(s),
    ensures
        events(s) == Seq::<Seq<u8>>::empty(),
        residue(s) == s,
{
    assert(!boundary_at(s, first_boundary(s)));
}

/// The events of a stream that grows are the events so far, then those of the
/// residue and what was added.
pub proof fn lemma_events_append(s: Seq<u8>, t: Seq<u8>)
    ensures
        events(s + t) == events(s) + events(residue(s) + t),
        residue(s + t) == residue(residue(s) + t),
    decreases s.len(),
{
    let b = first_boundary(s);
    if is_first_boundary(s, b) {
        let rest = s.skip(b + 2);
        assert forall|j: int| j < b implies !boundary_at(s + t, j) by {
            assert(!boundary_at(s, j));
        }
        assert(is_first_boundary(s + t, b));
        lemma_first_boundary_unique(s + t, b);
        assert((s + t).take(b + 2) =~= s.take(b + 2));
        assert((s + t).skip(b + 2) =~= rest + t);
        lemma_events_append(rest, t);
        assert(events(s + t) =~= events(s) + events(residue(s) + t));
    } else {
        assert(events(s) + events(s + t) =~= events(s + t));
    }
}

/// There is at most one first newline.
pub proof fn lemma_first_newline_unique(s: Seq<u8>, i: int)
    requires
        is_first_newline(s, i),
    ensures
        is_first_newline(s, first_newline(s)),
        first_newline(s) == i,
{
}

/// `s` ends in a blank line.
pub open spec fn ends_blank(s: Seq<u8>) -> bool {
    s.len() >= 2 && s[s.len() - 2] == NEWLINE && s[s.len() - 1] == NEWLINE
}

/// Every event ends in a blank line.
pub proof fn lemma_events_end_blank(s: Seq<u8>, i: int)
    requires
        0 <= i < events(s).len(),
    ensures
        ends_blank(events(s)[i]),
    decreases s.len(),
{
    let b = first_boundary(s);
    if i > 0 {
        lemma_events_end_blank(s.skip(b + 2), i - 1);
    }
}

/// A newline at the end of `s` adds an empty line.
pub proof fn lemma_lines_push_newline(s: Seq<u8>)
    ensures
        lines(s.push(NEWLINE)) == lines(s).push(Seq::empty()),
    decreases s.len(),
{
    let more = s.push(NEWLINE);
    let b = first_newline(s);
    if is_first_newline(s, b) {
        assert(is_first_newline(more, b));
        lemma_first_newline_unique(more, b);
        assert(more.take(b) =~= s.take(b));
        assert(more.skip(b + 1) =~= s.skip(b + 1).push(NEWLINE));
        lemma_lines_push_newline(s.skip(b + 1));
        assert(lines(more) =~= lines(s).push(Seq::empty()));
    } else {
        let end = s.len() as int;
        assert forall|j: int| 0 <= j < end implies s[j] != NEWLINE by {
            lemma_no_newline(s, j);
        }
        assert(is_first_newline(more, end));
        lemma_first_newline_unique(more, end);
        assert(more.take(end) =~= s);
        assert(more.skip(end + 1) =~= Seq::<u8>::empty());
        assert(lines(Seq::<u8>::empty()) == seq![Seq::<u8>::empty()]);
        assert(lines(more) =~= lines(s).push(Seq::empty()));
    }
}

/// Where there is no first newline, there is none.
proof fn lemma_no_newline(s: Seq<u8>, i: int)
    requires
        !is_first_newline(s, first_newline(s)),
        0 <= i < s.len(),
    ensures
        s[i] != NEWLINE,
    decreases i,
{
    assert forall|j: int| 0 <= j < i implies s[j] != NEWLINE by {
        lemma_no_newline(s, j);
    }
    assert(!is_first_newline(s, i));
}

/// Find the index of the byte that ends the next complete event (the position
/// of the first byte of `\n\n`). Returns `None` if no full event is in the
/// buffer.
pub fn find_event_boundary(buf: &[u8]) -> (boundary: Option<usize>)
    ensures
        match boundary {
            Some(at) => is_first_boundary(buf@, at as int),
            None => !has_boundary(buf@),
        },
        match boundary {
            Some(at) => {
                &&& at + 1 < buf@.len()
                &&& buf@[at as int] == 0x0a
                &&& buf@[at + 1] == 0x0a
                &&& forall|j: int|
                    0 <= j < at ==> !(#[trigger] buf@[j] == 0x0a && buf@[j + 1] == 0x0a)
            },
            None => forall|j: int|
                0 <= j < buf@.len() - 1 ==> !(#[trigger] buf@[j] == 0x0a && buf@[j + 1] == 0x0a),
        },
{
    let mut i: usize = 0;
    while i < buf.len() && i + 1 < buf.len()
        invariant
            i <= buf@.len(),
            forall|j: int| j < i ==> !boundary_at(buf@, j),
        decreases buf@.len() - i,
    {
        if buf[i] == NEWLINE && buf[i + 1] == NEWLINE {
            proof {
                assert forall|j: int| 0 <= j < i implies !(#[trigger] buf@[j] == 0x0a && buf@[j + 1]
                    == 0x0a) by {
                    assert(!boundary_at(buf@, j));
                }
            }
            return Some(i);
        }
        i += 1;
    }
    proof {
        assert forall|j: int| 0 <= j < buf@.len() - 1 implies !(#[trigger] buf@[j] == 0x0a
            && buf@[j + 1] == 0x0a) by {
            assert(!boundary_at(buf@, j));
        }
    }
    None
}

/// Find the first newline at or after `from`.
pub(crate) fn find_newline(bytes: &[u8], from: usize) -> (newline: Option<usize>)
    requires
        from <= bytes@.len(),
    ensures
        match newline {
            Some(at) => from <= at < bytes@.len() && is_first_newline(
                bytes@.skip(from as int),
                at - from,
            ),
            None => forall|j: int| from <= j < bytes@.len() ==> bytes@[j] != NEWLINE,
        },
{
    let mut i: usize = from;
    while i < bytes.len()
        invariant
            from <= i <= bytes@.len(),
            forall|j: int| from <= j < i ==> bytes@[j] != NEWLINE,
        decreases bytes@.len() - i,
    {
        if bytes[i] == NEWLINE {
            return Some(i);
        }
        i += 1;
    }
    None
}

/// Whether a byte may stand between `data:` and the payload.
fn padding(b: u8) -> (pads: bool)
    ensures
        pads == is_padding(b),
{
    b == 0x09 || b == NEWLINE || b == 0x0c || b == 0x0d || b == 0x20 || b == COLON
}

/// Strip the leading `data:` prefix and any whitespace or colon behind it.
/// Returns `None` if the line is no data line (`event:`, a `:` comment, an empty
/// line).
pub fn extract_data_payload(line: &[u8]) -> (payload: Option<&[u8]>)
    ensures
        match payload {
            Some(found) => data_payload(line@) == Some(found@),
            None => data_payload(line@) is None,
        },
{
    if line.len() < 5 || line[0] != 0x64u8 || line[1] != 0x61u8 || line[2] != 0x74u8 || line[3]
        != 0x61u8 || line[4] != 0x3au8 {
        assert(!data_prefix().is_prefix_of(line@)) by {
            if data_prefix().is_prefix_of(line@) {
                assert forall|i: int| 0 <= i < 5 implies line@[i] == data_prefix()[i] by {
                    assert(line@[i] == line@.subrange(0, 5)[i]);
                }
            }
        }
        return None;
    }
    assert(data_prefix() =~= line@.subrange(0, 5));
    let mut start: usize = 5;
    while start < line.len() && padding(line[start])
        invariant
            5 <= start <= line@.len(),
            skip_padding(line@.skip(5)) == skip_padding(line@.skip(start as int)),
        decreases line@.len() - start,
    {
        assert(line@.skip(start as int).skip(1) =~= line@.skip(start + 1));
        start += 1;
    }
    let payload = vstd::slice::slice_subrange(line, start, line.len());
    assert(payload@ =~= line@.skip(start as int));
    Some(payload)
}

} // verus!
