//! What the framing of a stream comes to, byte by byte.

use vstd::prelude::*;

use crate::sse::documents;
use crate::sse::framing;
use crate::sse::json;
use crate::sse::json::Json;

verus! {

/// The first event of a stream goes up to and with its first blank line, and the
/// other events are those of what follows.
pub proof fn law_event_first(event: Seq<u8>, rest: Seq<u8>)
    requires
        event.len() >= 2,
        event[event.len() - 2] == 0x0a,
        event[event.len() - 1] == 0x0a,
        forall|i: int|
            0 <= i < event.len() - 2 ==> !(#[trigger] event[i] == 0x0a && event[i + 1] == 0x0a),
    ensures
        framing::events(event + rest) == seq![event] + framing::events(rest),
        framing::residue(event + rest) == framing::residue(rest),
{
    let all = event + rest;
    let at = event.len() - 2;
    assert(framing::boundary_at(all, at));
    assert forall|j: int| j < at implies !framing::boundary_at(all, j) by {
        if 0 <= j {
            assert(all[j] == event[j] && all[j + 1] == event[j + 1]);
        }
    }
    framing::lemma_first_boundary_unique(all, at);
    assert(all.take(at + 2) =~= event);
    assert(all.skip(at + 2) =~= rest);
}

/// Bytes without a blank line hold no event: they all wait.
pub proof fn law_no_event(bytes: Seq<u8>)
    requires
        forall|i: int|
            0 <= i < bytes.len() - 1 ==> !(#[trigger] bytes[i] == 0x0a && bytes[i + 1] == 0x0a),
    ensures
        framing::events(bytes).len() == 0,
        framing::residue(bytes) == bytes,
{
    assert(!framing::has_boundary(bytes)) by {
        assert forall|i: int| !framing::boundary_at(bytes, i) by {
            if framing::boundary_at(bytes, i) {
                assert(bytes[i] == 0x0a && bytes[i + 1] == 0x0a);
            }
        }
    }
    framing::lemma_no_boundary(bytes);
}

/// The first line goes up to the first newline, and the other lines are those of
/// what follows.
pub proof fn law_line_first(line: Seq<u8>, rest: Seq<u8>)
    requires
        forall|i: int| 0 <= i < line.len() ==> line[i] != 0x0a,
    ensures
        framing::lines(line) == seq![line],
        framing::lines(line.push(0x0a) + rest) == seq![line] + framing::lines(rest),
{
    let all = line.push(0x0a) + rest;
    let at = line.len() as int;
    assert forall|j: int| 0 <= j < at implies all[j] != framing::NEWLINE by {
        assert(all[j] == line[j]);
    }
    assert(framing::is_first_newline(all, at));
    framing::lemma_first_newline_unique(all, at);
    assert(all.take(at) =~= line);
    assert(all.skip(at + 1) =~= rest);
}

/// A line `data:`, with whitespace and colons behind it, carries what follows
/// those.
pub proof fn law_data_payload(padding: Seq<u8>, payload: Seq<u8>)
    requires
        forall|i: int|
            0 <= i < padding.len() ==> {
                let b = #[trigger] padding[i];
                b == 0x09 || b == 0x0a || b == 0x0c || b == 0x0d || b == 0x20 || b == 0x3a
            },
        payload.len() > 0 ==> {
            let b = payload[0];
            b != 0x09 && b != 0x0a && b != 0x0c && b != 0x0d && b != 0x20 && b != 0x3a
        },
    ensures
        framing::data_payload(seq![0x64u8, 0x61u8, 0x74u8, 0x61u8, 0x3au8] + padding + payload)
            == Some(payload),
{
    let prefix = seq![0x64u8, 0x61u8, 0x74u8, 0x61u8, 0x3au8];
    let line = prefix + padding + payload;
    assert(line.subrange(0, 5) =~= framing::data_prefix());
    assert(line.skip(5) =~= padding + payload);
    lemma_skip_padding(padding, payload);
}

/// Skipping goes through all of the padding and stops at the payload.
proof fn lemma_skip_padding(padding: Seq<u8>, payload: Seq<u8>)
    requires
        forall|i: int| 0 <= i < padding.len() ==> framing::is_padding(#[trigger] padding[i]),
        payload.len() > 0 ==> !framing::is_padding(payload[0]),
    ensures
        framing::skip_padding(padding + payload) == payload,
    decreases padding.len(),
{
    if padding.len() > 0 {
        let rest = padding.skip(1);
        assert((padding + payload).skip(1) =~= rest + payload);
        assert((padding + payload)[0] == padding[0]);
        assert forall|i: int| 0 <= i < rest.len() implies framing::is_padding(
            #[trigger] rest[i],
        ) by {
            assert(rest[i] == padding[i + 1]);
        }
        lemma_skip_padding(rest, payload);
    } else {
        assert(padding + payload =~= payload);
    }
}

/// A line that does not start with `data:` carries nothing.
pub proof fn law_no_data(line: Seq<u8>)
    requires
        line.len() < 5 || line[0] != 0x64 || line[1] != 0x61 || line[2] != 0x74 || line[3] != 0x61
            || line[4] != 0x3a,
    ensures
        framing::data_payload(line) is None,
        documents::line_documents(line, true).len() == 0,
        documents::line_documents(line, false).len() == 0,
{
    if framing::data_prefix().is_prefix_of(line) {
        assert forall|i: int| 0 <= i < 5 implies line[i] == framing::data_prefix()[i] by {
            assert(line[i] == line.subrange(0, 5)[i]);
        }
    }
}

/// A data line carries the document that its payload spells, and no other. An
/// empty payload carries none, nor does `[DONE]` where that is skipped.
pub proof fn law_data_line(padding: Seq<u8>, payload: Seq<u8>, skip_done: bool)
    requires
        forall|i: int|
            0 <= i < padding.len() ==> {
                let b = #[trigger] padding[i];
                b == 0x09 || b == 0x0a || b == 0x0c || b == 0x0d || b == 0x20 || b == 0x3a
            },
        payload.len() > 0 ==> {
            let b = payload[0];
            b != 0x09 && b != 0x0a && b != 0x0c && b != 0x0d && b != 0x20 && b != 0x3a
        },
    ensures
        ({
            let line = seq![0x64u8, 0x61u8, 0x74u8, 0x61u8, 0x3au8] + padding + payload;
            let found = documents::line_documents(line, skip_done);
            if payload.len() == 0 || (skip_done && payload == seq![
                0x5bu8,
                0x44u8,
                0x4fu8,
                0x4eu8,
                0x45u8,
                0x5du8,
            ]) {
                found.len() == 0
            } else {
                match json::json_document(payload) {
                    Some(document) => found == seq![document],
                    None => found.len() == 0,
                }
            }
        }),
{
    law_data_payload(padding, payload);
}

/// The documents of an event are those of its first line, then those of what
/// follows.
pub proof fn law_documents_line_by_line(line: Seq<u8>, rest: Seq<u8>, skip_done: bool)
    requires
        forall|i: int| 0 <= i < line.len() ==> line[i] != 0x0a,
    ensures
        documents::documents(line, skip_done) == documents::line_documents(line, skip_done),
        documents::documents(line.push(0x0a) + rest, skip_done) == documents::line_documents(
            line,
            skip_done,
        ) + documents::documents(rest, skip_done),
{
    law_line_first(line, rest);
    let first = seq![line];
    assert(documents::lines_documents(first, skip_done) =~= documents::line_documents(
        line,
        skip_done,
    )) by {
        assert(first.drop_last() =~= Seq::<Seq<u8>>::empty());
        assert(documents::lines_documents(Seq::<Seq<u8>>::empty(), skip_done) =~= Seq::<
            Json,
        >::empty());
    }
    lemma_lines_documents_join(first, framing::lines(rest), skip_done);
}

/// The documents of two rows of lines are those of the first, then those of the
/// second.
proof fn lemma_lines_documents_join(a: Seq<Seq<u8>>, b: Seq<Seq<u8>>, skip_done: bool)
    ensures
        documents::lines_documents(a + b, skip_done) == documents::lines_documents(a, skip_done)
            + documents::lines_documents(b, skip_done),
    decreases b.len(),
{
    if b.len() == 0 {
        assert(a + b =~= a);
        assert(documents::lines_documents(a, skip_done) + Seq::<Json>::empty()
            =~= documents::lines_documents(a, skip_done));
    } else {
        let before = b.drop_last();
        lemma_lines_documents_join(a, before, skip_done);
        assert((a + b).drop_last() =~= a + before);
        assert(documents::lines_documents(a + b, skip_done) =~= documents::lines_documents(
            a,
            skip_done,
        ) + documents::lines_documents(b, skip_done));
    }
}

} // verus!
