//! The JSON documents that the data lines of an event carry.

use vstd::prelude::*;

use crate::sse::framing;
use crate::sse::framing::{extract_data_payload, find_newline};
use crate::sse::json;
use crate::sse::json::{parse_document, Json};

verus! {

/// The payload that closes an OpenAI Chat stream: `[DONE]`.
pub open spec fn done_marker() -> Seq<u8> {
    seq![0x5bu8, 0x44u8, 0x4fu8, 0x4eu8, 0x45u8, 0x5du8]
}

/// The document that a line carries, or none: lines without data, lines with
/// empty data and lines whose data is no JSON carry none. With `skip_done`,
/// neither does the `[DONE]` marker.
pub open spec fn line_documents(line: Seq<u8>, skip_done: bool) -> Seq<Json> {
    match framing::data_payload(line) {
        Some(payload) => if payload.len() == 0 || (skip_done && payload == done_marker()) {
            Seq::empty()
        } else {
            match json::json_document(payload) {
                Some(document) => seq![document],
                None => Seq::empty(),
            }
        },
        None => Seq::empty(),
    }
}

/// The documents that a row of lines carries, in order.
pub open spec fn lines_documents(lines: Seq<Seq<u8>>, skip_done: bool) -> Seq<
    Json,
>
    decreases lines.len(),
{
    if lines.len() == 0 {
        Seq::empty()
    } else {
        lines_documents(lines.drop_last(), skip_done) + line_documents(lines.last(), skip_done)
    }
}

/// The documents that an event carries, in order.
pub open spec fn documents(event: Seq<u8>, skip_done: bool) -> Seq<Json> {
    lines_documents(framing::lines(event), skip_done)
}

/// A newline at the end of an event adds no document.
pub proof fn lemma_newline_adds_none(event: Seq<u8>, skip_done: bool)
    ensures
        documents(event.push(framing::NEWLINE), skip_done) == documents(event, skip_done),
{
    let lines = framing::lines(event);
    framing::lemma_lines_push_newline(event);
    assert(lines.push(Seq::empty()).drop_last() =~= lines);
    assert(line_documents(Seq::empty(), skip_done) =~= Seq::<Json>::empty());
    assert(documents(event, skip_done) + Seq::<Json>::empty() =~= documents(event, skip_done));
}

/// Whether a payload is the `[DONE]` marker.
fn is_done_marker(payload: &[u8]) -> (done: bool)
    ensures
        done == (payload@ == done_marker()),
{
    if payload.len() == 6 && payload[0] == 0x5bu8 && payload[1] == 0x44u8 && payload[2] == 0x4fu8
        && payload[3] == 0x4eu8 && payload[4] == 0x45u8 && payload[5] == 0x5du8 {
        assert(payload@ =~= done_marker());
        true
    } else {
        false
    }
}

/// Parse the document of one line, if the line carries one.
fn parse_line(line: &[u8], skip_done: bool) -> (document: Option<serde_json::Value>)
    ensures
        match document {
            Some(value) => line_documents(line@, skip_done) == seq![
                json::json_value(value),
            ],
            None => line_documents(line@, skip_done) == Seq::<Json>::empty(),
        },
{
    match extract_data_payload(line) {
        Some(payload) => {
            if payload.len() == 0 || (skip_done && is_done_marker(payload)) {
                None
            } else {
                parse_document(payload)
            }
        },
        None => None,
    }
}

/// Parse the documents that an event carries.
pub fn parse_documents(event: &[u8], skip_done: bool) -> (values: Vec<serde_json::Value>)
    ensures
        json::json_values(values@) == documents(event@, skip_done),
{
    let mut values: Vec<serde_json::Value> = Vec::new();
    let length: usize = event.len();
    let mut start: usize = 0;
    let ghost mut seen: Seq<Seq<u8>> = Seq::empty();
    assert(event@.skip(0) =~= event@);
    assert(seen + framing::lines(event@) =~= framing::lines(event@));
    loop
        invariant
            length == event@.len(),
            start <= length,
            framing::lines(event@) == seen + framing::lines(
                event@.skip(start as int),
            ),
            json::json_values(values@) == lines_documents(seen, skip_done),
        decreases length - start,
    {
        let newline = find_newline(event, start);
        let end: usize = match newline {
            Some(at) => at,
            None => length,
        };
        let line = vstd::slice::slice_subrange(event, start, end);
        let ghost rest = event@.skip(start as int);
        proof {
            assert(line@ =~= rest.take(end - start));
            match newline {
                Some(at) => {
                    framing::lemma_first_newline_unique(rest, at - start);
                    assert(rest.skip(at - start + 1) =~= event@.skip(at + 1));
                    assert(seen + (seq![line@] + framing::lines(event@.skip(at + 1)))
                        =~= seen.push(line@) + framing::lines(event@.skip(at + 1)));
                },
                None => {
                    assert(line@ =~= rest);
                    assert forall|i: int| !framing::is_first_newline(rest, i) by {
                        if 0 <= i < rest.len() {
                            assert(rest[i] == event@[start + i]);
                        }
                    }
                    assert(seen + seq![line@] =~= seen.push(line@));
                },
            }
            assert(seen.push(line@).drop_last() =~= seen);
        }
        let ghost before = values@;
        match parse_line(line, skip_done) {
            Some(value) => {
                values.push(value);
            },
            None => {},
        }
        proof {
            assert(json::json_values(values@) =~= json::json_values(before)
                + line_documents(line@, skip_done));
            seen = seen.push(line@);
        }
        match newline {
            Some(at) => {
                start = at + 1;
            },
            None => {
                return values;
            },
        }
    }
}

} // verus!
