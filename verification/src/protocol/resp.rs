//! The RESP2 parser and encoder.
//!
//! The grammar is stated once, as `parse_frame` and `encode` on byte
//! sequences; the executable parser and encoder are proved to compute them.

use vstd::prelude::*;
use vstd::slice::slice_subrange;
use vstd::string::StringExecFns;
use vstd::utf8::decode_utf8;
use vstd::utf8::encode_utf8;
use vstd::utf8::valid_utf8;
use bytes::Bytes;
use bytes::BytesMut;
use crate::octets::append_bytes;
use crate::octets::copy_bytes;
use crate::protocol::buffer::buffer_advance;
use crate::protocol::buffer::buffer_contents;
use crate::protocol::buffer::buffer_extend;
use crate::protocol::buffer::buffer_slice;
use crate::protocol::buffer::bytes_contents;
use crate::protocol::buffer::bytes_from_vec;
use crate::protocol::decimal::decimal;
use crate::protocol::decimal::format_i64;
use crate::protocol::decimal::format_usize;
use crate::protocol::decimal::parse_decimal;
use crate::protocol::decimal::parse_i64;
use crate::protocol::text::decimal_text;
use crate::protocol::text::is_utf8;
use crate::protocol::text::push_char;
use crate::protocol::text::push_i64;
use crate::protocol::text::str_from_utf8;
use crate::protocol::types::frames;
use crate::protocol::types::lemma_array_view;
use crate::protocol::types::Frame;
use crate::protocol::types::RespError;
use crate::protocol::types::RespErrorView;
use crate::protocol::types::RespValue;

verus! {

/// The line terminator.
pub open spec fn crlf() -> Seq<u8> {
    seq![13u8, 10u8]
}

/// Whether a line terminator stands at position `i` of `b`.
pub open spec fn crlf_at(b: Seq<u8>, i: int) -> bool {
    0 <= i && i + 1 < b.len() && b[i] == 13 && b[i + 1] == 10
}

/// The position of the first line terminator of `b` at or after `from`.
pub open spec fn line_end_from(b: Seq<u8>, from: int) -> Option<int>
    decreases b.len() - from,
{
    if from < 0 || from + 1 >= b.len() {
        None
    } else if crlf_at(b, from) {
        Some(from)
    } else {
        line_end_from(b, from + 1)
    }
}

/// The position of the first line terminator of `b`.
pub open spec fn line_end(b: Seq<u8>) -> Option<int> {
    line_end_from(b, 0)
}

/// What reading one frame from the head of a buffer gives.
pub ghost enum Parsed {
    /// A frame, and the number of bytes it took.
    Complete { frame: Frame, used: int },
    /// The buffer holds the beginning of a frame only.
    Incomplete,
    /// The bytes break the protocol; `used` bytes are dropped from the buffer.
    Malformed { error: RespErrorView, used: int },
}

/// What reading a run of frames gives.
pub ghost enum ParsedItems {
    Complete { items: Seq<Frame>, used: int },
    Incomplete,
    Malformed { error: RespErrorView },
}

/// The number in the header line of a bulk string or an array.
pub ghost enum Header {
    Number(i64),
    Bad(RespErrorView),
}

/// Reads the header number from the text of a header line.
pub open spec fn header_number(text: Seq<u8>) -> Header {
    if !valid_utf8(text) {
        Header::Bad(RespErrorView::InvalidUtf8)
    } else {
        match parse_decimal(text) {
            Some(n) => Header::Number(n),
            None => Header::Bad(RespErrorView::IntegerOverflow),
        }
    }
}

/// The error for a type prefix that the protocol does not know.
pub open spec fn unknown_prefix(prefix: u8) -> RespErrorView {
    RespErrorView::InvalidProtocol("Unknown type prefix: "@.push(prefix as char))
}

/// The error for a bulk string with a length below -1.
pub open spec fn bad_bulk_length(len: i64) -> RespErrorView {
    RespErrorView::InvalidProtocol("Invalid bulk string length: "@ + decimal_text(len as int))
}

/// The error for an array with a count below -1.
pub open spec fn bad_array_count(count: i64) -> RespErrorView {
    RespErrorView::InvalidProtocol("Invalid array count: "@ + decimal_text(count as int))
}

/// The error for a bulk string whose payload no line terminator follows.
pub open spec fn missing_terminator() -> RespErrorView {
    RespErrorView::InvalidProtocol("Missing CRLF after bulk string data"@)
}

/// Reads a line of text: a simple string or an error.
pub open spec fn parse_text_line(b: Seq<u8>, is_error: bool) -> Parsed {
    match line_end(b) {
        None => Parsed::Incomplete,
        Some(end) => {
            let text = b.subrange(1, end);
            if valid_utf8(text) {
                Parsed::Complete {
                    frame: if is_error {
                        Frame::Error(decode_utf8(text))
                    } else {
                        Frame::SimpleString(decode_utf8(text))
                    },
                    used: end + 2,
                }
            } else {
                Parsed::Malformed { error: RespErrorView::InvalidUtf8, used: end + 2 }
            }
        },
    }
}

/// Reads an integer line.
pub open spec fn parse_integer_line(b: Seq<u8>) -> Parsed {
    match line_end(b) {
        None => Parsed::Incomplete,
        Some(end) => match header_number(b.subrange(1, end)) {
            Header::Number(n) => Parsed::Complete { frame: Frame::Integer(n), used: end + 2 },
            Header::Bad(error) => Parsed::Malformed { error, used: end + 2 },
        },
    }
}

/// Reads a bulk string.
pub open spec fn parse_bulk(b: Seq<u8>) -> Parsed {
    match line_end(b) {
        None => Parsed::Incomplete,
        Some(end) => match header_number(b.subrange(1, end)) {
            Header::Bad(error) => Parsed::Malformed { error, used: 0 },
            Header::Number(len) => {
                if len == -1 {
                    Parsed::Complete { frame: Frame::Null, used: end + 2 }
                } else if len < 0 {
                    Parsed::Malformed { error: bad_bulk_length(len), used: 0 }
                } else if b.len() < end + 2 + len + 2 {
                    Parsed::Incomplete
                } else if !crlf_at(b, end + 2 + len) {
                    Parsed::Malformed { error: missing_terminator(), used: end + 2 + len }
                } else {
                    Parsed::Complete {
                        frame: Frame::BulkString(b.subrange(end + 2, end + 2 + len)),
                        used: end + 2 + len + 2,
                    }
                }
            },
        },
    }
}

/// Reads one frame from the head of `b`.
///
/// An array is complete only when all its items are: a buffer that ends
/// inside an array is incomplete as a whole.
pub open spec fn parse_frame(b: Seq<u8>) -> Parsed
    decreases b.len(), 0nat,
{
    if b.len() == 0 {
        Parsed::Incomplete
    } else if b[0] == 43 {
        parse_text_line(b, false)
    } else if b[0] == 45 {
        parse_text_line(b, true)
    } else if b[0] == 58 {
        parse_integer_line(b)
    } else if b[0] == 36 {
        parse_bulk(b)
    } else if b[0] == 42 {
        match line_end(b) {
            None => Parsed::Incomplete,
            Some(end) => match header_number(b.subrange(1, end)) {
                Header::Bad(error) => Parsed::Malformed { error, used: 0 },
                Header::Number(count) => {
                    if count == -1 {
                        Parsed::Complete { frame: Frame::Null, used: end + 2 }
                    } else if count < 0 {
                        Parsed::Malformed { error: bad_array_count(count), used: 0 }
                    } else if end < 0 || end + 2 > b.len() {
                        Parsed::Incomplete
                    } else {
                        wrap_items(end, parse_items(b.skip(end + 2), count as nat))
                    }
                },
            },
        }
    } else {
        Parsed::Malformed { error: unknown_prefix(b[0]), used: 0 }
    }
}

/// The array that the items `r` make, after a header line that ends at `end`.
pub open spec fn wrap_items(end: int, r: ParsedItems) -> Parsed {
    match r {
        ParsedItems::Complete { items, used } => Parsed::Complete {
            frame: Frame::Array(items),
            used: end + 2 + used,
        },
        ParsedItems::Incomplete => Parsed::Incomplete,
        ParsedItems::Malformed { error } => Parsed::Malformed { error, used: 0 },
    }
}

/// Reads `count` frames, one after the other, from the head of `b`.
pub open spec fn parse_items(b: Seq<u8>, count: nat) -> ParsedItems
    decreases b.len(), count + 1,
{
    if count == 0 {
        ParsedItems::Complete { items: Seq::empty(), used: 0 }
    } else {
        match parse_frame(b) {
            Parsed::Incomplete => ParsedItems::Incomplete,
            Parsed::Malformed { error, .. } => ParsedItems::Malformed { error },
            Parsed::Complete { frame, used } => {
                if used <= 0 || used > b.len() {
                    ParsedItems::Incomplete
                } else {
                    prepend(frame, used, parse_items(b.skip(used), (count - 1) as nat))
                }
            },
        }
    }
}

/// `rest` with one more frame, of `used` bytes, in front.
pub open spec fn prepend(frame: Frame, used: int, rest: ParsedItems) -> ParsedItems {
    match rest {
        ParsedItems::Complete { items, used: more } => ParsedItems::Complete {
            items: seq![frame] + items,
            used: used + more,
        },
        other => other,
    }
}

/// `rest` with the frames `done`, of `used` bytes together, in front.
pub open spec fn resume(done: Seq<Frame>, used: int, rest: ParsedItems) -> ParsedItems {
    match rest {
        ParsedItems::Complete { items, used: more } => ParsedItems::Complete {
            items: done + items,
            used: used + more,
        },
        other => other,
    }
}

/// The bytes of `f` on the wire.
pub open spec fn encode(f: Frame) -> Seq<u8>
    decreases f, 0nat,
{
    match f {
        Frame::SimpleString(s) => seq![43u8] + encode_utf8(s) + crlf(),
        Frame::Error(s) => seq![45u8] + encode_utf8(s) + crlf(),
        Frame::Integer(i) => seq![58u8] + decimal(i as int) + crlf(),
        Frame::BulkString(b) => seq![36u8] + decimal(b.len() as int) + crlf() + b + crlf(),
        Frame::Null => seq![36u8, 45u8, 49u8, 13u8, 10u8],
        Frame::Array(items) => seq![42u8] + decimal(items.len() as int) + crlf() + encode_from(
            items,
            0,
        ),
    }
}

/// The bytes of the frames of `items` from position `i` on, end to end.
pub open spec fn encode_from(items: Seq<Frame>, i: nat) -> Seq<u8>
    decreases items, items.len() - i,
{
    if i >= items.len() {
        Seq::empty()
    } else {
        encode(items[i as int]) + encode_from(items, i + 1)
    }
}

/// What one step of the executable parser gives.
#[derive(Debug, PartialEq)]
pub enum ParseStep {
    /// A value, and the number of bytes it took.
    Complete(RespValue, usize),
    /// More bytes are needed.
    Incomplete,
    /// The bytes break the protocol; that many bytes are to be dropped.
    Malformed(RespError, usize),
}

impl View for ParseStep {
    type V = Parsed;

    open spec fn view(&self) -> Parsed {
        match self {
            ParseStep::Complete(v, used) => Parsed::Complete { frame: v@, used: *used as int },
            ParseStep::Incomplete => Parsed::Incomplete,
            ParseStep::Malformed(e, used) => Parsed::Malformed { error: e@, used: *used as int },
        }
    }
}

/// The first line terminator at or after `from` is the first position at or
/// after `from` where one stands.
pub proof fn lemma_line_end_from(b: Seq<u8>, from: int)
    requires
        0 <= from,
    ensures
        match line_end_from(b, from) {
            Some(end) => from <= end && crlf_at(b, end) && forall|j: int|
                from <= j < end ==> !crlf_at(b, j),
            None => forall|j: int| from <= j ==> !crlf_at(b, j),
        },
    decreases b.len() - from,
{
    if from + 1 >= b.len() {
    } else if crlf_at(b, from) {
    } else {
        lemma_line_end_from(b, from + 1);
    }
}

/// A position where a line terminator stands, with none before it, is the
/// first line terminator.
pub proof fn lemma_line_end_is(b: Seq<u8>, end: int)
    requires
        crlf_at(b, end),
        forall|j: int| 0 <= j < end ==> !crlf_at(b, j),
    ensures
        line_end(b) == Some(end),
{
    lemma_line_end_from(b, 0);
}

fn find_line_end(data: &[u8], start: usize) -> (r: Option<usize>)
    requires
        start <= data@.len(),
    ensures
        match r {
            Some(end) => line_end(data@.skip(start as int)) == Some(end as int) && start + end + 2
                <= data@.len(),
            None => line_end(data@.skip(start as int)) is None,
        },
{
    let ghost b = data@.skip(start as int);
    let n = data.len() - start;
    let mut i: usize = 0;
    while n - i >= 2
        invariant
            start <= data@.len(),
            data@.len() <= usize::MAX,
            n == data@.len() - start,
            b == data@.skip(start as int),
            i <= n,
            forall|j: int| 0 <= j < i ==> !crlf_at(b, j),
        decreases n - i,
    {
        if data[start + i] == 13 && data[start + i + 1] == 10 {
            proof {
                assert(crlf_at(b, i as int));
                lemma_line_end_is(b, i as int);
            }
            return Some(i);
        }
        i += 1;
    }
    proof {
        lemma_line_end_from(b, 0);
    }
    None
}

/// The outcome of reading a header number.
enum HeaderStep {
    Number(i64),
    Bad(RespError),
}

fn read_header(text: &[u8]) -> (r: HeaderStep)
    ensures
        match r {
            HeaderStep::Number(n) => header_number(text@) == Header::Number(n),
            HeaderStep::Bad(e) => header_number(text@) == Header::Bad(e@),
        },
{
    if !is_utf8(text) {
        HeaderStep::Bad(RespError::InvalidUtf8)
    } else {
        match parse_i64(text) {
            Some(n) => HeaderStep::Number(n),
            None => HeaderStep::Bad(RespError::IntegerOverflow),
        }
    }
}

fn read_text_line(data: &[u8], start: usize, is_error: bool) -> (r: ParseStep)
    requires
        start < data@.len(),
        data@[start as int] != 13,
    ensures
        r@ == parse_text_line(data@.skip(start as int), is_error),
        r matches ParseStep::Complete(_, used) ==> 0 < used && start + used <= data@.len(),
        r matches ParseStep::Malformed(_, used) ==> start + used <= data@.len(),
{
    let ghost b = data@.skip(start as int);
    let _ = data.len();
    match find_line_end(data, start) {
        None => ParseStep::Incomplete,
        Some(end) => {
            proof {
                lemma_line_end_from(b, 0);
                assert(!crlf_at(b, 0));
            }
            let text = slice_subrange(data, start + 1, start + end);
            assert(text@ =~= b.subrange(1, end as int));
            match str_from_utf8(text) {
                Some(s) => {
                    let owned = String::from_str(s);
                    proof {
                        vstd::utf8::encode_utf8_decode_utf8(s@);
                    }
                    if is_error {
                        ParseStep::Complete(RespValue::Error(owned), end + 2)
                    } else {
                        ParseStep::Complete(RespValue::SimpleString(owned), end + 2)
                    }
                },
                None => ParseStep::Malformed(RespError::InvalidUtf8, end + 2),
            }
        },
    }
}

fn read_integer_line(data: &[u8], start: usize) -> (r: ParseStep)
    requires
        start < data@.len(),
        data@[start as int] != 13,
    ensures
        r@ == parse_integer_line(data@.skip(start as int)),
        r matches ParseStep::Complete(_, used) ==> 0 < used && start + used <= data@.len(),
        r matches ParseStep::Malformed(_, used) ==> start + used <= data@.len(),
{
    let ghost b = data@.skip(start as int);
    let _ = data.len();
    match find_line_end(data, start) {
        None => ParseStep::Incomplete,
        Some(end) => {
            proof {
                lemma_line_end_from(b, 0);
                assert(!crlf_at(b, 0));
            }
            let text = slice_subrange(data, start + 1, start + end);
            assert(text@ =~= b.subrange(1, end as int));
            match read_header(text) {
                HeaderStep::Number(n) => ParseStep::Complete(RespValue::Integer(n), end + 2),
                HeaderStep::Bad(e) => ParseStep::Malformed(e, end + 2),
            }
        },
    }
}

fn bad_bulk_length_error(len: i64) -> (e: RespError)
    ensures
        e@ == bad_bulk_length(len),
{
    let mut message = String::from_str("Invalid bulk string length: ");
    push_i64(&mut message, len);
    RespError::InvalidProtocol(message)
}

fn bad_array_count_error(count: i64) -> (e: RespError)
    ensures
        e@ == bad_array_count(count),
{
    let mut message = String::from_str("Invalid array count: ");
    push_i64(&mut message, count);
    RespError::InvalidProtocol(message)
}

fn unknown_prefix_error(prefix: u8) -> (e: RespError)
    ensures
        e@ == unknown_prefix(prefix),
{
    let mut message = String::from_str("Unknown type prefix: ");
    push_char(&mut message, prefix as char);
    RespError::InvalidProtocol(message)
}

fn read_bulk(data: &[u8], start: usize) -> (r: ParseStep)
    requires
        start < data@.len(),
        data@[start as int] != 13,
    ensures
        r@ == parse_bulk(data@.skip(start as int)),
        r matches ParseStep::Complete(_, used) ==> 0 < used && start + used <= data@.len(),
        r matches ParseStep::Malformed(_, used) ==> start + used <= data@.len(),
{
    let ghost b = data@.skip(start as int);
    let total = data.len();
    match find_line_end(data, start) {
        None => ParseStep::Incomplete,
        Some(end) => {
            proof {
                lemma_line_end_from(b, 0);
                assert(!crlf_at(b, 0));
            }
            let text = slice_subrange(data, start + 1, start + end);
            assert(text@ =~= b.subrange(1, end as int));
            match read_header(text) {
                HeaderStep::Bad(e) => ParseStep::Malformed(e, 0),
                HeaderStep::Number(len) => {
                    if len == -1 {
                        ParseStep::Complete(RespValue::Null, end + 2)
                    } else if len < 0 {
                        ParseStep::Malformed(bad_bulk_length_error(len), 0)
                    } else {
                        let available: u128 = (total - start) as u128;
                        let needed: u128 = end as u128 + 4 + len as u128;
                        if available < needed {
                            ParseStep::Incomplete
                        } else {
                            let size: usize = len as usize;
                            let from: usize = start + end + 2;
                            let to: usize = from + size;
                            if data[to] != 13 || data[to + 1] != 10 {
                                ParseStep::Malformed(
                                    RespError::InvalidProtocol(
                                        String::from_str("Missing CRLF after bulk string data"),
                                    ),
                                    end + 2 + size,
                                )
                            } else {
                                let payload = copy_bytes(slice_subrange(data, from, to));
                                assert(payload@ =~= b.subrange(end + 2, end + 2 + len));
                                ParseStep::Complete(
                                    RespValue::BulkString(payload),
                                    end + 2 + size + 2,
                                )
                            }
                        }
                    }
                },
            }
        },
    }
}

/// Reads one frame that begins at position `start` of `data`.
fn parse_at(data: &[u8], start: usize) -> (r: ParseStep)
    requires
        start <= data@.len(),
    ensures
        r@ == parse_frame(data@.skip(start as int)),
        r matches ParseStep::Complete(_, used) ==> 0 < used && start + used <= data@.len(),
        r matches ParseStep::Malformed(_, used) ==> start + used <= data@.len(),
    decreases data@.len() - start,
{
    let ghost b = data@.skip(start as int);
    let total = data.len();
    if start == total {
        return ParseStep::Incomplete;
    }
    let prefix = data[start];
    assert(b[0] == prefix);
    if prefix == 43 {
        read_text_line(data, start, false)
    } else if prefix == 45 {
        read_text_line(data, start, true)
    } else if prefix == 58 {
        read_integer_line(data, start)
    } else if prefix == 36 {
        read_bulk(data, start)
    } else if prefix == 42 {
        match find_line_end(data, start) {
            None => ParseStep::Incomplete,
            Some(end) => {
                proof {
                    lemma_line_end_from(b, 0);
                    assert(!crlf_at(b, 0));
                }
                let text = slice_subrange(data, start + 1, start + end);
                assert(text@ =~= b.subrange(1, end as int));
                match read_header(text) {
                    HeaderStep::Bad(e) => ParseStep::Malformed(e, 0),
                    HeaderStep::Number(count) => {
                        if count == -1 {
                            ParseStep::Complete(RespValue::Null, end + 2)
                        } else if count < 0 {
                            ParseStep::Malformed(bad_array_count_error(count), 0)
                        } else {
                            let first: usize = start + end + 2;
                            let ghost body = b.skip(end + 2);
                            assert(body =~= data@.skip(first as int));
                            let mut items: Vec<RespValue> = Vec::new();
                            let mut pos: usize = first;
                            let mut k: i64 = 0;
                            proof {
                                assert(body.skip(0) =~= body);
                                assert(Seq::<Frame>::empty() + parse_items(
                                    body,
                                    count as nat,
                                )->Complete_items =~= parse_items(
                                    body,
                                    count as nat,
                                )->Complete_items);
                            }
                            assert(parse_frame(b) == wrap_items(
                                end as int,
                                parse_items(body, count as nat),
                            ));
                            while k < count
                                invariant
                                    0 <= k <= count,
                                    b == data@.skip(start as int),
                                    parse_frame(b) == wrap_items(
                                        end as int,
                                        parse_items(body, count as nat),
                                    ),
                                    first == start + end + 2,
                                    first <= pos <= data@.len(),
                                    first > start,
                                    total == data@.len(),
                                    body == data@.skip(first as int),
                                    parse_items(body, count as nat) == resume(
                                        frames(items@),
                                        pos - first,
                                        parse_items(body.skip(pos - first), (count - k) as nat),
                                    ),
                                decreases count - k,
                            {
                                let ghost rest = body.skip(pos - first);
                                assert(rest =~= data@.skip(pos as int));
                                match parse_at(data, pos) {
                                    ParseStep::Incomplete => {
                                        return ParseStep::Incomplete;
                                    },
                                    ParseStep::Malformed(e, _) => {
                                        return ParseStep::Malformed(e, 0);
                                    },
                                    ParseStep::Complete(item, used) => {
                                        let ghost before = frames(items@);
                                        items.push(item);
                                        proof {
                                            assert(frames(items@) =~= before.push(item@));
                                            assert(rest.skip(used as int) =~= body.skip(
                                                pos + used - first,
                                            ));
                                            let tail = parse_items(
                                                rest.skip(used as int),
                                                (count - k - 1) as nat,
                                            );
                                            if tail is Complete {
                                                assert(before + (seq![item@]
                                                    + tail->Complete_items) =~= before.push(item@)
                                                    + tail->Complete_items);
                                            }
                                        }
                                        pos = pos + used;
                                        k = k + 1;
                                    },
                                }
                            }
                            proof {
                                lemma_array_view(items);
                                assert(frames(items@) + Seq::<Frame>::empty() =~= frames(items@));
                            }
                            ParseStep::Complete(RespValue::Array(items), pos - start)
                        }
                    },
                }
            },
        }
    } else {
        ParseStep::Malformed(unknown_prefix_error(prefix), 0)
    }
}

fn encode_into(out: &mut Vec<u8>, value: &RespValue)
    ensures
        final(out)@ == old(out)@ + encode(value@),
    decreases value,
{
    match value {
        RespValue::SimpleString(s) => {
            out.push(43);
            append_bytes(out, s.as_str().as_bytes());
            out.push(13);
            out.push(10);
            assert(out@ =~= old(out)@ + encode(value@));
        },
        RespValue::Error(s) => {
            out.push(45);
            append_bytes(out, s.as_str().as_bytes());
            out.push(13);
            out.push(10);
            assert(out@ =~= old(out)@ + encode(value@));
        },
        RespValue::Integer(i) => {
            out.push(58);
            let text = format_i64(*i);
            append_bytes(out, text.as_slice());
            out.push(13);
            out.push(10);
            assert(out@ =~= old(out)@ + encode(value@));
        },
        RespValue::BulkString(b) => {
            out.push(36);
            let text = format_usize(b.len());
            append_bytes(out, text.as_slice());
            out.push(13);
            out.push(10);
            append_bytes(out, b.as_slice());
            out.push(13);
            out.push(10);
            assert(out@ =~= old(out)@ + encode(value@));
        },
        RespValue::Null => {
            out.push(36);
            out.push(45);
            out.push(49);
            out.push(13);
            out.push(10);
            assert(out@ =~= old(out)@ + encode(value@));
        },
        RespValue::Array(items) => {
            proof {
                lemma_array_view(*items);
            }
            out.push(42);
            let text = format_usize(items.len());
            append_bytes(out, text.as_slice());
            out.push(13);
            out.push(10);
            let ghost head = out@;
            let ghost all = frames(items@);
            assert(head =~= old(out)@ + (seq![42u8] + decimal(all.len() as int) + crlf()));
            proof {
                assert forall|j: int| 0 <= j < items@.len() implies decreases_to!(*value => #[trigger] items@[j]) by {
                    vstd::std_specs::vec::axiom_vec_index_decreases(*items, j);
                }
            }
            let mut i: usize = 0;
            while i < items.len()
                invariant
                    i <= items@.len(),
                    all == frames(items@),
                    forall|j: int|
                        0 <= j < items@.len() ==> decreases_to!(*value => #[trigger] items@[j]),
                    out@ + encode_from(all, i as nat) == head + encode_from(all, 0),
                decreases items@.len() - i,
            {
                let ghost before = out@;
                let item = &items[i];
                encode_into(out, item);
                proof {
                    assert(all[i as int] == item@);
                    assert(out@ + encode_from(all, (i + 1) as nat) =~= before + encode_from(
                        all,
                        i as nat,
                    ));
                }
                i += 1;
            }
            assert(out@ =~= old(out)@ + encode(value@)) by {
                assert(encode_from(all, i as nat) =~= Seq::<u8>::empty());
                assert(out@ =~= out@ + encode_from(all, i as nat));
            }
        },
    }
}

/// The RESP2 parser.
pub struct RespParser;

impl RespParser {
    /// Reads one frame from the head of `data`, without changing anything.
    pub fn parse_frame(data: &[u8]) -> (r: ParseStep)
        ensures
            r@ == parse_frame(data@),
            r matches ParseStep::Complete(_, used) ==> 0 < used <= data@.len(),
            r matches ParseStep::Malformed(_, used) ==> used <= data@.len(),
    {
        assert(data@.skip(0) =~= data@);
        parse_at(data, 0)
    }

    /// Reads one frame from the head of `buf`.
    ///
    /// A complete frame is returned and its bytes leave the buffer. Where the
    /// buffer holds only the beginning of a frame, nothing is returned and the
    /// buffer stays as it is. Bytes that break the protocol give the error.
    pub fn parse(buf: &mut BytesMut) -> (r: Result<Option<RespValue>, RespError>)
        ensures
            match parse_frame(buffer_contents(*old(buf))) {
                Parsed::Complete { frame, used } => r matches Ok(Some(v)) && v@ == frame
                    && buffer_contents(*final(buf)) == buffer_contents(*old(buf)).skip(used),
                Parsed::Incomplete => r matches Ok(None) && buffer_contents(*final(buf))
                    == buffer_contents(*old(buf)),
                Parsed::Malformed { error, used } => r matches Err(e) && e@ == error
                    && buffer_contents(*final(buf)) == buffer_contents(*old(buf)).skip(used),
            },
    {
        let step = Self::parse_frame(buffer_slice(buf));
        match step {
            ParseStep::Complete(value, used) => {
                buffer_advance(buf, used);
                Ok(Some(value))
            },
            ParseStep::Incomplete => Ok(None),
            ParseStep::Malformed(error, used) => {
                buffer_advance(buf, used);
                Err(error)
            },
        }
    }
}

/// The RESP2 encoder.
pub struct RespEncoder;

impl RespEncoder {
    /// The bytes of `value` on the wire.
    pub fn encode_vec(value: &RespValue) -> (r: Vec<u8>)
        ensures
            r@ == encode(value@),
    {
        let mut out: Vec<u8> = Vec::new();
        encode_into(&mut out, value);
        assert(out@ =~= encode(value@));
        out
    }

    /// The bytes of `value` on the wire.
    pub fn encode(value: &RespValue) -> (r: Bytes)
        ensures
            bytes_contents(r) == encode(value@),
    {
        bytes_from_vec(Self::encode_vec(value))
    }

    /// Appends the bytes of `value` to `buf`.
    pub fn encode_to(buf: &mut BytesMut, value: &RespValue)
        ensures
            buffer_contents(*final(buf)) == buffer_contents(*old(buf)) + encode(value@),
    {
        let bytes = Self::encode_vec(value);
        buffer_extend(buf, bytes.as_slice());
    }
}

} // verus!
