//! What holds of the codec: a value reads back as it was written, and a
//! frame that is cut short reads as incomplete.

use vstd::prelude::*;
use vstd::utf8::encode_utf8;
use vstd::utf8::is_ascii_chars;
use crate::protocol::decimal::decimal;
use crate::protocol::decimal::is_digit;
use crate::protocol::decimal::lemma_parse_decimal_of_decimal;
use crate::protocol::resp::crlf;
use crate::protocol::resp::crlf_at;
use crate::protocol::resp::encode;
use crate::protocol::resp::encode_from;
use crate::protocol::resp::header_number;
use crate::protocol::resp::lemma_line_end_from;
use crate::protocol::resp::lemma_line_end_is;
use crate::protocol::resp::line_end;
use crate::protocol::resp::parse_frame;
use crate::protocol::resp::parse_items;
use crate::protocol::resp::Header;
use crate::protocol::resp::Parsed;
use crate::protocol::resp::ParsedItems;
use crate::protocol::types::Frame;

verus! {

/// Whether no line terminator stands in `text`.
pub open spec fn one_line(text: Seq<u8>) -> bool {
    forall|j: int| !crlf_at(text, j)
}

/// Whether `f` can be written so that it reads back: its simple strings and
/// errors hold no line terminator, and the lengths of its bulk strings and
/// arrays fit an `i64`.
pub open spec fn encodable(f: Frame) -> bool
    decreases f,
{
    match f {
        Frame::SimpleString(s) => one_line(encode_utf8(s)),
        Frame::Error(s) => one_line(encode_utf8(s)),
        Frame::Integer(_) => true,
        Frame::BulkString(b) => b.len() <= i64::MAX,
        Frame::Null => true,
        Frame::Array(items) => items.len() <= i64::MAX && forall|i: int|
            0 <= i < items.len() ==> encodable(#[trigger] items[i]),
    }
}

/// The text of a number is one line of valid UTF-8 that spells the number.
pub proof fn lemma_decimal_header(n: i64)
    ensures
        one_line(decimal(n as int)),
        header_number(decimal(n as int)) == Header::Number(n),
        decimal(n as int).len() >= 1,
{
    lemma_parse_decimal_of_decimal(n);
    let text = decimal(n as int);
    assert forall|k: int| 0 <= k < text.len() implies #[trigger] text[k] < 128 && text[k]
        != 13 by {
        if k == 0 {
        } else {
            assert(is_digit(text[k]));
        }
    }
    let chars = Seq::new(text.len(), |k: int| text[k] as char);
    assert(is_ascii_chars(chars));
    vstd::utf8::is_ascii_chars_encode_utf8(chars);
    assert(encode_utf8(chars) =~= text);
    vstd::utf8::encode_utf8_valid_utf8(chars);
}

/// A line that begins with a byte that is no carriage return, goes on with
/// one line of text and ends with a line terminator, ends where the
/// terminator stands, whatever follows.
pub proof fn lemma_line(prefix: u8, text: Seq<u8>, rest: Seq<u8>)
    requires
        prefix != 13,
        one_line(text),
    ensures
        line_end(seq![prefix] + text + crlf() + rest) == Some(1 + text.len() as int),
        (seq![prefix] + text + crlf() + rest).subrange(1, 1 + text.len() as int) == text,
{
    let b = seq![prefix] + text + crlf() + rest;
    let end = 1 + text.len() as int;
    assert(b[end] == 13 && b[end + 1] == 10);
    assert forall|j: int| 0 <= j < end implies !crlf_at(b, j) by {
        if 1 <= j && j + 1 < end {
            assert(!crlf_at(text, j - 1));
            assert(b[j] == text[j - 1] && b[j + 1] == text[j]);
        }
    }
    lemma_line_end_is(b, end);
    assert(b.subrange(1, end) =~= text);
}

/// A value reads back as it was written, whatever follows it, and takes
/// exactly the bytes that were written for it.
pub proof fn lemma_round_trip(f: Frame, rest: Seq<u8>)
    requires
        encodable(f),
    ensures
        parse_frame(encode(f) + rest) == (Parsed::Complete {
            frame: f,
            used: encode(f).len() as int,
        }),
        encode(f).len() > 0,
    decreases f, 0nat,
{
    let b = encode(f) + rest;
    match f {
        Frame::SimpleString(s) => {
            let text = encode_utf8(s);
            lemma_line(43, text, rest);
            assert(b =~= seq![43u8] + text + crlf() + rest);
            vstd::utf8::encode_utf8_valid_utf8(s);
            vstd::utf8::encode_utf8_decode_utf8(s);
        },
        Frame::Error(s) => {
            let text = encode_utf8(s);
            lemma_line(45, text, rest);
            assert(b =~= seq![45u8] + text + crlf() + rest);
            vstd::utf8::encode_utf8_valid_utf8(s);
            vstd::utf8::encode_utf8_decode_utf8(s);
        },
        Frame::Integer(i) => {
            let text = decimal(i as int);
            lemma_decimal_header(i);
            lemma_line(58, text, rest);
            assert(b =~= seq![58u8] + text + crlf() + rest);
        },
        Frame::BulkString(payload) => {
            let n = payload.len() as i64;
            let text = decimal(n as int);
            lemma_decimal_header(n);
            lemma_line(36, text, payload + crlf() + rest);
            assert(b =~= seq![36u8] + text + crlf() + (payload + crlf() + rest));
            let end = 1 + text.len() as int;
            assert(crlf_at(b, end + 2 + n));
            assert(b.subrange(end + 2, end + 2 + n) =~= payload);
        },
        Frame::Null => {
            let text = seq![45u8, 49u8];
            assert(text =~= decimal(-1)) by {
                reveal_with_fuel(crate::protocol::decimal::digits, 2);
            }
            lemma_decimal_header(-1i64);
            lemma_line(36, text, rest);
            assert(b =~= seq![36u8] + text + crlf() + rest);
        },
        Frame::Array(items) => {
            let n = items.len() as i64;
            let text = decimal(n as int);
            lemma_decimal_header(n);
            let body = encode_from(items, 0);
            lemma_line(42, text, body + rest);
            assert(b =~= seq![42u8] + text + crlf() + (body + rest));
            let end = 1 + text.len() as int;
            assert(b.skip(end + 2) =~= body + rest);
            lemma_round_trip_items(items, 0, rest);
            assert(items.skip(0) =~= items);
        },
    }
}

/// The items of an array, from position `i` on, read back as they were
/// written, whatever follows them.
pub proof fn lemma_round_trip_items(items: Seq<Frame>, i: nat, rest: Seq<u8>)
    requires
        i <= items.len(),
        forall|k: int| 0 <= k < items.len() ==> encodable(#[trigger] items[k]),
    ensures
        parse_items(encode_from(items, i) + rest, (items.len() - i) as nat) == (
        ParsedItems::Complete {
            items: items.skip(i as int),
            used: encode_from(items, i).len() as int,
        }),
    decreases items, items.len() - i,
{
    if i == items.len() {
        assert(items.skip(i as int) =~= Seq::<Frame>::empty());
    } else {
        let first = encode(items[i as int]);
        let tail = encode_from(items, i + 1);
        let b = encode_from(items, i) + rest;
        assert(b =~= first + (tail + rest));
        lemma_round_trip(items[i as int], tail + rest);
        lemma_round_trip_items(items, i + 1, rest);
        assert(b.skip(first.len() as int) =~= tail + rest);
        assert(seq![items[i as int]] + items.skip(i as int + 1) =~= items.skip(i as int));
    }
}

/// A frame that is read takes at least one byte and no more than there are.
pub proof fn lemma_used(b: Seq<u8>)
    ensures
        parse_frame(b) matches Parsed::Complete { used, .. } ==> 0 < used <= b.len(),
    decreases b.len(), 0nat,
{
    if b.len() > 0 {
        lemma_line_end_from(b, 0);
        if b[0] == 42 && line_end(b) is Some {
            let end = line_end(b)->0;
            match header_number(b.subrange(1, end)) {
                Header::Number(count) => {
                    if count >= 0 {
                        lemma_used_items(b.skip(end + 2), count as nat);
                    }
                },
                _ => {},
            }
        }
    }
}

/// Frames that are read take no more bytes than there are.
pub proof fn lemma_used_items(b: Seq<u8>, count: nat)
    ensures
        parse_items(b, count) matches ParsedItems::Complete { items, used } ==> 0 <= used
            <= b.len() && items.len() == count && (count > 0 ==> used > 0),
    decreases b.len(), count + 1,
{
    if count > 0 {
        lemma_used(b);
        match parse_frame(b) {
            Parsed::Complete { used, .. } => {
                lemma_used_items(b.skip(used), (count - 1) as nat);
            },
            _ => {},
        }
    }
}

/// Two buffers that agree up to the end of the first line have the same
/// first line.
pub proof fn lemma_same_line(x: Seq<u8>, y: Seq<u8>, n: int)
    requires
        0 <= n <= x.len(),
        n <= y.len(),
        x.take(n) == y.take(n),
        line_end(x) matches Some(end) && end + 2 <= n,
        x[0] != 13,
    ensures
        line_end(y) == line_end(x),
        y.subrange(1, line_end(x)->0) == x.subrange(1, line_end(x)->0),
{
    let end = line_end(x)->0;
    lemma_line_end_from(x, 0);
    lemma_agree(x, y, n);
    assert(!crlf_at(x, 0));
    assert forall|j: int| 0 <= j < end implies !crlf_at(y, j) by {
        assert(!crlf_at(x, j));
        assert(x[j] == y[j]);
        assert(x[j + 1] == y[j + 1]);
    }
    assert(x[end] == y[end] && x[end + 1] == y[end + 1]);
    lemma_line_end_is(y, end);
    assert(y.subrange(1, end) =~= x.subrange(1, end));
}

/// Two buffers with the same first `n` bytes agree at every position below
/// `n`.
pub proof fn lemma_agree(x: Seq<u8>, y: Seq<u8>, n: int)
    requires
        0 <= n <= x.len(),
        n <= y.len(),
        x.take(n) == y.take(n),
    ensures
        forall|j: int| 0 <= j < n ==> x[j] == #[trigger] y[j],
{
    assert forall|j: int| 0 <= j < n implies x[j] == #[trigger] y[j] by {
        assert(x.take(n)[j] == x[j]);
        assert(y.take(n)[j] == y[j]);
    }
}

/// A frame reads the same whatever follows it: two buffers that agree on
/// the bytes that the frame takes in the first give the same frame.
pub proof fn lemma_stable(x: Seq<u8>, y: Seq<u8>)
    requires
        parse_frame(x) matches Parsed::Complete { used, .. } && used <= y.len() && x.take(used)
            == y.take(used),
    ensures
        parse_frame(y) == parse_frame(x),
    decreases x.len(), 0nat,
{
    lemma_used(x);
    let n = parse_frame(x)->Complete_used;
    lemma_agree(x, y, n);
    lemma_line_end_from(x, 0);
    let end = line_end(x)->0;
    if x[0] == 43 || x[0] == 45 || x[0] == 58 {
        lemma_same_line(x, y, n);
    } else if x[0] == 36 {
        match header_number(x.subrange(1, end)) {
            Header::Number(len) => {
                if len == -1 {
                    lemma_same_line(x, y, n);
                } else {
                    lemma_same_line(x, y, n);
                    assert(y.subrange(end + 2, end + 2 + len) =~= x.subrange(
                        end + 2,
                        end + 2 + len,
                    ));
                }
            },
            _ => {},
        }
    } else if x[0] == 42 {
        match header_number(x.subrange(1, end)) {
            Header::Number(count) => {
                if count == -1 {
                    lemma_same_line(x, y, n);
                } else {
                    lemma_used_items(x.skip(end + 2), count as nat);
                    lemma_same_line(x, y, n);
                    let used = n - end - 2;
                    assert(x.skip(end + 2).take(used) =~= y.skip(end + 2).take(used));
                    lemma_stable_items(x.skip(end + 2), y.skip(end + 2), count as nat);
                }
            },
            _ => {},
        }
    }
}

/// Frames read the same whatever follows them.
pub proof fn lemma_stable_items(x: Seq<u8>, y: Seq<u8>, count: nat)
    requires
        parse_items(x, count) matches ParsedItems::Complete { used, .. } && used <= y.len()
            && x.take(used) == y.take(used),
    ensures
        parse_items(y, count) == parse_items(x, count),
    decreases x.len(), count + 1,
{
    if count > 0 {
        lemma_used(x);
        lemma_used_items(x, count);
        let total = parse_items(x, count)->Complete_used;
        let first = parse_frame(x)->Complete_used;
        lemma_used_items(x.skip(first), (count - 1) as nat);
        let more = parse_items(x.skip(first), (count - 1) as nat)->Complete_used;
        assert(total == first + more);
        lemma_agree(x, y, total);
        assert(x.take(first) =~= y.take(first));
        lemma_stable(x, y);
        assert(x.skip(first).take(more) =~= y.skip(first).take(more));
        lemma_stable_items(x.skip(first), y.skip(first), (count - 1) as nat);
    }
}

/// A buffer that is cut before the end of its first line has no line.
pub proof fn lemma_cut_line(x: Seq<u8>, k: int)
    requires
        0 <= k <= x.len(),
        line_end(x) matches Some(end) ==> k < end + 2,
    ensures
        line_end(x.take(k)) is None,
{
    lemma_line_end_from(x, 0);
    lemma_line_end_from(x.take(k), 0);
    if line_end(x.take(k)) is Some {
        let j = line_end(x.take(k))->0;
        assert(crlf_at(x.take(k), j));
        assert(crlf_at(x, j));
    }
}

/// A frame that is cut short reads as incomplete: where a buffer begins
/// with a frame, every shorter beginning of the frame is incomplete.
pub proof fn lemma_cut_short(x: Seq<u8>, k: int)
    requires
        parse_frame(x) matches Parsed::Complete { used, .. } && 0 <= k < used,
    ensures
        parse_frame(x.take(k)) == Parsed::Incomplete,
    decreases x.len(), 0nat,
{
    lemma_used(x);
    let n = parse_frame(x)->Complete_used;
    let p = x.take(k);
    if k > 0 {
        assert(p[0] == x[0]);
        lemma_line_end_from(x, 0);
        let end = line_end(x)->0;
        if k < end + 2 {
            lemma_cut_line(x, k);
        } else {
            assert(x.take(k) =~= p.take(k));
            lemma_same_line(x, p, k);
            if x[0] == 36 {
            } else if x[0] == 42 {
                match header_number(x.subrange(1, end)) {
                    Header::Number(count) => {
                        if count >= 0 {
                            lemma_used_items(x.skip(end + 2), count as nat);
                            assert(p.skip(end + 2) =~= x.skip(end + 2).take(k - end - 2));
                            lemma_cut_short_items(x.skip(end + 2), count as nat, k - end - 2);
                        }
                    },
                    _ => {},
                }
            }
        }
    }
}

/// Frames that are cut short read as incomplete.
pub proof fn lemma_cut_short_items(x: Seq<u8>, count: nat, k: int)
    requires
        parse_items(x, count) matches ParsedItems::Complete { used, .. } && 0 <= k < used,
    ensures
        parse_items(x.take(k), count) == ParsedItems::Incomplete,
    decreases x.len(), count + 1,
{
    lemma_used_items(x, count);
    lemma_used(x);
    let first = parse_frame(x)->Complete_used;
    let p = x.take(k);
    if k < first {
        lemma_cut_short(x, k);
    } else {
        assert(x.take(first) =~= p.take(first));
        lemma_stable(x, p);
        lemma_used_items(x.skip(first), (count - 1) as nat);
        assert(p.skip(first) =~= x.skip(first).take(k - first));
        lemma_cut_short_items(x.skip(first), (count - 1) as nat, k - first);
    }
}

/// Incrementality: where the bytes `b` are exactly one frame, every proper
/// beginning of `b` is incomplete, and `b` itself gives the frame.
pub proof fn lemma_incremental(b: Seq<u8>, k: int)
    requires
        parse_frame(b) matches Parsed::Complete { used, .. } && used == b.len(),
        0 <= k < b.len(),
    ensures
        parse_frame(b.take(k)) == Parsed::Incomplete,
{
    lemma_cut_short(b, k);
}

} // verus!
