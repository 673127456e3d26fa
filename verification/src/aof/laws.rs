//! What holds of the log's binary form: entries read back as written, and
//! the checksum catches a changed byte.

use vstd::prelude::*;
use vstd::bytes::lemma_auto_spec_u32_to_from_le_bytes;
use vstd::bytes::lemma_auto_spec_u64_to_from_le_bytes;
use vstd::bytes::spec_u32_from_le_bytes;
use vstd::bytes::spec_u32_to_le_bytes;
use vstd::bytes::spec_u64_from_le_bytes;
use vstd::bytes::spec_u64_to_le_bytes;
use crate::aof::checksum::xxh64_digest;
use crate::aof::entry::decode_entry;
use crate::aof::entry::decode_items;
use crate::aof::entry::entry_body;
use crate::aof::entry::entry_bytes;
use crate::aof::entry::fits_format;
use crate::aof::entry::item_bytes;
use crate::aof::entry::items_bytes;
use crate::aof::entry::len32;
use crate::aof::entry::op_code;
use crate::aof::entry::op_from_code;
use crate::aof::entry::seal;
use crate::aof::entry::AofEntryView;
use crate::aof::entry::AofError;
use crate::aof::reader::decode_all;

verus! {

/// Payload items that stand in `data` at `pos` are read back from there.
pub proof fn lemma_decode_items(data: Seq<u8>, pos: int, items: Seq<Seq<u8>>)
    requires
        0 <= pos,
        pos + items_bytes(items).len() <= data.len(),
        data.subrange(pos, pos + items_bytes(items).len()) == items_bytes(items),
        forall|i: int| 0 <= i < items.len() ==> (#[trigger] items[i]).len() <= u32::MAX,
    ensures
        decode_items(data, pos, items.len()) == Ok::<(Seq<Seq<u8>>, int), AofError>(
            (items, pos + items_bytes(items).len()),
        ),
    decreases items.len(),
{
    lemma_auto_spec_u32_to_from_le_bytes();
    if items.len() == 0 {
        assert(items =~= Seq::<Seq<u8>>::empty());
    } else {
        let first = items[0];
        let rest = items.drop_first();
        let all = items_bytes(items);
        let head = spec_u32_to_le_bytes(len32(first.len()));
        assert(all == item_bytes(first) + items_bytes(rest));
        assert(head.len() == 4);
        let window = data.subrange(pos, pos + all.len());
        assert(data.subrange(pos, pos + 4) =~= window.subrange(0, 4));
        assert(window.subrange(0, 4) =~= head);
        assert(len32(first.len()) == first.len());
        let n = first.len() as int;
        assert(data.subrange(pos + 4, pos + 4 + n) =~= window.subrange(4, 4 + n));
        assert(window.subrange(4, 4 + n) =~= first);
        let next = pos + 4 + n;
        assert(data.subrange(next, next + items_bytes(rest).len()) =~= window.subrange(
            4 + n,
            all.len() as int,
        ));
        assert(window.subrange(4 + n, all.len() as int) =~= items_bytes(rest));
        assert forall|i: int| 0 <= i < rest.len() implies (#[trigger] rest[i]).len()
            <= u32::MAX by {
            assert(rest[i] == items[i + 1]);
        }
        lemma_decode_items(data, next, rest);
        assert(seq![first] + rest =~= items);
    }
}

/// What follows the body of an entry decides how the entry reads: as the
/// entry, where the next 8 bytes are the checksum of the body; as a
/// checksum mismatch otherwise.
pub proof fn lemma_decode_body(e: AofEntryView, suffix: Seq<u8>)
    requires
        fits_format(e),
        suffix.len() >= 8,
    ensures
        decode_entry(entry_body(e) + suffix) == (if spec_u64_from_le_bytes(suffix.subrange(0, 8))
            == xxh64_digest(entry_body(e), 0) {
            Ok::<(AofEntryView, int), AofError>((e, (entry_body(e).len() + 8) as int))
        } else {
            Err::<(AofEntryView, int), AofError>(
                AofError::ChecksumMismatch {
                    stored: spec_u64_from_le_bytes(suffix.subrange(0, 8)),
                    computed: xxh64_digest(entry_body(e), 0),
                },
            )
        }),
        entry_body(e).len() >= 17,
{
    lemma_auto_spec_u32_to_from_le_bytes();
    lemma_auto_spec_u64_to_from_le_bytes();
    let body = entry_body(e);
    let data = body + suffix;
    let ts = spec_u64_to_le_bytes(e.timestamp);
    let kl = spec_u32_to_le_bytes(len32(e.key.len()));
    let pc = spec_u32_to_le_bytes(len32(e.payload.len()));
    let items = items_bytes(e.payload);
    let klen = e.key.len() as int;
    assert(ts.len() == 8 && kl.len() == 4 && pc.len() == 4);
    assert(body =~= seq![op_code(e.op)] + ts + kl + e.key + pc + items);
    assert(body.len() == 17 + klen + items.len());
    assert(data[0] == op_code(e.op));
    assert(op_from_code(op_code(e.op)) == Some(e.op));
    assert(data.subrange(1, 9) =~= ts);
    assert(data.subrange(9, 13) =~= kl);
    assert(len32(e.key.len()) == e.key.len());
    assert(len32(e.payload.len()) == e.payload.len());
    assert(data.subrange(13, 13 + klen) =~= e.key);
    assert(data.subrange(13 + klen, 13 + klen + 4) =~= pc);
    let first = 13 + klen + 4;
    assert(data.subrange(first, first + items.len()) =~= items);
    lemma_decode_items(data, first, e.payload);
    let end = first + items.len();
    assert(end == body.len());
    assert(data.subrange(0, end) =~= body);
    assert(data.subrange(end, end + 8) =~= suffix.subrange(0, 8));
    assert(decode_entry(data) == seal(
        data,
        e.op,
        e.timestamp,
        klen,
        decode_items(data, first, e.payload.len()),
    ));
}

/// An entry reads back as it was written, whatever follows it, and takes
/// exactly the bytes that were written for it.
pub proof fn lemma_entry_round_trip(e: AofEntryView, rest: Seq<u8>)
    requires
        fits_format(e),
    ensures
        decode_entry(entry_bytes(e) + rest) == Ok::<(AofEntryView, int), AofError>(
            (e, entry_bytes(e).len() as int),
        ),
        entry_bytes(e).len() >= 25,
{
    lemma_auto_spec_u64_to_from_le_bytes();
    let body = entry_body(e);
    let sum = spec_u64_to_le_bytes(xxh64_digest(body, 0));
    let suffix = sum + rest;
    assert(suffix.subrange(0, 8) =~= sum);
    lemma_decode_body(e, suffix);
    assert(entry_bytes(e) + rest =~= body + suffix);
}

/// Where bytes read as an entry, the entry takes at least 25 of them, and
/// the 8 bytes at its end are the checksum of those before.
pub proof fn lemma_decoded_is_checked(data: Seq<u8>)
    requires
        decode_entry(data) is Ok,
    ensures
        ({
            let used = decode_entry(data)->Ok_0.1;
            &&& 25 <= used <= data.len()
            &&& spec_u64_from_le_bytes(data.subrange(used - 8, used)) == xxh64_digest(
                data.subrange(0, used - 8),
                0,
            )
        }),
{
    let klen = spec_u32_from_le_bytes(data.subrange(9, 13)) as int;
    let count = spec_u32_from_le_bytes(data.subrange(13 + klen, 13 + klen + 4));
    lemma_items_end(data, 13 + klen + 4, count as nat);
}

/// Payload items that are read end at or after the position they begin at.
pub proof fn lemma_items_end(data: Seq<u8>, pos: int, count: nat)
    ensures
        decode_items(data, pos, count) matches Ok((_, end)) ==> pos <= end,
    decreases count,
{
    if count > 0 && pos + 4 <= data.len() {
        let n = spec_u32_from_le_bytes(data.subrange(pos, pos + 4)) as int;
        if pos + 4 + n <= data.len() {
            lemma_items_end(data, pos + 4 + n, (count - 1) as nat);
        }
    }
}

/// The checksum catches a changed byte. Let one byte of a written entry be
/// changed. If the byte is one of the 8 bytes of the checksum, the entry no
/// longer reads. If it is any other byte and the bytes still read as an
/// entry, then the body that is now read is not the body that was written,
/// and yet the 8 bytes after it are its xxHash64; where the entry read is as
/// long as the entry written, the two bodies are two different byte strings
/// with the same xxHash64.
pub proof fn lemma_changed_byte(e: AofEntryView, i: int, v: u8)
    requires
        fits_format(e),
        0 <= i < entry_bytes(e).len(),
        v != entry_bytes(e)[i],
    ensures
        ({
            let written = entry_bytes(e);
            let changed = written.update(i, v);
            &&& i >= written.len() - 8 ==> decode_entry(changed) is Err
            &&& decode_entry(changed) matches Ok((_, used)) ==> {
                &&& i < written.len() - 8
                &&& changed.subrange(0, used - 8) != entry_body(e)
                &&& xxh64_digest(changed.subrange(0, used - 8), 0) == spec_u64_from_le_bytes(
                    changed.subrange(used - 8, used),
                )
                &&& used == written.len() ==> xxh64_digest(changed.subrange(0, used - 8), 0)
                    == xxh64_digest(entry_body(e), 0)
            }
        }),
{
    lemma_auto_spec_u64_to_from_le_bytes();
    let body = entry_body(e);
    let sum = spec_u64_to_le_bytes(xxh64_digest(body, 0));
    let written = entry_bytes(e);
    let changed = written.update(i, v);
    assert(written.len() == body.len() + 8);
    if i >= written.len() - 8 {
        let suffix = sum.update(i - body.len(), v);
        assert(changed =~= body + suffix);
        assert(suffix.subrange(0, 8) =~= suffix);
        lemma_decode_body(e, suffix);
        if spec_u64_from_le_bytes(suffix) == xxh64_digest(body, 0) {
            assert(spec_u64_to_le_bytes(spec_u64_from_le_bytes(suffix)) == suffix);
            assert(suffix == sum);
            assert(suffix[i - body.len()] == v);
            assert(sum[i - body.len()] == written[i]);
        }
    }
    if decode_entry(changed) is Ok {
        lemma_decoded_is_checked(changed);
        let used = decode_entry(changed)->Ok_0.1;
        let read = changed.subrange(0, used - 8);
        if read == body {
            assert(used == written.len());
            assert(read[i] == v);
            assert(body[i] == written[i]);
        }
        if used == written.len() {
            assert(changed.subrange(used - 8, used) =~= sum);
        }
    }
}

/// The bytes of a log that holds `entries`, in order.
pub open spec fn log_bytes(entries: Seq<AofEntryView>) -> Seq<u8>
    decreases entries.len(),
{
    if entries.len() == 0 {
        Seq::empty()
    } else {
        entry_bytes(entries[0]) + log_bytes(entries.drop_first())
    }
}

/// A log reads back as the entries that were written to it.
pub proof fn lemma_log_round_trip(entries: Seq<AofEntryView>)
    requires
        forall|i: int| 0 <= i < entries.len() ==> fits_format(#[trigger] entries[i]),
    ensures
        decode_all(log_bytes(entries)) == entries,
    decreases entries.len(),
{
    if entries.len() == 0 {
        assert(entries =~= Seq::<AofEntryView>::empty());
    } else {
        let first = entries[0];
        let rest = entries.drop_first();
        lemma_entry_round_trip(first, log_bytes(rest));
        assert forall|i: int| 0 <= i < rest.len() implies fits_format(#[trigger] rest[i]) by {
            assert(rest[i] == entries[i + 1]);
        }
        lemma_log_round_trip(rest);
        let data = log_bytes(entries);
        let used = entry_bytes(first).len() as int;
        assert(data.skip(used) =~= log_bytes(rest));
        assert(seq![first] + rest =~= entries);
    }
}

} // verus!
