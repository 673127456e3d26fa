//! The entries of the append-only log and their binary form.
//!
//! An entry on disk, little-endian throughout:
//!
//! ```text
//! op:u8  ts:u64  klen:u32  k:klen  pcount:u32  { plen:u32  p:plen }*  checksum:u64
//! ```
//!
//! The checksum is the xxHash64, seed 0, of all the bytes before it.

use vstd::prelude::*;
use vstd::bytes::spec_u32_from_le_bytes;
use vstd::bytes::spec_u32_to_le_bytes;
use vstd::bytes::spec_u64_from_le_bytes;
use vstd::bytes::spec_u64_to_le_bytes;
use vstd::bytes::u32_from_le_bytes;
use vstd::bytes::u32_to_le_bytes;
use vstd::bytes::u64_from_le_bytes;
use vstd::bytes::u64_to_le_bytes;
use vstd::slice::slice_subrange;
use vstd::string::StringExecFns;
use crate::aof::checksum::xxh64;
use crate::aof::checksum::xxh64_digest;
use crate::octets::append_bytes;
use crate::octets::copy_bytes;
use crate::protocol::text::decimal_text;
use crate::protocol::text::push_u64;
use crate::store::clock::Clock;
use crate::store::memory::keys_view;

verus! {

/// The size of the smallest entry: no key, no payload.
pub const MIN_ENTRY_SIZE: usize = 25;

/// The kind of a logged operation.
#[derive(Debug, Clone, Copy, PartialEq, Eq, Structural)]
pub enum AofOperation {
    /// SET, code 1.
    SetKey,
    /// DEL, code 2.
    Del,
    /// EXPIRE, code 3.
    Expire,
    /// HSET, code 4.
    HSet,
    /// HDEL, code 5.
    HDel,
    /// LPUSH, code 6.
    LPush,
    /// RPUSH, code 7.
    RPush,
    /// SADD, code 8.
    SAdd,
    /// INCR, code 9.
    Incr,
    /// INCRBY, code 10.
    IncrBy,
}

/// The operation with the code `code`, if there is one.
pub open spec fn op_from_code(code: u8) -> Option<AofOperation> {
    if code == 1 {
        Some(AofOperation::SetKey)
    } else if code == 2 {
        Some(AofOperation::Del)
    } else if code == 3 {
        Some(AofOperation::Expire)
    } else if code == 4 {
        Some(AofOperation::HSet)
    } else if code == 5 {
        Some(AofOperation::HDel)
    } else if code == 6 {
        Some(AofOperation::LPush)
    } else if code == 7 {
        Some(AofOperation::RPush)
    } else if code == 8 {
        Some(AofOperation::SAdd)
    } else if code == 9 {
        Some(AofOperation::Incr)
    } else if code == 10 {
        Some(AofOperation::IncrBy)
    } else {
        None
    }
}

/// The code of `op`.
pub open spec fn op_code(op: AofOperation) -> u8 {
    match op {
        AofOperation::SetKey => 1,
        AofOperation::Del => 2,
        AofOperation::Expire => 3,
        AofOperation::HSet => 4,
        AofOperation::HDel => 5,
        AofOperation::LPush => 6,
        AofOperation::RPush => 7,
        AofOperation::SAdd => 8,
        AofOperation::Incr => 9,
        AofOperation::IncrBy => 10,
    }
}

impl AofOperation {
    /// The operation with the code `value`, if there is one.
    pub fn from_u8(value: u8) -> (r: Option<Self>)
        ensures
            r == op_from_code(value),
    {
        match value {
            1 => Some(AofOperation::SetKey),
            2 => Some(AofOperation::Del),
            3 => Some(AofOperation::Expire),
            4 => Some(AofOperation::HSet),
            5 => Some(AofOperation::HDel),
            6 => Some(AofOperation::LPush),
            7 => Some(AofOperation::RPush),
            8 => Some(AofOperation::SAdd),
            9 => Some(AofOperation::Incr),
            10 => Some(AofOperation::IncrBy),
            _ => None,
        }
    }

    /// The code of the operation.
    pub fn to_u8(self) -> (r: u8)
        ensures
            r == op_code(self),
            op_from_code(r) == Some(self),
    {
        match self {
            AofOperation::SetKey => 1,
            AofOperation::Del => 2,
            AofOperation::Expire => 3,
            AofOperation::HSet => 4,
            AofOperation::HDel => 5,
            AofOperation::LPush => 6,
            AofOperation::RPush => 7,
            AofOperation::SAdd => 8,
            AofOperation::Incr => 9,
            AofOperation::IncrBy => 10,
        }
    }
}

/// One logged operation.
#[derive(Debug)]
pub struct AofEntry {
    /// The kind of operation.
    pub op: AofOperation,
    /// Milliseconds since the Unix epoch when the entry was made.
    pub timestamp: u64,
    /// The key.
    pub key: Vec<u8>,
    /// The payload; its meaning depends on the operation.
    pub payload: Vec<Vec<u8>>,
}

/// What an `AofEntry` stands for.
pub ghost struct AofEntryView {
    pub op: AofOperation,
    pub timestamp: u64,
    pub key: Seq<u8>,
    pub payload: Seq<Seq<u8>>,
}

impl View for AofEntry {
    type V = AofEntryView;

    open spec fn view(&self) -> AofEntryView {
        AofEntryView {
            op: self.op,
            timestamp: self.timestamp,
            key: self.key@,
            payload: keys_view(self.payload@),
        }
    }
}

/// Why bytes could not be read as an entry.
#[derive(Debug, Clone, Copy, PartialEq, Eq, Structural)]
pub enum AofError {
    /// Fewer than 17 bytes.
    InsufficientData,
    /// The first byte is no operation code.
    InvalidOperation,
    /// The key runs past the end of the data.
    InvalidKeyLength,
    /// The data ends before the payload count.
    MissingPayloadCount,
    /// The data ends before the length of a payload item.
    MissingPayloadLength,
    /// A payload item runs past the end of the data.
    InvalidPayloadItemLength,
    /// The data ends before the checksum.
    MissingChecksum,
    /// The checksum in the data is not the checksum of the data.
    ChecksumMismatch { stored: u64, computed: u64 },
}

impl AofError {
    /// The error in words.
    pub open spec fn text(self) -> Seq<char> {
        match self {
            AofError::InsufficientData => "Insufficient data"@,
            AofError::InvalidOperation => "Invalid operation type"@,
            AofError::InvalidKeyLength => "Invalid key length"@,
            AofError::MissingPayloadCount => "Missing payload count"@,
            AofError::MissingPayloadLength => "Missing payload length"@,
            AofError::InvalidPayloadItemLength => "Invalid payload item length"@,
            AofError::MissingChecksum => "Missing checksum"@,
            AofError::ChecksumMismatch { stored, computed } => "Checksum mismatch: expected "@
                + decimal_text(stored as int) + ", got "@ + decimal_text(computed as int),
        }
    }

    /// The error in words.
    pub fn message(&self) -> (r: String)
        ensures
            r@ == self.text(),
    {
        match self {
            AofError::InsufficientData => String::from_str("Insufficient data"),
            AofError::InvalidOperation => String::from_str("Invalid operation type"),
            AofError::InvalidKeyLength => String::from_str("Invalid key length"),
            AofError::MissingPayloadCount => String::from_str("Missing payload count"),
            AofError::MissingPayloadLength => String::from_str("Missing payload length"),
            AofError::InvalidPayloadItemLength => String::from_str("Invalid payload item length"),
            AofError::MissingChecksum => String::from_str("Missing checksum"),
            AofError::ChecksumMismatch { stored, computed } => {
                let mut out = String::from_str("Checksum mismatch: expected ");
                push_u64(&mut out, *stored);
                out.append(", got ");
                push_u64(&mut out, *computed);
                out
            },
        }
    }
}

/// A length as the format holds it: in 32 bits.
pub open spec fn len32(n: nat) -> u32 {
    (n as u64 % 0x1_0000_0000u64) as u32
}

/// One payload item on disk: its length, then its bytes.
pub open spec fn item_bytes(item: Seq<u8>) -> Seq<u8> {
    spec_u32_to_le_bytes(len32(item.len())) + item
}

/// The payload items on disk, one after the other.
pub open spec fn items_bytes(items: Seq<Seq<u8>>) -> Seq<u8>
    decreases items.len(),
{
    if items.len() == 0 {
        Seq::empty()
    } else {
        item_bytes(items[0]) + items_bytes(items.drop_first())
    }
}

/// An entry on disk without its checksum.
pub open spec fn entry_body(e: AofEntryView) -> Seq<u8> {
    seq![op_code(e.op)] + spec_u64_to_le_bytes(e.timestamp) + spec_u32_to_le_bytes(
        len32(e.key.len()),
    ) + e.key + spec_u32_to_le_bytes(len32(e.payload.len())) + items_bytes(e.payload)
}

/// An entry on disk: its body, then the checksum of the body.
pub open spec fn entry_bytes(e: AofEntryView) -> Seq<u8> {
    entry_body(e) + spec_u64_to_le_bytes(xxh64_digest(entry_body(e), 0))
}

/// Whether the lengths of `e` fit the 32 bits that the format gives them.
pub open spec fn fits_format(e: AofEntryView) -> bool {
    &&& e.key.len() <= u32::MAX
    &&& e.payload.len() <= u32::MAX
    &&& forall|i: int| 0 <= i < e.payload.len() ==> (#[trigger] e.payload[i]).len() <= u32::MAX
}

/// Reads `count` payload items of `data` from position `pos` on; gives the
/// items and the position after them.
pub open spec fn decode_items(data: Seq<u8>, pos: int, count: nat) -> Result<
    (Seq<Seq<u8>>, int),
    AofError,
>
    decreases count,
{
    if count == 0 {
        Ok((Seq::empty(), pos))
    } else if pos + 4 > data.len() {
        Err(AofError::MissingPayloadLength)
    } else {
        let n = spec_u32_from_le_bytes(data.subrange(pos, pos + 4)) as int;
        if pos + 4 + n > data.len() {
            Err(AofError::InvalidPayloadItemLength)
        } else {
            match decode_items(data, pos + 4 + n, (count - 1) as nat) {
                Ok((rest, end)) => Ok((seq![data.subrange(pos + 4, pos + 4 + n)] + rest, end)),
                Err(e) => Err(e),
            }
        }
    }
}

/// Reads one entry from the head of `data`; gives the entry and the number
/// of bytes it took.
pub open spec fn decode_entry(data: Seq<u8>) -> Result<(AofEntryView, int), AofError> {
    if data.len() < 17 {
        Err(AofError::InsufficientData)
    } else {
        match op_from_code(data[0]) {
            None => Err(AofError::InvalidOperation),
            Some(op) => {
                let timestamp = spec_u64_from_le_bytes(data.subrange(1, 9));
                let klen = spec_u32_from_le_bytes(data.subrange(9, 13)) as int;
                if 13 + klen > data.len() {
                    Err(AofError::InvalidKeyLength)
                } else if 13 + klen + 4 > data.len() {
                    Err(AofError::MissingPayloadCount)
                } else {
                    let count = spec_u32_from_le_bytes(data.subrange(13 + klen, 13 + klen + 4));
                    seal(
                        data,
                        op,
                        timestamp,
                        klen,
                        decode_items(data, 13 + klen + 4, count as nat),
                    )
                }
            },
        }
    }
}

/// Checks the checksum that follows the payload and makes the entry.
pub open spec fn seal(
    data: Seq<u8>,
    op: AofOperation,
    timestamp: u64,
    klen: int,
    items: Result<(Seq<Seq<u8>>, int), AofError>,
) -> Result<(AofEntryView, int), AofError> {
    match items {
        Err(e) => Err(e),
        Ok((payload, end)) => {
            if end + 8 > data.len() {
                Err(AofError::MissingChecksum)
            } else {
                let stored = spec_u64_from_le_bytes(data.subrange(end, end + 8));
                let computed = xxh64_digest(data.subrange(0, end), 0);
                if stored != computed {
                    Err(AofError::ChecksumMismatch { stored, computed })
                } else {
                    Ok(
                        (
                            AofEntryView {
                                op,
                                timestamp,
                                key: data.subrange(13, 13 + klen),
                                payload,
                            },
                            end + 8,
                        ),
                    )
                }
            }
        },
    }
}

/// `rest` with the items `done` in front.
pub open spec fn resume_items(
    done: Seq<Seq<u8>>,
    rest: Result<(Seq<Seq<u8>>, int), AofError>,
) -> Result<(Seq<Seq<u8>>, int), AofError> {
    match rest {
        Ok((items, end)) => Ok((done + items, end)),
        Err(e) => Err(e),
    }
}

/// The items `items` with `last` after them are on disk the bytes of
/// `items`, then those of `last`.
pub proof fn lemma_items_bytes_push(items: Seq<Seq<u8>>, last: Seq<u8>)
    ensures
        items_bytes(items.push(last)) == items_bytes(items) + item_bytes(last),
    decreases items.len(),
{
    let whole = items.push(last);
    if items.len() == 0 {
        assert(whole.drop_first() =~= Seq::<Seq<u8>>::empty());
        assert(items_bytes(whole.drop_first()) =~= Seq::<u8>::empty());
        assert(whole[0] == last);
        assert(items_bytes(whole) =~= items_bytes(items) + item_bytes(last));
    } else {
        lemma_items_bytes_push(items.drop_first(), last);
        assert(whole.drop_first() =~= items.drop_first().push(last));
        assert(whole[0] == items[0]);
        assert(items_bytes(whole) =~= items_bytes(items) + item_bytes(last));
    }
}

fn narrow(n: usize) -> (r: u32)
    ensures
        r == len32(n as nat),
{
    (n as u64 % 0x1_0000_0000u64) as u32
}

impl AofEntry {
    /// A new entry, stamped with the wall clock's present reading.
    pub fn new(op: AofOperation, key: Vec<u8>, payload: Vec<Vec<u8>>) -> (r: Self)
        ensures
            r@ == (AofEntryView {
                op,
                timestamp: r.timestamp,
                key: key@,
                payload: keys_view(payload@),
            }),
    {
        let timestamp = Clock::wall_millis();
        AofEntry { op, timestamp, key, payload }
    }

    /// A new entry with the given timestamp.
    pub fn with_timestamp(
        op: AofOperation,
        timestamp: u64,
        key: Vec<u8>,
        payload: Vec<Vec<u8>>,
    ) -> (r: Self)
        ensures
            r@ == (AofEntryView { op, timestamp, key: key@, payload: keys_view(payload@) }),
    {
        AofEntry { op, timestamp, key, payload }
    }

    /// The entry on disk, checksum included. A length that does not fit 32
    /// bits is written modulo 2^32.
    pub fn to_bytes(&self) -> (r: Vec<u8>)
        ensures
            r@ == entry_bytes(self@),
    {
        let mut buf: Vec<u8> = Vec::new();
        buf.push(self.op.to_u8());
        append_bytes(&mut buf, u64_to_le_bytes(self.timestamp).as_slice());
        append_bytes(&mut buf, u32_to_le_bytes(narrow(self.key.len())).as_slice());
        append_bytes(&mut buf, self.key.as_slice());
        append_bytes(&mut buf, u32_to_le_bytes(narrow(self.payload.len())).as_slice());
        let ghost head = buf@;
        let ghost items = keys_view(self.payload@);
        let mut i: usize = 0;
        while i < self.payload.len()
            invariant
                i <= self.payload@.len(),
                items == keys_view(self.payload@),
                buf@ == head + items_bytes(items.take(i as int)),
            decreases self.payload@.len() - i,
        {
            let item = &self.payload[i];
            proof {
                lemma_items_bytes_push(items.take(i as int), item@);
                assert(items.take(i + 1) =~= items.take(i as int).push(item@));
            }
            append_bytes(&mut buf, u32_to_le_bytes(narrow(item.len())).as_slice());
            append_bytes(&mut buf, item.as_slice());
            assert(buf@ =~= head + items_bytes(items.take(i + 1)));
            i += 1;
        }
        proof {
            assert(items.take(i as int) =~= items);
            assert(buf@ =~= entry_body(self@));
        }
        let checksum = xxh64(buf.as_slice(), 0);
        append_bytes(&mut buf, u64_to_le_bytes(checksum).as_slice());
        buf
    }

    /// Reads one entry from the head of `data` and checks its checksum; gives
    /// the entry and the number of bytes it took.
    pub fn decode(data: &[u8]) -> (r: Result<(AofEntry, usize), AofError>)
        ensures
            match r {
                Ok((entry, used)) => decode_entry(data@) == Ok::<
                    (AofEntryView, int),
                    AofError,
                >((entry@, used as int)) && MIN_ENTRY_SIZE <= used <= data@.len(),
                Err(e) => decode_entry(data@) == Err::<(AofEntryView, int), AofError>(e),
            },
    {
        let total = data.len();
        if total < 17 {
            return Err(AofError::InsufficientData);
        }
        let op = match AofOperation::from_u8(data[0]) {
            Some(op) => op,
            None => {
                return Err(AofError::InvalidOperation);
            },
        };
        let timestamp = u64_from_le_bytes(slice_subrange(data, 1, 9));
        let klen = u32_from_le_bytes(slice_subrange(data, 9, 13)) as usize;
        if klen > total - 13 {
            return Err(AofError::InvalidKeyLength);
        }
        let key = copy_bytes(slice_subrange(data, 13, 13 + klen));
        let mut pos: usize = 13 + klen;
        if total - pos < 4 {
            return Err(AofError::MissingPayloadCount);
        }
        let count = u32_from_le_bytes(slice_subrange(data, pos, pos + 4));
        pos = pos + 4;
        let ghost first = pos as int;
        let mut payload: Vec<Vec<u8>> = Vec::new();
        let mut k: u32 = 0;
        proof {
            let all = decode_items(data@, first, count as nat);
            if all is Ok {
                assert(Seq::<Seq<u8>>::empty() + all->Ok_0.0 =~= all->Ok_0.0);
            }
        }
        assert(decode_entry(data@) == seal(
            data@,
            op,
            timestamp,
            klen as int,
            decode_items(data@, first, count as nat),
        ));
        assert(key@ == data@.subrange(13, 13 + klen));
        while k < count
            invariant
                k <= count,
                total == data@.len(),
                first <= pos <= total,
                decode_entry(data@) == seal(
                    data@,
                    op,
                    timestamp,
                    klen as int,
                    decode_items(data@, first, count as nat),
                ),
                decode_items(data@, first, count as nat) == resume_items(
                    keys_view(payload@),
                    decode_items(data@, pos as int, (count - k) as nat),
                ),
            decreases count - k,
        {
            if total - pos < 4 {
                return Err(AofError::MissingPayloadLength);
            }
            let n = u32_from_le_bytes(slice_subrange(data, pos, pos + 4)) as usize;
            if n > total - pos - 4 {
                return Err(AofError::InvalidPayloadItemLength);
            }
            let item = copy_bytes(slice_subrange(data, pos + 4, pos + 4 + n));
            let ghost before = keys_view(payload@);
            payload.push(item);
            proof {
                assert(keys_view(payload@) =~= before.push(item@));
                let tail = decode_items(data@, pos + 4 + n, (count - k - 1) as nat);
                if tail is Ok {
                    assert(before + (seq![item@] + tail->Ok_0.0) =~= before.push(item@)
                        + tail->Ok_0.0);
                }
            }
            pos = pos + 4 + n;
            k = k + 1;
        }
        proof {
            assert(keys_view(payload@) + Seq::<Seq<u8>>::empty() =~= keys_view(payload@));
        }
        if total - pos < 8 {
            return Err(AofError::MissingChecksum);
        }
        let stored = u64_from_le_bytes(slice_subrange(data, pos, pos + 8));
        let computed = xxh64(slice_subrange(data, 0, pos), 0);
        if stored != computed {
            return Err(AofError::ChecksumMismatch { stored, computed });
        }
        Ok((AofEntry { op, timestamp, key, payload }, pos + 8))
    }

    /// Reads one entry from the head of `data` and checks its checksum; gives
    /// the entry and the number of bytes it took, or the error in words.
    pub fn from_bytes(data: &[u8]) -> (r: Result<(AofEntry, usize), String>)
        ensures
            match r {
                Ok((entry, used)) => decode_entry(data@) == Ok::<
                    (AofEntryView, int),
                    AofError,
                >((entry@, used as int)) && MIN_ENTRY_SIZE <= used <= data@.len(),
                Err(message) => decode_entry(data@) is Err && message@
                    == decode_entry(data@)->Err_0.text(),
            },
    {
        match Self::decode(data) {
            Ok(done) => Ok(done),
            Err(e) => Err(e.message()),
        }
    }
}

} // verus!
