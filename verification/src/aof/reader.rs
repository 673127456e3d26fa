//! Reading the append-only log back.

use vstd::prelude::*;
use vstd::slice::slice_subrange;
use crate::aof::entry::decode_entry;
use crate::aof::entry::AofEntry;
use crate::aof::entry::AofEntryView;

verus! {

/// The entries of a log: those that can be read from its head, one after
/// the other, up to the first that cannot.
pub open spec fn decode_all(data: Seq<u8>) -> Seq<AofEntryView>
    decreases data.len(),
{
    if data.len() == 0 {
        Seq::empty()
    } else {
        match decode_entry(data) {
            Ok((entry, used)) => if 0 < used <= data.len() {
                seq![entry] + decode_all(data.skip(used))
            } else {
                Seq::empty()
            },
            Err(_) => Seq::empty(),
        }
    }
}

/// The entries that `entries` stand for.
pub open spec fn entries_view(entries: Seq<AofEntry>) -> Seq<AofEntryView> {
    entries.map_values(|e: AofEntry| e@)
}

/// The bytes of a log, held in memory.
pub struct AofReader {
    data: Vec<u8>,
}

impl View for AofReader {
    type V = Seq<u8>;

    closed spec fn view(&self) -> Seq<u8> {
        self.data@
    }
}

impl AofReader {
    /// A reader over the bytes of a log.
    pub fn from_data(data: Vec<u8>) -> (r: Self)
        ensures
            r@ == data@,
    {
        AofReader { data }
    }

    /// The well-formed entries at the head of the log. Reading stops at the
    /// first entry that is cut short, malformed or fails its checksum; what
    /// follows it is not looked at.
    pub fn parse_entries(&self) -> (r: Vec<AofEntry>)
        ensures
            entries_view(r@) == decode_all(self@),
    {
        let total = self.data.len();
        let mut entries: Vec<AofEntry> = Vec::new();
        let mut pos: usize = 0;
        proof {
            assert(self.data@.skip(0) =~= self.data@);
            assert(entries_view(entries@) + decode_all(self.data@) =~= decode_all(self.data@));
        }
        while pos < total
            invariant
                pos <= total,
                total == self.data@.len(),
                decode_all(self.data@) == entries_view(entries@) + decode_all(
                    self.data@.skip(pos as int),
                ),
            decreases total - pos,
        {
            let rest = slice_subrange(self.data.as_slice(), pos, total);
            assert(rest@ =~= self.data@.skip(pos as int));
            match AofEntry::decode(rest) {
                Ok((entry, used)) => {
                    let ghost before = entries_view(entries@);
                    entries.push(entry);
                    proof {
                        assert(entries_view(entries@) =~= before.push(entry@));
                        assert(rest@.skip(used as int) =~= self.data@.skip(pos + used));
                        assert(before + (seq![entry@] + decode_all(rest@.skip(used as int)))
                            =~= before.push(entry@) + decode_all(rest@.skip(used as int)));
                    }
                    pos = pos + used;
                },
                Err(_) => {
                    proof {
                        assert(entries_view(entries@) + Seq::<AofEntryView>::empty()
                            =~= entries_view(entries@));
                    }
                    return entries;
                },
            }
        }
        proof {
            assert(entries_view(entries@) + Seq::<AofEntryView>::empty() =~= entries_view(
                entries@,
            ));
        }
        entries
    }

    /// The size of the log in bytes.
    pub fn size(&self) -> (r: usize)
        ensures
            r == self@.len(),
    {
        self.data.len()
    }
}

} // verus!
