//! `tis` file: a collection of `tim` files

use vstd::prelude::*;
use crate::img::remaining;
use crate::le::{le_u16, le_u32, read_u16_at, read_u32_at};
use crate::tim::{self, spec_tim, Tim, TimView};

verus! {

/// Error type for [`Tis::deserialize`]
#[derive(PartialEq, Eq, Clone, Copy, Debug, Structural)]
pub enum DeserializeError {
    /// Unable to read magic
    ReadMagic,
    /// Invalid magic
    InvalidMagic(u16),
    /// Unable to read entries len
    ReadEntriesLen,
    /// Unable to read entries
    ReadEntries,
    /// Unable to seek to tim
    SeekTim,
    /// Unable to deserialize tim
    DeserializeTim(tim::DeserializeError),
}

/// `tis` file
#[derive(PartialEq, Eq, Clone, Debug)]
pub struct Tis {
    /// All tims
    pub tims: Vec<Tim>,
}

impl View for Tis {
    type V = Seq<TimView>;

    open spec fn view(&self) -> Seq<TimView> {
        Seq::new(self.tims@.len(), |i: int| self.tims@[i]@)
    }
}

/// The magic number that a `tis` file starts with.
pub const TIS_MAGIC: u16 = 0x7054;

/// The `i`-th entry of the table of a `tis` file.
pub open spec fn entry_at(s: Seq<u8>, i: int) -> u32 {
    le_u32(s, 4 + 4 * i) as u32
}

/// The position of the `tim` file that an entry points to: the entry counts
/// words, and the position wraps as a release build of `u32` multiplication
/// does.
pub open spec fn tim_pos(entry: u32) -> int {
    (4 * entry) % 0x1_0000_0000
}

/// The `tim` files that entries `i..n` point to, or the first error among them.
pub open spec fn spec_tims_from(s: Seq<u8>, n: int, i: int) -> Result<Seq<TimView>, DeserializeError>
    decreases n - i,
{
    if i >= n {
        Ok(Seq::empty())
    } else {
        match spec_tim(s, tim_pos(entry_at(s, i))) {
            Err(e) => Err(DeserializeError::DeserializeTim(e)),
            Ok((t, _)) => match spec_tims_from(s, n, i + 1) {
                Ok(ts) => Ok(seq![t] + ts),
                Err(e) => Err(e),
            },
        }
    }
}

/// `prefix` followed by the tims of `rest`, or the error of `rest`.
pub open spec fn prepend(prefix: Seq<TimView>, rest: Result<Seq<TimView>, DeserializeError>) -> Result<Seq<TimView>, DeserializeError> {
    match rest {
        Ok(ts) => Ok(prefix + ts),
        Err(e) => Err(e),
    }
}

/// The `tis` file `s`: the magic `0x7054`, the number of entries, a table of
/// that many `u32` entries, then the `tim` files that each entry points to.
pub open spec fn spec_tis(s: Seq<u8>) -> Result<Seq<TimView>, DeserializeError> {
    if s.len() < 2 {
        Err(DeserializeError::ReadMagic)
    } else if le_u16(s, 0) != TIS_MAGIC {
        Err(DeserializeError::InvalidMagic(le_u16(s, 0) as u16))
    } else if s.len() < 4 {
        Err(DeserializeError::ReadEntriesLen)
    } else if s.len() < 4 + 4 * le_u16(s, 2) {
        Err(DeserializeError::ReadEntries)
    } else {
        spec_tims_from(s, le_u16(s, 2), 0)
    }
}

impl Tis {
    /// Deserializes a tis file
    pub fn deserialize(bytes: &[u8]) -> (res: Result<Self, DeserializeError>)
        ensures
            match res {
                Ok(tis) => spec_tis(bytes@) == Ok::<Seq<TimView>, DeserializeError>(tis@),
                Err(e) => spec_tis(bytes@) == Err::<Seq<TimView>, DeserializeError>(e),
            },
    {
        let len = bytes.len();
        let ghost s = bytes@;

        // Read and validate the magic
        if len < 2 {
            return Err(DeserializeError::ReadMagic);
        }
        let magic = read_u16_at(bytes, 0);
        if magic != TIS_MAGIC {
            return Err(DeserializeError::InvalidMagic(magic));
        }

        // Then read the number of entries and all entries
        if len < 4 {
            return Err(DeserializeError::ReadEntriesLen);
        }
        let entries_len = read_u16_at(bytes, 2) as usize;
        if entries_len > (len - 4) / 4 {
            return Err(DeserializeError::ReadEntries);
        }
        let mut entries: Vec<u32> = Vec::new();
        let mut i: usize = 0;
        while i < entries_len
            invariant
                s == bytes@,
                len == s.len(),
                4 + 4 * entries_len <= len,
                i <= entries_len,
                entries@ =~= Seq::new(i as nat, |j: int| entry_at(s, j)),
            decreases entries_len - i,
        {
            entries.push(read_u32_at(bytes, 4 + 4 * i));
            i = i + 1;
        }

        // Then read all tims
        let mut tims: Vec<Tim> = Vec::new();
        let mut i: usize = 0;
        while i < entries_len
            invariant
                s == bytes@,
                spec_tis(s) == spec_tims_from(s, entries_len as int, 0),
                entries@ == Seq::new(entries_len as nat, |j: int| entry_at(s, j)),
                i <= entries_len,
                spec_tims_from(s, entries_len as int, 0) == prepend(
                    Seq::new(tims@.len(), |j: int| tims@[j]@),
                    spec_tims_from(s, entries_len as int, i as int),
                ),
            decreases entries_len - i,
        {
            let ghost prefix = Seq::new(tims@.len(), |j: int| tims@[j]@);
            let pos = entries[i].wrapping_mul(4);
            assert(pos == tim_pos(entry_at(s, i as int))) by (nonlinear_arith)
                requires
                    pos == ((entries@[i as int] as nat * 4nat) % 0x1_0000_0000nat),
                    entries@[i as int] == entry_at(s, i as int),
            ;
            match Tim::deserialize(bytes, pos as usize) {
                Err(e) => return Err(DeserializeError::DeserializeTim(e)),
                Ok((tim, _)) => {
                    let ghost t = tim@;
                    tims.push(tim);
                    assert(Seq::new(tims@.len(), |j: int| tims@[j]@) =~= prefix.push(t));
                    proof {
                        let rest = spec_tims_from(s, entries_len as int, i + 1);
                        if let Ok(ts) = rest {
                            assert(prefix + (seq![t] + ts) =~= prefix.push(t) + ts);
                        }
                    }
                },
            }
            i = i + 1;
        }
        assert(Seq::new(tims@.len(), |j: int| tims@[j]@) + Seq::<TimView>::empty() =~= Seq::new(tims@.len(), |j: int| tims@[j]@));
        Ok(Tis { tims })
    }
}

/// The tims from entry `i` on are each the `tim` file that its entry points
/// to, read on its own.
proof fn lemma_tims_from(s: Seq<u8>, n: int, i: int)
    requires
        0 <= i <= n,
        spec_tims_from(s, n, i) is Ok,
    ensures
        spec_tims_from(s, n, i)->Ok_0.len() == n - i,
        forall|j: int| i <= j < n ==> {
            &&& #[trigger] spec_tim(s, tim_pos(entry_at(s, j))) is Ok
            &&& spec_tim(s, tim_pos(entry_at(s, j)))->Ok_0.0 == spec_tims_from(s, n, i)->Ok_0[j - i]
        },
    decreases n - i,
{
    if i < n {
        lemma_tims_from(s, n, i + 1);
        let ts = spec_tims_from(s, n, i + 1)->Ok_0;
        let t = spec_tim(s, tim_pos(entry_at(s, i)))->Ok_0.0;
        assert(spec_tims_from(s, n, i)->Ok_0 == seq![t] + ts);
        assert forall|j: int| i <= j < n implies {
            &&& #[trigger] spec_tim(s, tim_pos(entry_at(s, j))) is Ok
            &&& spec_tim(s, tim_pos(entry_at(s, j)))->Ok_0.0 == spec_tims_from(s, n, i)->Ok_0[j - i]
        } by {
            if j > i {
                assert((seq![t] + ts)[j - i] == ts[j - (i + 1)]);
            }
        }
    }
}

/// The `i`-th tim of a `tis` file is the `tim` file that its `i`-th entry
/// points to, read on its own; there are as many tims as entries.
pub proof fn lemma_tis_tims(s: Seq<u8>)
    requires
        spec_tis(s) is Ok,
    ensures
        spec_tis(s)->Ok_0.len() == le_u16(s, 2),
        forall|i: int| 0 <= i < le_u16(s, 2) ==> {
            &&& #[trigger] spec_tim(s, tim_pos(entry_at(s, i))) is Ok
            &&& spec_tim(s, tim_pos(entry_at(s, i)))->Ok_0.0 == spec_tis(s)->Ok_0[i]
        },
{
    lemma_tims_from(s, le_u16(s, 2), 0);
}

} // verus!
