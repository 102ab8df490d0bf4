//! Structural model of a Package container and its repacking operations.
//!
//! A Package is a header-resident table of stream entries — id, absolute
//! byte offset, byte length — followed by one contiguous body of stream
//! bytes.  Repacking recomputes the whole table from a directory of loose
//! files and lays the body out gaplessly in entry order, starting at the
//! format's header-size offset.

use vstd::prelude::*;

use crate::loose::all_names_valid;
use crate::loose::build_loose_map;
use crate::loose::ids_complete;
use crate::loose::loose_map;
use crate::loose::wem_map_get;
use crate::loose::wem_map_of;

verus! {

/// One stream entry of a Package header.
#[derive(Clone, Copy, Debug, PartialEq, Eq)]
pub struct PckWemEntry {
    pub id: u32,
    pub offset: u32,
    pub length: u32,
}

/// The structural model of a Package header: where the body starts, and the
/// table of stream entries in body order.
#[derive(Clone, Debug, PartialEq, Eq)]
pub struct PckHeader {
    pub wem_offset_start: u32,
    pub wem_entries: Vec<PckWemEntry>,
}

/// A read-only summary of a Package: its header, and whether the file also
/// carries the body bytes or is a header-only export.
#[derive(Clone, Debug, PartialEq, Eq)]
pub struct PckBasicData {
    pub header: PckHeader,
    pub has_data: bool,
}

/// Failures of the Package repacking operations.
#[derive(Clone, Debug, PartialEq, Eq)]
pub enum PckError {
    /// An entry id for which the loose-file set offers no data.
    MissingSource { id: u32 },
    /// A loose file whose name is not a numeric stream id.
    InvalidFileName { name: String },
    /// The repacked body would run past the largest offset the format can
    /// store.
    OffsetOverflow,
    /// An entry's offset and length reach past the end of the file.
    OutOfBounds { id: u32 },
}

impl PckHeader {
    /// The format-defined offset at which the first stream's bytes sit; the
    /// container reader computes it from the header it parsed.
    pub fn get_wem_offset_start(&self) -> (r: u32)
        ensures
            r == self.wem_offset_start,
    {
        self.wem_offset_start
    }
}

/// The ids of a stream-entry table, in order.
pub open spec fn entry_ids(entries: Seq<PckWemEntry>) -> Seq<u32> {
    Seq::new(entries.len(), |i: int| entries[i].id)
}

/// The byte count of the first `i` loose files, taken in id order.
pub open spec fn total_len(ids: Seq<u32>, lm: Map<u32, Seq<u8>>, i: int) -> nat
    decreases i,
{
    if i <= 0 {
        0
    } else {
        total_len(ids, lm, i - 1) + lm[ids[i - 1]].len()
    }
}

/// The first `i` loose files concatenated in id order.
pub open spec fn concat_loose(ids: Seq<u32>, lm: Map<u32, Seq<u8>>, i: int) -> Seq<u8>
    decreases i,
{
    if i <= 0 {
        seq![]
    } else {
        concat_loose(ids, lm, i - 1) + lm[ids[i - 1]]
    }
}

/// The concatenation is as long as the lengths it sums.
proof fn lemma_concat_loose_len(ids: Seq<u32>, lm: Map<u32, Seq<u8>>, i: int)
    requires
        i >= 0,
    ensures
        concat_loose(ids, lm, i).len() == total_len(ids, lm, i),
    decreases i,
{
    if i > 0 {
        lemma_concat_loose_len(ids, lm, i - 1);
    }
}

/// Inside the concatenation, the i-th file sits exactly at the running
/// offset of the files before it.
proof fn lemma_concat_loose_slice(ids: Seq<u32>, lm: Map<u32, Seq<u8>>, i: int, n: int)
    requires
        0 <= i < n,
    ensures
        concat_loose(ids, lm, n).subrange(
            total_len(ids, lm, i) as int,
            total_len(ids, lm, i) as int + lm[ids[i]].len(),
        ) == lm[ids[i]],
    decreases n,
{
    lemma_concat_loose_len(ids, lm, n - 1);
    lemma_concat_loose_len(ids, lm, i);
    if i == n - 1 {
        assert(concat_loose(ids, lm, n) == concat_loose(ids, lm, n - 1) + lm[ids[i]]);
        assert((concat_loose(ids, lm, n - 1) + lm[ids[i]]).subrange(
            total_len(ids, lm, i) as int,
            total_len(ids, lm, i) as int + lm[ids[i]].len(),
        ) =~= lm[ids[i]]);
    } else {
        lemma_concat_loose_slice(ids, lm, i, n - 1);
        assert(total_len(ids, lm, i) + lm[ids[i]].len() <= total_len(ids, lm, n - 1)) by {
            lemma_total_len_mono(ids, lm, i + 1, n - 1);
        }
        assert((concat_loose(ids, lm, n - 1) + lm[ids[n - 1]]).subrange(
            total_len(ids, lm, i) as int,
            total_len(ids, lm, i) as int + lm[ids[i]].len(),
        ) =~= concat_loose(ids, lm, n - 1).subrange(
            total_len(ids, lm, i) as int,
            total_len(ids, lm, i) as int + lm[ids[i]].len(),
        ));
    }
}

/// The running offset never shrinks.
proof fn lemma_total_len_mono(ids: Seq<u32>, lm: Map<u32, Seq<u8>>, i: int, j: int)
    requires
        0 <= i <= j,
    ensures
        total_len(ids, lm, i) <= total_len(ids, lm, j),
    decreases j - i,
{
    if i < j {
        lemma_total_len_mono(ids, lm, i, j - 1);
    }
}

/// Recompute a Package header's entry table from a set of loose files and
/// lay out the new body, one file per entry, in entry order.
///
/// Every entry keeps its id; its length becomes the size of the loose file
/// of that id, and its offset the running total of the lengths before it,
/// seeded at the header's format-defined start offset.  The returned body is
/// the concatenation of the loose bytes in entry order, so the byte range
/// `[offset - start, offset - start + length)` of the body is exactly the
/// loose file of the matching entry.  On any failure the header is left
/// exactly as it was and no body is produced.
pub fn repack(header: &mut PckHeader, files: &Vec<(String, Vec<u8>)>) -> (r: Result<
    Vec<u8>,
    PckError,
>)
    ensures
        !all_names_valid(files@) ==> (r matches Err(e) && (e
            matches PckError::InvalidFileName { name } && exists|i: int|
            0 <= i < files@.len() && name@ == (#[trigger] files@[i]).0@)) && *final(header)
            == *old(header),
        all_names_valid(files@) && !ids_complete(
            entry_ids(old(header).wem_entries@),
            loose_map(files@),
        ) ==> (r matches Err(e) && (e matches PckError::MissingSource { id } && entry_ids(
            old(header).wem_entries@,
        ).contains(id) && !loose_map(files@).contains_key(id))) && *final(header) == *old(header),
        all_names_valid(files@) && ids_complete(
            entry_ids(old(header).wem_entries@),
            loose_map(files@),
        ) && old(header).wem_offset_start + total_len(
            entry_ids(old(header).wem_entries@),
            loose_map(files@),
            old(header).wem_entries@.len() as int,
        ) > u32::MAX ==> (r matches Err(PckError::OffsetOverflow)) && *final(header) == *old(
            header,
        ),
        all_names_valid(files@) && ids_complete(
            entry_ids(old(header).wem_entries@),
            loose_map(files@),
        ) && old(header).wem_offset_start + total_len(
            entry_ids(old(header).wem_entries@),
            loose_map(files@),
            old(header).wem_entries@.len() as int,
        ) <= u32::MAX ==> {
            let ids = entry_ids(old(header).wem_entries@);
            let lm = loose_map(files@);
            let n = old(header).wem_entries@.len() as int;
            let start = old(header).wem_offset_start;
            &&& r matches Ok(body) && {
                &&& body@ == concat_loose(ids, lm, n)
                &&& body@.len() == total_len(ids, lm, n)
                &&& forall|i: int|
                    0 <= i < n ==> body@.subrange(
                        final(header).wem_entries@[i].offset - start,
                        final(header).wem_entries@[i].offset - start
                            + final(header).wem_entries@[i].length,
                    ) == lm[ids[i]]
            }
            &&& final(header).wem_offset_start == start
            &&& final(header).wem_entries@.len() == n
            &&& forall|i: int| 0 <= i < n ==> (#[trigger] final(header).wem_entries@[i]).id == ids[i]
            &&& forall|i: int|
                0 <= i < n ==> (#[trigger] final(header).wem_entries@[i]).length == lm[ids[i]].len()
            &&& forall|i: int|
                0 <= i < n ==> (#[trigger] final(header).wem_entries@[i]).offset == start
                    + total_len(ids, lm, i)
        },
{
    let ghost ids: Seq<u32> = entry_ids(header.wem_entries@);
    let ghost lm: Map<u32, Seq<u8>> = loose_map(files@);
    let n = header.wem_entries.len();
    let start = header.get_wem_offset_start();
    // Index the loose files by id.
    let map = match build_loose_map(files) {
        Result::Ok(m) => m,
        Result::Err(name) => {
            return Result::Err(PckError::InvalidFileName { name });
        },
    };
    // Require a loose file for every entry before touching anything.
    let mut i: usize = 0;
    while i < n
        invariant
            *header == *old(header),
            n == header.wem_entries@.len(),
            ids == entry_ids(header.wem_entries@),
            all_names_valid(files@),
            wem_map_of(map) == lm,
            lm == loose_map(files@),
            i <= n,
            forall|t: int| 0 <= t < i ==> lm.contains_key(#[trigger] ids[t]),
        decreases n - i,
    {
        let id = header.wem_entries[i].id;
        match wem_map_get(&map, id) {
            Option::Some(_) => {},
            Option::None => {
                proof {
                    assert(ids.contains(ids[i as int]));
                }
                return Result::Err(PckError::MissingSource { id });
            },
        }
        i = i + 1;
    }
    // Recompute the table and concatenate the body, in entry order.
    let mut new_entries: Vec<PckWemEntry> = Vec::new();
    let mut body: Vec<u8> = Vec::new();
    let mut next_offset: u32 = start;
    let mut j: usize = 0;
    while j < n
        invariant
            *header == *old(header),
            n == header.wem_entries@.len(),
            ids == entry_ids(header.wem_entries@),
            all_names_valid(files@),
            wem_map_of(map) == lm,
            lm == loose_map(files@),
            ids_complete(ids, lm),
            start == header.wem_offset_start,
            j <= n,
            next_offset == start + total_len(ids, lm, j as int),
            body@ == concat_loose(ids, lm, j as int),
            new_entries@.len() == j,
            forall|t: int| 0 <= t < j ==> (#[trigger] new_entries@[t]).id == ids[t],
            forall|t: int|
                0 <= t < j ==> (#[trigger] new_entries@[t]).length == lm[ids[t]].len(),
            forall|t: int|
                0 <= t < j ==> (#[trigger] new_entries@[t]).offset == start + total_len(
                    ids,
                    lm,
                    t,
                ),
        decreases n - j,
    {
        let id = header.wem_entries[j].id;
        let data = match wem_map_get(&map, id) {
            Option::Some(d) => d,
            Option::None => {
                proof {
                    assert(lm.contains_key(ids[j as int]));
                    assert(false);
                }
                return Result::Err(PckError::MissingSource { id });
            },
        };
        if data.len() > (u32::MAX - next_offset) as usize {
            proof {
                lemma_total_len_mono(ids, lm, j + 1, n as int);
            }
            return Result::Err(PckError::OffsetOverflow);
        }
        let length = data.len() as u32;
        new_entries.push(PckWemEntry { id, offset: next_offset, length });
        append_bytes(&mut body, data);
        next_offset = next_offset + length;
        j = j + 1;
    }
    header.wem_entries = new_entries;
    proof {
        lemma_concat_loose_len(ids, lm, n as int);
        assert forall|i2: int| 0 <= i2 < n implies body@.subrange(
            final(header).wem_entries@[i2].offset - start,
            final(header).wem_entries@[i2].offset - start + final(header).wem_entries@[i2].length,
        ) == lm[ids[i2]] by {
            lemma_concat_loose_slice(ids, lm, i2, n as int);
        }
    }
    Result::Ok(body)
}

/// Append one byte vector to another.
fn append_bytes(dst: &mut Vec<u8>, src: &Vec<u8>) -> (nothing: ())
    ensures
        final(dst)@ == old(dst)@ + src@,
{
    let mut t: usize = 0;
    while t < src.len()
        invariant
            t <= src.len(),
            dst@ == old(dst)@ + src@.take(t as int),
        decreases src.len() - t,
    {
        dst.push(src[t]);
        proof {
            assert(old(dst)@ + src@.take(t as int) + seq![src@[t as int]] =~= old(dst)@
                + src@.take(t + 1));
        }
        t = t + 1;
    }
    proof {
        assert(old(dst)@ + src@.take(src@.len() as int) =~= old(dst)@ + src@);
    }
}

/// Cut one stream out of a Package file's bytes, as its entry addresses it.
///
/// Succeeds exactly when the entry's offset and length stay inside the file,
/// and then returns the addressed bytes unchanged.
pub fn wem_slice(file: &Vec<u8>, entry: &PckWemEntry) -> (r: Result<Vec<u8>, PckError>)
    ensures
        entry.offset + entry.length <= file@.len() <==> r is Ok,
        r matches Ok(b) ==> b@ == file@.subrange(
            entry.offset as int,
            entry.offset + entry.length,
        ),
        r matches Err(e) ==> e == (PckError::OutOfBounds { id: entry.id }),
{
    let off = entry.offset as usize;
    let len = entry.length as usize;
    if off > file.len() || len > file.len() - off {
        return Result::Err(PckError::OutOfBounds { id: entry.id });
    }
    let mut out: Vec<u8> = Vec::new();
    let mut t: usize = 0;
    while t < len
        invariant
            off + len <= file@.len(),
            file@.len() <= usize::MAX,
            t <= len,
            out@ == file@.subrange(off as int, off + t),
        decreases len - t,
    {
        out.push(file[off + t]);
        proof {
            assert(file@.subrange(off as int, off + t) + seq![file@[off + t]] =~= file@.subrange(
                off as int,
                off + t + 1,
            ));
        }
        t = t + 1;
    }
    Result::Ok(out)
}

} // verus!
