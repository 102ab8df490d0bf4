//! Structural model of a SoundBank container and its editing operations.
//!
//! A SoundBank is an ordered sequence of sections.  Each section carries a
//! four-byte magic identifier (held here as its little-endian `u32` value) and
//! a payload: an index of stream ids (`Didx`), a list of raw stream data
//! blocks (`Data`), or opaque bytes left untouched.  The format correlates the
//! i-th index entry with the i-th data block by position, so every edit must
//! keep the two sequences consistent.

use vstd::prelude::*;

use crate::loose::all_names_valid;
use crate::loose::build_loose_map;
use crate::loose::copy_bytes;
use crate::loose::ids_complete;
use crate::loose::loose_map;
use crate::loose::wem_map_get;
use crate::loose::wem_map_of;

verus! {

/// Little-endian `u32` value of the magic bytes of an index section.
pub const DIDX_MAGIC: u32 = 0x5844_4944;

/// Little-endian `u32` value of the magic bytes of a data section.
pub const DATA_MAGIC: u32 = 0x4154_4144;

/// One entry of an index section: the numeric id of a stream.
#[derive(Clone, Copy, Debug, PartialEq, Eq)]
pub struct DidxEntry {
    pub id: u32,
}

/// The payload of one section.
#[derive(Clone, Debug, PartialEq, Eq)]
pub enum SectionPayload {
    /// Index of stream ids, in the order their data blocks appear.
    Didx { entries: Vec<DidxEntry> },
    /// Raw encoded stream bytes, one block per index entry.
    Data { data_list: Vec<Vec<u8>> },
    /// Any other section, carried through unmodified.
    Opaque { bytes: Vec<u8> },
}

/// One section of a SoundBank: a magic identifier and a payload.
#[derive(Clone, Debug, PartialEq, Eq)]
pub struct Section {
    pub magic: u32,
    pub payload: SectionPayload,
}

/// The structural model of a whole SoundBank.
#[derive(Clone, Debug, PartialEq, Eq)]
pub struct Bnk {
    pub sections: Vec<Section>,
}

/// Mathematical model of a section payload.
pub enum PayloadV {
    Didx(Seq<u32>),
    Data(Seq<Seq<u8>>),
    Opaque(Seq<u8>),
}

/// Mathematical model of a section.
pub struct SectionV {
    pub magic: u32,
    pub payload: PayloadV,
}

impl View for SectionPayload {
    type V = PayloadV;

    open spec fn view(&self) -> PayloadV {
        match self {
            SectionPayload::Didx { entries } => PayloadV::Didx(
                Seq::new(entries@.len(), |i: int| entries@[i].id),
            ),
            SectionPayload::Data { data_list } => PayloadV::Data(
                Seq::new(data_list@.len(), |i: int| data_list@[i]@),
            ),
            SectionPayload::Opaque { bytes } => PayloadV::Opaque(bytes@),
        }
    }
}

impl View for Section {
    type V = SectionV;

    open spec fn view(&self) -> SectionV {
        SectionV { magic: self.magic, payload: self.payload@ }
    }
}

impl View for Bnk {
    type V = Seq<SectionV>;

    open spec fn view(&self) -> Seq<SectionV> {
        sections_view(&self.sections)
    }
}

/// The mathematical model of a section list.
pub open spec fn sections_view(v: &Vec<Section>) -> Seq<SectionV> {
    Seq::new(v@.len(), |i: int| v@[i]@)
}

/// Whether a section holds an index payload.
pub open spec fn is_didx(s: SectionV) -> bool {
    s.payload matches PayloadV::Didx(_)
}

/// Whether a section holds a data payload.
pub open spec fn is_data(s: SectionV) -> bool {
    s.payload matches PayloadV::Data(_)
}

/// The index entries of a section, or the empty sequence for other payloads.
pub open spec fn payload_ids(p: PayloadV) -> Seq<u32> {
    match p {
        PayloadV::Didx(ids) => ids,
        _ => seq![],
    }
}

/// The data blocks of a section, or the empty sequence for other payloads.
pub open spec fn payload_blocks(p: PayloadV) -> Seq<Seq<u8>> {
    match p {
        PayloadV::Data(blocks) => blocks,
        _ => seq![],
    }
}

/// A data section with the same magic and no blocks.
pub open spec fn emptied(s: SectionV) -> SectionV {
    SectionV { magic: s.magic, payload: PayloadV::Data(seq![]) }
}

/// The section list that filtering with allow-list `filter` leaves behind:
/// sections whose magic is in the list stay unchanged; data sections outside
/// the list are emptied but keep their place; every other section outside the
/// list is removed.
pub open spec fn filtered_sections(s: Seq<SectionV>, filter: Seq<u32>) -> Seq<SectionV>
    decreases s.len(),
{
    if s.len() == 0 {
        seq![]
    } else {
        let tail = filtered_sections(s.skip(1), filter);
        if filter.contains(s[0].magic) {
            seq![s[0]] + tail
        } else if is_data(s[0]) {
            seq![emptied(s[0])] + tail
        } else {
            tail
        }
    }
}

/// How many sections hold a data payload.
pub open spec fn data_count(s: Seq<SectionV>) -> nat
    decreases s.len(),
{
    if s.len() == 0 {
        0
    } else {
        (if is_data(s[0]) {
            1nat
        } else {
            0nat
        }) + data_count(s.skip(1))
    }
}

/// The ids of every index section, concatenated in container order.
pub open spec fn all_didx_ids(s: Seq<SectionV>) -> Seq<u32>
    decreases s.len(),
{
    if s.len() == 0 {
        seq![]
    } else {
        payload_ids(s[0].payload) + all_didx_ids(s.skip(1))
    }
}

/// The blocks of every data section, concatenated in container order.
pub open spec fn all_data_blocks(s: Seq<SectionV>) -> Seq<Seq<u8>>
    decreases s.len(),
{
    if s.len() == 0 {
        seq![]
    } else {
        payload_blocks(s[0].payload) + all_data_blocks(s.skip(1))
    }
}

/// What the container reader guarantees of a loaded SoundBank: the kind of a
/// section's payload is determined by its magic.
pub open spec fn wf_sections(s: Seq<SectionV>) -> bool {
    forall|i: int|
        0 <= i < s.len() ==> {
            &&& (is_didx(#[trigger] s[i]) <==> s[i].magic == DIDX_MAGIC)
            &&& (is_data(s[i]) <==> s[i].magic == DATA_MAGIC)
        }
}

/// What filtering does to the index ids, the data blocks and the section
/// counts of a well-formed container: data sections are never removed, only
/// emptied; index ids survive unchanged exactly when the index magic is on
/// the allow-list; data blocks survive unchanged exactly when the data magic
/// is.
pub proof fn lemma_filtered_ids_blocks(s: Seq<SectionV>, filter: Seq<u32>)
    requires
        wf_sections(s),
    ensures
        wf_sections(filtered_sections(s, filter)),
        data_count(filtered_sections(s, filter)) == data_count(s),
        filter.contains(DIDX_MAGIC) ==> all_didx_ids(filtered_sections(s, filter)) == all_didx_ids(
            s,
        ),
        !filter.contains(DIDX_MAGIC) ==> all_didx_ids(filtered_sections(s, filter))
            == Seq::<u32>::empty(),
        filter.contains(DATA_MAGIC) ==> all_data_blocks(filtered_sections(s, filter))
            == all_data_blocks(s),
        !filter.contains(DATA_MAGIC) ==> all_data_blocks(filtered_sections(s, filter))
            == Seq::<Seq<u8>>::empty(),
    decreases s.len(),
{
    if s.len() == 0 {
    } else {
        let tail = s.skip(1);
        assert(wf_sections(tail)) by {
            assert(forall|i: int| 0 <= i < tail.len() ==> #[trigger] tail[i] == s[i + 1]);
        }
        lemma_filtered_ids_blocks(tail, filter);
        let ftail = filtered_sections(tail, filter);
        let out = filtered_sections(s, filter);
        if filter.contains(s[0].magic) {
            assert(out == seq![s[0]] + ftail);
            assert((seq![s[0]] + ftail).skip(1) =~= ftail);
            assert(all_didx_ids(out) == payload_ids(s[0].payload) + all_didx_ids(ftail));
            assert(all_data_blocks(out) == payload_blocks(s[0].payload) + all_data_blocks(ftail));
            assert(wf_sections(out)) by {
                assert(forall|i: int| 1 <= i < out.len() ==> #[trigger] out[i] == ftail[i - 1]);
            }
            if !filter.contains(DIDX_MAGIC) {
                assert(!is_didx(s[0]));
                assert(payload_ids(s[0].payload) + all_didx_ids(ftail) =~= Seq::<u32>::empty());
            }
            if !filter.contains(DATA_MAGIC) {
                assert(!is_data(s[0]));
                assert(payload_blocks(s[0].payload) + all_data_blocks(ftail)
                    =~= Seq::<Seq<u8>>::empty());
            }
            assert(all_didx_ids(s) == payload_ids(s[0].payload) + all_didx_ids(tail));
            assert(all_data_blocks(s) == payload_blocks(s[0].payload) + all_data_blocks(tail));
        } else if is_data(s[0]) {
            assert(s[0].magic == DATA_MAGIC);
            assert(!filter.contains(DATA_MAGIC));
            assert(out == seq![emptied(s[0])] + ftail);
            assert((seq![emptied(s[0])] + ftail).skip(1) =~= ftail);
            assert(all_didx_ids(out) == payload_ids(emptied(s[0]).payload) + all_didx_ids(ftail));
            assert(all_data_blocks(out) == payload_blocks(emptied(s[0]).payload) + all_data_blocks(
                ftail,
            ));
            assert(wf_sections(out)) by {
                assert(forall|i: int| 1 <= i < out.len() ==> #[trigger] out[i] == ftail[i - 1]);
            }
            assert(payload_ids(emptied(s[0]).payload) + all_didx_ids(ftail) =~= all_didx_ids(
                ftail,
            ));
            assert(payload_blocks(emptied(s[0]).payload) + all_data_blocks(ftail)
                =~= all_data_blocks(ftail));
            assert(all_data_blocks(ftail) =~= Seq::<Seq<u8>>::empty());
            if filter.contains(DIDX_MAGIC) {
                assert(payload_ids(s[0].payload) =~= Seq::<u32>::empty());
                assert(all_didx_ids(s) == payload_ids(s[0].payload) + all_didx_ids(tail));
                assert(Seq::<u32>::empty() + all_didx_ids(tail) =~= all_didx_ids(tail));
            }
        } else {
            assert(out == ftail);
            assert(!is_data(s[0]));
            assert(payload_blocks(s[0].payload) =~= Seq::<Seq<u8>>::empty());
            assert(Seq::<Seq<u8>>::empty() + all_data_blocks(tail) =~= all_data_blocks(tail));
            assert(all_data_blocks(s) == payload_blocks(s[0].payload) + all_data_blocks(tail));
            if filter.contains(DIDX_MAGIC) {
                assert(!is_didx(s[0]));
                assert(payload_ids(s[0].payload) =~= Seq::<u32>::empty());
                assert(all_didx_ids(s) == payload_ids(s[0].payload) + all_didx_ids(tail));
                assert(Seq::<u32>::empty() + all_didx_ids(tail) =~= all_didx_ids(tail));
            }
        }
    }
}

/// Filtering never breaks the positional balance of a well-formed container:
/// when the allow-list treats the index magic and the data magic alike, a
/// container with as many index entries as data blocks keeps that equality.
pub proof fn lemma_filter_preserves_index_data_balance(s: Seq<SectionV>, filter: Seq<u32>)
    requires
        wf_sections(s),
        all_didx_ids(s).len() == all_data_blocks(s).len(),
        filter.contains(DIDX_MAGIC) <==> filter.contains(DATA_MAGIC),
    ensures
        all_didx_ids(filtered_sections(s, filter)).len() == all_data_blocks(
            filtered_sections(s, filter),
        ).len(),
{
    lemma_filtered_ids_blocks(s, filter);
}

/// Failures of the SoundBank editing operations.
#[derive(Clone, Debug, PartialEq, Eq)]
pub enum BnkError {
    /// An index id for which the loose-file set offers no data.
    MissingSource { id: u32 },
    /// A loose file whose name is not a numeric stream id.
    InvalidFileName { name: String },
    /// The container holds no data section.
    NoDataSection,
    /// The number of index ids and the number of data blocks disagree.
    CountMismatch,
}

/// The position of the last data section, or `-1` when there is none.
pub open spec fn last_data_index(s: Seq<SectionV>) -> int
    decreases s.len(),
{
    if s.len() == 0 {
        -1
    } else if is_data(s.last()) {
        s.len() - 1
    } else {
        last_data_index(s.drop_last())
    }
}

/// The position of the last index section, or `-1` when there is none.
pub open spec fn last_didx_index(s: Seq<SectionV>) -> int
    decreases s.len(),
{
    if s.len() == 0 {
        -1
    } else if is_didx(s.last()) {
        s.len() - 1
    } else {
        last_didx_index(s.drop_last())
    }
}

/// Whether the container holds a data section.
pub open spec fn has_data(s: Seq<SectionV>) -> bool {
    last_data_index(s) >= 0
}

/// Whether the container holds an index section.
pub open spec fn has_didx(s: Seq<SectionV>) -> bool {
    last_didx_index(s) >= 0
}

/// The blocks of the last data section.
pub open spec fn the_data_blocks(s: Seq<SectionV>) -> Seq<Seq<u8>> {
    payload_blocks(s[last_data_index(s)].payload)
}

/// The ids of the last index section.
pub open spec fn the_didx_ids(s: Seq<SectionV>) -> Seq<u32> {
    payload_ids(s[last_didx_index(s)].payload)
}

/// `last_data_index` always points at a data section when one exists, and
/// `last_didx_index` at an index section.
pub proof fn lemma_last_indexes(s: Seq<SectionV>)
    ensures
        has_data(s) ==> last_data_index(s) < s.len() && is_data(s[last_data_index(s)]),
        has_didx(s) ==> last_didx_index(s) < s.len() && is_didx(s[last_didx_index(s)]),
    decreases s.len(),
{
    if s.len() > 0 {
        lemma_last_indexes(s.drop_last());
        assert(forall|i: int| 0 <= i < s.len() - 1 ==> #[trigger] s.drop_last()[i] == s[i]);
    }
}

/// Whether a `u32` sequence holds `x`.
fn contains_u32(v: &Vec<u32>, x: u32) -> (r: bool)
    ensures
        r == v@.contains(x),
{
    let mut i: usize = 0;
    while i < v.len()
        invariant
            i <= v.len(),
            forall|j: int| 0 <= j < i ==> v@[j] != x,
        decreases v.len() - i,
    {
        if v[i] == x {
            return true;
        }
        i = i + 1;
    }
    false
}

/// Concatenated index ids distribute over concatenation of section lists.
proof fn lemma_all_didx_ids_concat(a: Seq<SectionV>, b: Seq<SectionV>)
    ensures
        all_didx_ids(a + b) == all_didx_ids(a) + all_didx_ids(b),
    decreases a.len(),
{
    if a.len() == 0 {
        assert(a + b =~= b);
        assert(Seq::<u32>::empty() + all_didx_ids(b) =~= all_didx_ids(b));
    } else {
        lemma_all_didx_ids_concat(a.skip(1), b);
        assert((a + b).skip(1) =~= a.skip(1) + b);
        assert((a + b)[0] == a[0]);
        assert(payload_ids(a[0].payload) + (all_didx_ids(a.skip(1)) + all_didx_ids(b))
            =~= (payload_ids(a[0].payload) + all_didx_ids(a.skip(1))) + all_didx_ids(b));
    }
}

/// One step of a left-to-right walk over the sections: what the ids and the
/// last data position look like after taking one more section.
proof fn lemma_take_step(s: Seq<SectionV>, i: int)
    requires
        0 <= i < s.len(),
    ensures
        all_didx_ids(s.take(i + 1)) == all_didx_ids(s.take(i)) + payload_ids(s[i].payload),
        last_data_index(s.take(i + 1)) == if is_data(s[i]) {
            i
        } else {
            last_data_index(s.take(i))
        },
        last_didx_index(s.take(i + 1)) == if is_didx(s[i]) {
            i
        } else {
            last_didx_index(s.take(i))
        },
{
    assert(s.take(i + 1) =~= s.take(i) + seq![s[i]]);
    lemma_all_didx_ids_concat(s.take(i), seq![s[i]]);
    assert(seq![s[i]].skip(1) =~= Seq::<SectionV>::empty());
    assert(all_didx_ids(Seq::<SectionV>::empty()) == Seq::<u32>::empty());
    assert(seq![s[i]][0] == s[i]);
    assert(all_didx_ids(seq![s[i]]) == payload_ids(s[i].payload) + Seq::<u32>::empty());
    assert(payload_ids(s[i].payload) + Seq::<u32>::empty() =~= payload_ids(s[i].payload));
    assert(all_didx_ids(s.take(i)) + all_didx_ids(seq![s[i]]) =~= all_didx_ids(s.take(i))
        + payload_ids(s[i].payload));
    assert(s.take(i + 1).drop_last() =~= s.take(i));
    assert(s.take(i + 1).last() == s[i]);
}

/// Extract every stream of a SoundBank, paired with its id by position.
///
/// The ids come from the index sections in container order; the blocks from
/// the last data section.  Fails when there is no data section, or when the
/// id count and the block count disagree.
pub fn extract_streams(bnk: &Bnk) -> (r: Result<Vec<(u32, Vec<u8>)>, BnkError>)
    ensures
        !has_data(bnk@) <==> r matches Err(BnkError::NoDataSection),
        has_data(bnk@) && all_didx_ids(bnk@).len() != the_data_blocks(bnk@).len() <==> r matches Err(
            BnkError::CountMismatch,
        ),
        has_data(bnk@) && all_didx_ids(bnk@).len() == the_data_blocks(bnk@).len() ==> r is Ok,
        r matches Ok(v) ==> {
            &&& has_data(bnk@)
            &&& v@.len() == all_didx_ids(bnk@).len()
            &&& v@.len() == the_data_blocks(bnk@).len()
            &&& forall|i: int|
                0 <= i < v@.len() ==> (#[trigger] v@[i]).0 == all_didx_ids(bnk@)[i] && v@[i].1@
                    == the_data_blocks(bnk@)[i]
        },
{
    let ghost s: Seq<SectionV> = bnk@;
    let mut wem_ids: Vec<u32> = Vec::new();
    let mut data_idx: Option<usize> = Option::None;
    let n = bnk.sections.len();
    proof {
        assert(s.take(0) =~= Seq::<SectionV>::empty());
    }
    let mut i: usize = 0;
    while i < n
        invariant
            n == bnk.sections@.len(),
            s == bnk@,
            i <= n,
            wem_ids@ == all_didx_ids(s.take(i as int)),
            match data_idx {
                Option::None => last_data_index(s.take(i as int)) == -1,
                Option::Some(d) => d < i && last_data_index(s.take(i as int)) == d,
            },
        decreases n - i,
    {
        proof {
            lemma_take_step(s, i as int);
        }
        let ghost ids_before: Seq<u32> = wem_ids@;
        match &bnk.sections[i].payload {
            SectionPayload::Didx { entries } => {
                let m = entries.len();
                let mut k: usize = 0;
                while k < m
                    invariant
                        m == entries@.len(),
                        k <= m,
                        wem_ids@ == ids_before + Seq::new(k as nat, |t: int| entries@[t].id),
                    decreases m - k,
                {
                    wem_ids.push(entries[k].id);
                    proof {
                        assert(ids_before + Seq::new(k as nat, |t: int| entries@[t].id) + seq![
                            entries@[k as int].id,
                        ] =~= ids_before + Seq::new((k + 1) as nat, |t: int| entries@[t].id));
                    }
                    k = k + 1;
                }
                proof {
                    assert(payload_ids(s[i as int].payload) =~= Seq::new(
                        m as nat,
                        |t: int| entries@[t].id,
                    ));
                    assert(wem_ids@ =~= all_didx_ids(s.take(i + 1)));
                }
            },
            SectionPayload::Data { data_list: _ } => {
                data_idx = Option::Some(i);
                proof {
                    assert(is_data(s[i as int]));
                    assert(ids_before + payload_ids(s[i as int].payload) =~= ids_before);
                }
            },
            SectionPayload::Opaque { bytes: _ } => {
                proof {
                    assert(ids_before + payload_ids(s[i as int].payload) =~= ids_before);
                }
            },
        }
        i = i + 1;
    }
    proof {
        assert(s.take(n as int) =~= s);
    }
    match data_idx {
        Option::None => Result::Err(BnkError::NoDataSection),
        Option::Some(d) => {
            proof {
                lemma_last_indexes(s);
            }
            match &bnk.sections[d].payload {
                SectionPayload::Data { data_list } => {
                    if wem_ids.len() != data_list.len() {
                        return Result::Err(BnkError::CountMismatch);
                    }
                    let ghost blocks: Seq<Seq<u8>> = the_data_blocks(s);
                    proof {
                        assert(blocks =~= Seq::new(data_list@.len(), |t: int| data_list@[t]@));
                    }
                    let m = data_list.len();
                    let mut out: Vec<(u32, Vec<u8>)> = Vec::new();
                    let mut j: usize = 0;
                    while j < m
                        invariant
                            m == data_list@.len(),
                            m == wem_ids@.len(),
                            j <= m,
                            wem_ids@ == all_didx_ids(s),
                            blocks == the_data_blocks(s),
                            blocks.len() == m,
                            forall|t: int| 0 <= t < m ==> blocks[t] == data_list@[t]@,
                            out@.len() == j,
                            forall|t: int|
                                0 <= t < j ==> (#[trigger] out@[t]).0 == all_didx_ids(s)[t]
                                    && out@[t].1@ == blocks[t],
                        decreases m - j,
                    {
                        let bytes = copy_bytes(&data_list[j]);
                        out.push((wem_ids[j], bytes));
                        j = j + 1;
                    }
                    Result::Ok(out)
                },
                _ => {
                    proof {
                        assert(false);
                    }
                    Result::Err(BnkError::NoDataSection)
                },
            }
        },
    }
}

/// The container after the override: the last data section's blocks are
/// extended by the loose bytes of each id of the last index section, in
/// index order; everything else is untouched.
pub open spec fn overridden(s: Seq<SectionV>, lm: Map<u32, Seq<u8>>) -> Seq<SectionV> {
    let d = last_data_index(s);
    let ids = the_didx_ids(s);
    s.update(
        d,
        SectionV {
            magic: s[d].magic,
            payload: PayloadV::Data(
                the_data_blocks(s) + Seq::new(ids.len(), |i: int| lm[ids[i]]),
            ),
        },
    )
}

/// Replacing the last data section by a data section leaves the position of
/// the last data section alone.
proof fn lemma_last_data_index_update(s: Seq<SectionV>, sec: SectionV)
    requires
        has_data(s),
        is_data(sec),
    ensures
        last_data_index(s.update(last_data_index(s), sec)) == last_data_index(s),
    decreases s.len(),
{
    lemma_last_indexes(s);
    let d = last_data_index(s);
    let t = s.update(d, sec);
    if d == s.len() - 1 {
        assert(t.last() == sec);
    } else {
        assert(!is_data(s.last()));
        assert(t.last() == s.last());
        assert(t.drop_last() =~= s.drop_last().update(d, sec));
        assert(last_data_index(s) == last_data_index(s.drop_last()));
        lemma_last_data_index_update(s.drop_last(), sec);
    }
}

/// After a successful override of a container whose data section was empty,
/// the i-th block is exactly the loose bytes of the i-th index id: the
/// positional correlation of the format is rebuilt from the index.
pub proof fn lemma_override_positional(s: Seq<SectionV>, lm: Map<u32, Seq<u8>>)
    requires
        has_didx(s),
        has_data(s),
        the_data_blocks(s).len() == 0,
        ids_complete(the_didx_ids(s), lm),
    ensures
        the_data_blocks(overridden(s, lm)).len() == the_didx_ids(s).len(),
        forall|i: int|
            0 <= i < the_didx_ids(s).len() ==> the_data_blocks(overridden(s, lm))[i] == lm[(
            #[trigger] the_didx_ids(s)[i])],
{
    let d = last_data_index(s);
    let ids = the_didx_ids(s);
    let sec = SectionV {
        magic: s[d].magic,
        payload: PayloadV::Data(the_data_blocks(s) + Seq::new(ids.len(), |i: int| lm[ids[i]])),
    };
    lemma_last_indexes(s);
    lemma_last_data_index_update(s, sec);
    assert(the_data_blocks(s) + Seq::new(ids.len(), |i: int| lm[ids[i]]) =~= Seq::new(
        ids.len(),
        |i: int| lm[ids[i]],
    ));
}

/// Override the stream data of a SoundBank from a set of loose files, each
/// given as its file stem and its content.
///
/// The last index section lists which streams the container holds; for each
/// of its ids, in index order, the matching loose bytes are appended to the
/// last data section.  The data section must already be empty (for instance
/// via `filter_sections`) for the result to be a balanced container; this is
/// the caller's contract, as it is in the format itself.  Without an index
/// or a data section the container is returned unchanged, which is not an
/// error.  On any failure the container is left exactly as it was.
pub fn update_bnk_data(bnk: &mut Bnk, wem_files: &Vec<(String, Vec<u8>)>) -> (r: Result<
    (),
    BnkError,
>)
    ensures
        !(has_didx(old(bnk)@) && has_data(old(bnk)@)) ==> r is Ok && *final(bnk) == *old(bnk),
        has_didx(old(bnk)@) && has_data(old(bnk)@) && !all_names_valid(wem_files@) ==> (r matches Err(
            e,
        ) && (e matches BnkError::InvalidFileName { name } && exists|i: int|
            0 <= i < wem_files@.len() && name@ == (#[trigger] wem_files@[i]).0@)) && *final(bnk)
            == *old(bnk),
        has_didx(old(bnk)@) && has_data(old(bnk)@) && all_names_valid(wem_files@) && !ids_complete(
            the_didx_ids(old(bnk)@),
            loose_map(wem_files@),
        ) ==> (r matches Err(e) && (e matches BnkError::MissingSource { id } && the_didx_ids(
            old(bnk)@,
        ).contains(id) && !loose_map(wem_files@).contains_key(id))) && *final(bnk) == *old(bnk),
        has_didx(old(bnk)@) && has_data(old(bnk)@) && all_names_valid(wem_files@) && ids_complete(
            the_didx_ids(old(bnk)@),
            loose_map(wem_files@),
        ) ==> r is Ok && final(bnk)@ == overridden(old(bnk)@, loose_map(wem_files@)),
{
    let ghost s: Seq<SectionV> = bnk@;
    let n = bnk.sections.len();
    // Locate the last index section and the last data section.
    let mut didx_idx: Option<usize> = Option::None;
    let mut data_idx: Option<usize> = Option::None;
    proof {
        assert(s.take(0) =~= Seq::<SectionV>::empty());
    }
    let mut i: usize = 0;
    while i < n
        invariant
            n == bnk.sections@.len(),
            s == bnk@,
            i <= n,
            match data_idx {
                Option::None => last_data_index(s.take(i as int)) == -1,
                Option::Some(d) => d < i && last_data_index(s.take(i as int)) == d,
            },
            match didx_idx {
                Option::None => last_didx_index(s.take(i as int)) == -1,
                Option::Some(d) => d < i && last_didx_index(s.take(i as int)) == d,
            },
        decreases n - i,
    {
        proof {
            lemma_take_step(s, i as int);
        }
        match &bnk.sections[i].payload {
            SectionPayload::Didx { entries: _ } => {
                didx_idx = Option::Some(i);
            },
            SectionPayload::Data { data_list: _ } => {
                data_idx = Option::Some(i);
            },
            SectionPayload::Opaque { bytes: _ } => {},
        }
        i = i + 1;
    }
    proof {
        assert(s.take(n as int) =~= s);
    }
    let (didx_i, data_i): (usize, usize) = match (didx_idx, data_idx) {
        (Option::Some(a), Option::Some(b)) => (a, b),
        _ => {
            // No index or no data section: nothing to override.
            return Result::Ok(());
        },
    };
    proof {
        lemma_last_indexes(s);
    }
    // The ids of the index section, in order.
    let ghost ids: Seq<u32> = the_didx_ids(s);
    let mut wem_ids: Vec<u32> = Vec::new();
    match &bnk.sections[didx_i].payload {
        SectionPayload::Didx { entries } => {
            let m = entries.len();
            let mut k: usize = 0;
            while k < m
                invariant
                    m == entries@.len(),
                    k <= m,
                    didx_i < bnk.sections@.len(),
                    ids == payload_ids(bnk.sections@[didx_i as int]@.payload),
                    ids.len() == m,
                    forall|t: int| 0 <= t < m ==> ids[t] == entries@[t].id,
                    wem_ids@.len() == k,
                    forall|t: int| 0 <= t < k ==> wem_ids@[t] == ids[t],
                decreases m - k,
            {
                wem_ids.push(entries[k].id);
                k = k + 1;
            }
        },
        _ => {
            proof {
                assert(false);
            }
            return Result::Ok(());
        },
    }
    proof {
        assert(wem_ids@ =~= ids);
    }
    // Index the loose files by id.
    let lm = match build_loose_map(wem_files) {
        Result::Ok(lm) => lm,
        Result::Err(name) => {
            return Result::Err(BnkError::InvalidFileName { name });
        },
    };
    // Collect the override bytes in index order, failing before any mutation.
    let mut new_blocks: Vec<Vec<u8>> = Vec::new();
    let mut j: usize = 0;
    while j < wem_ids.len()
        invariant
            *bnk == *old(bnk),
            s == bnk@,
            has_didx(s),
            has_data(s),
            ids == the_didx_ids(s),
            all_names_valid(wem_files@),
            wem_ids@ == ids,
            wem_map_of(lm) == loose_map(wem_files@),
            j <= ids.len(),
            new_blocks@.len() == j,
            forall|t: int|
                0 <= t < j ==> loose_map(wem_files@).contains_key(#[trigger] ids[t])
                    && new_blocks@[t]@ == loose_map(wem_files@)[ids[t]],
        decreases wem_ids.len() - j,
    {
        let id = wem_ids[j];
        match wem_map_get(&lm, id) {
            Option::Some(data) => {
                new_blocks.push(copy_bytes(data));
            },
            Option::None => {
                proof {
                    assert(ids.contains(ids[j as int]));
                }
                return Result::Err(BnkError::MissingSource { id });
            },
        }
        j = j + 1;
    }
    // Append to the data section, in place.
    let sec = bnk.sections.remove(data_i);
    let ghost removed: Seq<SectionV> = bnk@;
    proof {
        assert(removed =~= s.remove(data_i as int));
        assert(sec@ == s[data_i as int]);
    }
    let magic = sec.magic;
    match sec.payload {
        SectionPayload::Data { mut data_list } => {
            let ghost old_blocks: Seq<Vec<u8>> = data_list@;
            let mut nb = new_blocks;
            data_list.append(&mut nb);
            let new_sec = Section { magic, payload: SectionPayload::Data { data_list } };
            proof {
                assert(payload_blocks(new_sec@.payload) =~= the_data_blocks(s) + Seq::new(
                    ids.len(),
                    |t: int| loose_map(wem_files@)[ids[t]],
                ));
            }
            bnk.sections.insert(data_i, new_sec);
            proof {
                assert(bnk@ =~= s.update(data_i as int, new_sec@));
                assert(bnk@ =~= overridden(s, loose_map(wem_files@)));
            }
            Result::Ok(())
        },
        _ => {
            proof {
                assert(false);
            }
            Result::Ok(())
        },
    }
}

/// Apply a section-magic allow-list to a loaded SoundBank.
///
/// With no allow-list the container is left unchanged.  With one, a section
/// whose magic is absent from the list is removed, except a data section,
/// which is only emptied: its position carries structural meaning for the
/// rest of the format, so it never disappears.
pub fn filter_sections(bnk: &mut Bnk, section_filter: Option<Vec<u32>>)
    ensures
        match section_filter {
            Option::None => final(bnk)@ == old(bnk)@,
            Option::Some(f) => final(bnk)@ == filtered_sections(old(bnk)@, f@),
        },
{
    match section_filter {
        Option::None => {},
        Option::Some(filter) => {
            let mut rest: Vec<Section> = Vec::new();
            core::mem::swap(&mut rest, &mut bnk.sections);
            let ghost orig: Seq<SectionV> = sections_view(&rest);
            let mut kept: Vec<Section> = Vec::new();
            while rest.len() > 0
                invariant
                    filtered_sections(orig, filter@) == sections_view(&kept) + filtered_sections(
                        sections_view(&rest),
                        filter@,
                    ),
                decreases rest.len(),
            {
                let ghost before: Seq<SectionV> = sections_view(&rest);
                let sec = rest.remove(0);
                proof {
                    assert(sections_view(&rest) =~= before.skip(1));
                    assert(sec@ == before[0]);
                }
                let magic = sec.magic;
                if contains_u32(&filter, magic) {
                    let ghost kept_before: Seq<SectionV> = sections_view(&kept);
                    kept.push(sec);
                    proof {
                        assert(sections_view(&kept) =~= kept_before + seq![before[0]]);
                        assert(kept_before + (seq![before[0]] + filtered_sections(
                            before.skip(1),
                            filter@,
                        )) =~= sections_view(&kept) + filtered_sections(before.skip(1), filter@));
                    }
                } else {
                    match sec.payload {
                        SectionPayload::Data { data_list: _ } => {
                            let ghost kept_before: Seq<SectionV> = sections_view(&kept);
                            let empty_sec = Section {
                                magic,
                                payload: SectionPayload::Data { data_list: Vec::new() },
                            };
                            proof {
                                assert(payload_blocks(empty_sec@.payload) =~= seq![]);
                                assert(empty_sec@ == emptied(before[0]));
                            }
                            kept.push(empty_sec);
                            proof {
                                assert(sections_view(&kept) =~= kept_before + seq![
                                    emptied(before[0]),
                                ]);
                                assert(kept_before + (seq![emptied(before[0])]
                                    + filtered_sections(before.skip(1), filter@))
                                    =~= sections_view(&kept) + filtered_sections(
                                    before.skip(1),
                                    filter@,
                                ));
                            }
                        },
                        _ => {},
                    }
                }
            }
            proof {
                assert(sections_view(&rest) =~= Seq::<SectionV>::empty());
                assert(filtered_sections(orig, filter@) =~= sections_view(&kept));
            }
            bnk.sections = kept;
        },
    }
}

} // verus!
