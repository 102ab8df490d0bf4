//! Loose stream files: the per-id override data read from a directory.
//!
//! A loose file is named by the decimal id of the stream it replaces or
//! supplies.  This module parses such names, and builds the id-to-bytes map
//! that the SoundBank override and the Package repack walk.

use vstd::prelude::*;

verus! {

/// Whether a character is a decimal digit.
pub open spec fn is_dec_digit(c: char) -> bool {
    48 <= c as int <= 57
}

/// The numeric value of a decimal digit character.
pub open spec fn digit_val(c: char) -> nat {
    (c as int - 48) as nat
}

/// Whether every character of the sequence is a decimal digit.
pub open spec fn all_digits(s: Seq<char>) -> bool {
    forall|i: int| 0 <= i < s.len() ==> is_dec_digit(#[trigger] s[i])
}

/// The value of a sequence of decimal digits, most significant first.
pub open spec fn dec_val(s: Seq<char>) -> nat
    decreases s.len(),
{
    if s.len() == 0 {
        0
    } else {
        dec_val(s.drop_last()) * 10 + digit_val(s.last())
    }
}

/// A numeric string with its optional leading plus sign stripped, the way
/// the standard unsigned parser reads one.
pub open spec fn unsigned_body(s: Seq<char>) -> Seq<char> {
    if s.len() > 0 && s[0] == '+' {
        s.skip(1)
    } else {
        s
    }
}

/// Whether a file stem names a stream id: an optional plus sign, then one or
/// more decimal digits, with a value that fits in a `u32`.
pub open spec fn is_wem_id(s: Seq<char>) -> bool {
    let b = unsigned_body(s);
    b.len() > 0 && all_digits(b) && dec_val(b) <= u32::MAX
}

/// The id a valid file stem names.
pub open spec fn wem_id_of(s: Seq<char>) -> nat {
    dec_val(unsigned_body(s))
}

/// Dropping trailing digits never increases the value.
proof fn lemma_dec_val_take_le(s: Seq<char>, k: int)
    requires
        0 <= k <= s.len(),
    ensures
        dec_val(s.take(k)) <= dec_val(s),
    decreases s.len(),
{
    if k == s.len() {
        assert(s.take(k) =~= s);
    } else {
        assert(s.take(k) =~= s.drop_last().take(k));
        lemma_dec_val_take_le(s.drop_last(), k);
        assert(dec_val(s.drop_last()) * 10 >= dec_val(s.drop_last()) * 1);
    }
}

/// Parse a loose-file stem as a stream id, exactly as the standard unsigned
/// parser would: an optional plus sign, then decimal digits, rejecting the
/// empty string, any other character, and values over `u32::MAX`.
pub fn parse_wem_id(stem: &str) -> (r: Option<u32>)
    ensures
        is_wem_id(stem@) ==> r == Option::Some(wem_id_of(stem@) as u32),
        !is_wem_id(stem@) ==> r is None,
{
    let len = stem.unicode_len();
    if len == 0 {
        return Option::None;
    }
    let first = stem.get_char(0);
    let start: usize = if first == '+' {
        1
    } else {
        0
    };
    let ghost body: Seq<char> = unsigned_body(stem@);
    proof {
        assert(body =~= stem@.subrange(start as int, len as int));
    }
    if start == len {
        return Option::None;
    }
    let mut acc: u32 = 0;
    let mut i: usize = start;
    proof {
        assert(body.take(0) =~= Seq::<char>::empty());
    }
    while i < len
        invariant
            len == stem@.len(),
            start <= i <= len,
            start < len,
            body == unsigned_body(stem@),
            body =~= stem@.subrange(start as int, len as int),
            all_digits(body.take(i - start)),
            acc as nat == dec_val(body.take(i - start)),
        decreases len - i,
    {
        let c = stem.get_char(i);
        proof {
            assert(body[i - start] == stem@[i as int]);
        }
        let d32 = c as u32;
        if d32 < 48 || d32 > 57 {
            proof {
                assert(!is_dec_digit(body[i - start]));
                assert(!all_digits(body));
            }
            return Option::None;
        }
        let d = d32 - 48;
        let q = (0xFFFF_FFFFu32 - d) / 10;
        proof {
            assert(q as int * 10 + (u32::MAX - d as int) % 10 == u32::MAX - d as int);
        }
        if acc > q {
            proof {
                let k = i - start + 1;
                assert(body.take(k).drop_last() =~= body.take(i - start));
                assert(body.take(k).last() == body[i - start]);
                assert(dec_val(body.take(k)) == dec_val(body.take(i - start)) * 10 + digit_val(
                    body[i - start],
                ));
                assert(acc as int * 10 >= (q + 1) as int * 10);
                assert(dec_val(body.take(k)) > u32::MAX);
                lemma_dec_val_take_le(body, k);
                assert(!is_wem_id(stem@));
            }
            return Option::None;
        }
        proof {
            assert(acc as int * 10 <= q as int * 10);
            assert(acc as int * 10 + d as int <= u32::MAX);
            let k = i - start + 1;
            assert(body.take(k).drop_last() =~= body.take(i - start));
            assert(body.take(k).last() == body[i - start]);
            assert(digit_val(body[i - start]) == d as nat);
            assert(dec_val(body.take(k)) == dec_val(body.take(i - start)) * 10 + d as nat);
            assert(forall|t: int|
                0 <= t < k ==> is_dec_digit(#[trigger] body.take(k)[t]));
        }
        acc = acc * 10 + d;
        i = i + 1;
    }
    proof {
        assert(body.take(len - start) =~= body);
        assert(all_digits(body));
        assert(acc as nat == dec_val(body));
        assert(is_wem_id(stem@));
    }
    Option::Some(acc)
}

// An insertion-ordered map of an outside crate holds the loose files by id;
// Verus sees only what `wem_map_of` says of it.
#[verifier::external_type_specification]
#[verifier::external_body]
#[verifier::reject_recursive_types(K)]
#[verifier::reject_recursive_types(V)]
#[verifier::reject_recursive_types(S)]
pub struct ExIndexMap<K, V, S>(indexmap::IndexMap<K, V, S>);

/// What an id-to-bytes map holds.
pub uninterp spec fn wem_map_of(m: indexmap::IndexMap<u32, Vec<u8>>) -> Map<u32, Seq<u8>>;

/// The empty id-to-bytes map.
pub open spec fn empty_wem_map() -> Map<u32, Seq<u8>> {
    Map::empty()
}

/// Relies on indexmap::IndexMap::new: a fresh map is empty.
#[verifier::external_body]
pub(crate) fn wem_map_new() -> (m: indexmap::IndexMap<u32, Vec<u8>>)
    ensures
        wem_map_of(m) == empty_wem_map(),
{
    indexmap::IndexMap::new()
}

/// Relies on indexmap::IndexMap::insert: the value stored under the key is
/// added or replaced; every other key keeps its value.
#[verifier::external_body]
pub(crate) fn wem_map_insert(m: &mut indexmap::IndexMap<u32, Vec<u8>>, id: u32, data: Vec<u8>)
    ensures
        wem_map_of(*final(m)) == wem_map_of(*old(m)).insert(id, data@),
{
    m.insert(id, data);
}

/// Relies on indexmap::IndexMap::get: the value stored under the key when it
/// is present, nothing otherwise.
#[verifier::external_body]
pub(crate) fn wem_map_get<'a>(m: &'a indexmap::IndexMap<u32, Vec<u8>>, id: u32) -> (r: Option<
    &'a Vec<u8>,
>)
    ensures
        match r {
            Option::Some(v) => wem_map_of(*m).contains_key(id) && v@ == wem_map_of(*m)[id],
            Option::None => !wem_map_of(*m).contains_key(id),
        },
{
    m.get(&id)
}

/// The id-to-bytes map a list of loose files with valid stems denotes; a
/// later file with the same id wins, as repeated insertion would have it.
pub open spec fn loose_map(files: Seq<(String, Vec<u8>)>) -> Map<u32, Seq<u8>>
    decreases files.len(),
{
    if files.len() == 0 {
        Map::empty()
    } else {
        let prev = loose_map(files.drop_last());
        let last = files.last();
        if is_wem_id(last.0@) {
            prev.insert(wem_id_of(last.0@) as u32, last.1@)
        } else {
            prev
        }
    }
}

/// Whether the map offers data for every id of the sequence.
pub open spec fn ids_complete(ids: Seq<u32>, lm: Map<u32, Seq<u8>>) -> bool {
    forall|i: int| 0 <= i < ids.len() ==> lm.contains_key(#[trigger] ids[i])
}

/// Whether every loose file's stem names an id.
pub open spec fn all_names_valid(files: Seq<(String, Vec<u8>)>) -> bool {
    forall|i: int| 0 <= i < files.len() ==> is_wem_id((#[trigger] files[i]).0@)
}

/// Copy a byte vector.
pub(crate) fn copy_bytes(v: &Vec<u8>) -> (r: Vec<u8>)
    ensures
        r@ == v@,
{
    let mut r: Vec<u8> = Vec::new();
    let mut i: usize = 0;
    while i < v.len()
        invariant
            i <= v.len(),
            r@ == v@.take(i as int),
        decreases v.len() - i,
    {
        r.push(v[i]);
        proof {
            assert(v@.take(i as int).push(v@[i as int]) =~= v@.take(i + 1));
        }
        i = i + 1;
    }
    proof {
        assert(v@.take(v@.len() as int) =~= v@);
    }
    r
}

/// Build the id-to-bytes map of a list of loose files, each given as its
/// file stem and its content.  Fails on the first stem that names no id,
/// returning that stem.
pub fn build_loose_map(files: &Vec<(String, Vec<u8>)>) -> (r: Result<
    indexmap::IndexMap<u32, Vec<u8>>,
    String,
>)
    ensures
        all_names_valid(files@) <==> r is Ok,
        r matches Ok(m) ==> wem_map_of(m) == loose_map(files@),
        r matches Err(name) ==> exists|i: int|
            0 <= i < files@.len() && name@ == (#[trigger] files@[i]).0@ && !is_wem_id(name@),
{
    let mut m = wem_map_new();
    let n = files.len();
    proof {
        assert(loose_map(files@.take(0)) =~= Map::<u32, Seq<u8>>::empty());
    }
    let mut i: usize = 0;
    while i < n
        invariant
            n == files@.len(),
            i <= n,
            all_names_valid(files@.take(i as int)),
            wem_map_of(m) == loose_map(files@.take(i as int)),
        decreases n - i,
    {
        let stem: &String = &files[i].0;
        match parse_wem_id(stem.as_str()) {
            Option::Some(id) => {
                let data = copy_bytes(&files[i].1);
                wem_map_insert(&mut m, id, data);
                proof {
                    assert(files@.take(i + 1).drop_last() =~= files@.take(i as int));
                    assert(files@.take(i + 1).last() == files@[i as int]);
                    assert(forall|t: int|
                        0 <= t < i + 1 ==> is_wem_id((#[trigger] files@.take(i + 1)[t]).0@));
                }
            },
            Option::None => {
                proof {
                    assert(!is_wem_id(files@[i as int].0@));
                }
                return Result::Err(stem.clone());
            },
        }
        i = i + 1;
    }
    proof {
        assert(files@.take(n as int) =~= files@);
    }
    Result::Ok(m)
}

} // verus!
