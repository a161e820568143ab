//! The string table: a deduplicated, offset-indexed pool of byte strings
//! shared by templates and opcodes.
//!
//! On the wire the section is an array of `(offset: u32, length: u16)`
//! entries, one per string, followed by the blob length as a `u32` and the
//! contiguous blob itself. The encoder lays strings out densely, in order;
//! the decoder accepts any entries whose ranges lie inside the blob.

use vstd::prelude::*;

use vstd::slice::slice_subrange;
use vstd::slice::slice_to_vec;

use crate::bytes::le16_bytes;
use crate::bytes::le32_bytes;
use crate::bytes::lemma_le16_roundtrip;
use crate::bytes::lemma_le32_roundtrip;
use crate::bytes::push_u16_le;
use crate::bytes::push_u32_le;
use crate::bytes::read_u16_le;
use crate::bytes::read_u32_le;
use crate::opwire::rd16;
use crate::opwire::rd32;
use crate::wire::DecodeError;

verus! {

/// The deep view of a list of byte strings.
pub open spec fn strings_view(strings: Seq<Vec<u8>>) -> Seq<Seq<u8>> {
    strings.map_values(|s: Vec<u8>| s@)
}

/// The byte offset of string `k` in the densely laid out blob.
pub open spec fn offset_of(strings: Seq<Seq<u8>>, k: int) -> int
    decreases k,
{
    if k <= 0 {
        0
    } else {
        offset_of(strings, k - 1) + strings[k - 1].len()
    }
}

/// The contiguous blob: every string in order.
pub open spec fn blob_of(strings: Seq<Seq<u8>>) -> Seq<u8>
    decreases strings.len(),
{
    if strings.len() == 0 {
        Seq::empty()
    } else {
        strings[0] + blob_of(strings.skip(1))
    }
}

/// The entry array for strings laid out densely starting at offset `off`.
pub open spec fn ser_entries(strings: Seq<Seq<u8>>, off: int) -> Seq<u8>
    decreases strings.len(),
{
    if strings.len() == 0 {
        Seq::empty()
    } else {
        le32_bytes(off as u32) + le16_bytes(strings[0].len() as u16) + ser_entries(
            strings.skip(1),
            off + strings[0].len(),
        )
    }
}

/// The whole string section: entries, blob length, blob.
pub open spec fn ser_strtab(strings: Seq<Seq<u8>>) -> Seq<u8> {
    ser_entries(strings, 0) + le32_bytes(blob_of(strings).len() as u32) + blob_of(strings)
}

/// What the encoder requires of a string list so that it fits the wire:
/// every length fits a `u16`, the count fits a `u16`, and the blob fits a
/// `u32` of offset arithmetic.
pub open spec fn strings_fit(strings: Seq<Seq<u8>>) -> bool {
    &&& strings.len() <= 0xFFFF
    &&& (forall|k: int| 0 <= k < strings.len() ==> #[trigger] strings[k].len() <= 0xFFFF)
    &&& blob_of(strings).len() <= 0xFFFFFFFF
}

pub proof fn lemma_blob_len(strings: Seq<Seq<u8>>)
    ensures
        blob_of(strings).len() == offset_of(strings, strings.len() as int),
    decreases strings.len(),
{
    if strings.len() == 0 {
    } else {
        lemma_blob_len(strings.skip(1));
        lemma_offset_shift(strings, strings.len() as int);
    }
}

/// Offsets into the tail relate to offsets into the whole list.
pub proof fn lemma_offset_shift(strings: Seq<Seq<u8>>, k: int)
    requires
        1 <= k <= strings.len(),
    ensures
        offset_of(strings, k) == strings[0].len() + offset_of(strings.skip(1), k - 1),
    decreases k,
{
    if k == 1 {
        assert(offset_of(strings, 0) == 0);
        assert(offset_of(strings.skip(1), 0) == 0);
    } else {
        lemma_offset_shift(strings, k - 1);
        assert(strings.skip(1)[k - 2] == strings[k - 1]);
    }
}

/// Offsets are monotone, and each string lies inside the blob.
pub proof fn lemma_offset_bounds(strings: Seq<Seq<u8>>, k: int)
    requires
        0 <= k < strings.len(),
    ensures
        0 <= offset_of(strings, k),
        offset_of(strings, k) + strings[k].len() <= blob_of(strings).len(),
    decreases k,
{
    lemma_blob_len(strings);
    lemma_offset_le(strings, k + 1, strings.len() as int);
    lemma_offset_nonneg(strings, k);
}

pub proof fn lemma_offset_nonneg(strings: Seq<Seq<u8>>, k: int)
    ensures
        0 <= offset_of(strings, k),
    decreases k,
{
    if k > 0 {
        lemma_offset_nonneg(strings, k - 1);
    }
}

pub proof fn lemma_offset_le(strings: Seq<Seq<u8>>, j: int, k: int)
    requires
        0 <= j <= k <= strings.len(),
    ensures
        offset_of(strings, j) <= offset_of(strings, k),
    decreases k - j,
{
    if j < k {
        lemma_offset_le(strings, j, k - 1);
    }
}

/// String `k` sits at its offset inside the blob.
pub proof fn lemma_blob_at(strings: Seq<Seq<u8>>, k: int)
    requires
        0 <= k < strings.len(),
    ensures
        offset_of(strings, k) + strings[k].len() <= blob_of(strings).len(),
        blob_of(strings).subrange(
            offset_of(strings, k),
            offset_of(strings, k) + strings[k].len(),
        ) == strings[k],
    decreases k,
{
    lemma_offset_bounds(strings, k);
    if k == 0 {
        assert(blob_of(strings).subrange(0, strings[0].len() as int) =~= strings[0]);
    } else {
        lemma_blob_at(strings.skip(1), k - 1);
        lemma_offset_shift(strings, k);
        lemma_offset_bounds(strings.skip(1), k - 1);
        let w = strings[0].len() as int;
        let o = offset_of(strings.skip(1), k - 1);
        let l = strings[k].len() as int;
        assert(strings.skip(1)[k - 1] == strings[k]);
        assert(blob_of(strings).subrange(w + o, w + o + l) =~= blob_of(strings.skip(1)).subrange(
            o,
            o + l,
        ));
    }
}

/// The entry array is 6 bytes per string.
pub proof fn lemma_entries_len(strings: Seq<Seq<u8>>, off: int)
    ensures
        ser_entries(strings, off).len() == 6 * strings.len(),
    decreases strings.len(),
{
    if strings.len() > 0 {
        lemma_entries_len(strings.skip(1), off + strings[0].len());
    }
}

/// Entry `k` of the image holds the dense offset and the string length.
pub proof fn lemma_entries_at(strings: Seq<Seq<u8>>, off: int, k: int)
    requires
        0 <= k < strings.len(),
        strings_fit(strings),
        0 <= off,
        off + blob_of(strings).len() <= 0xFFFFFFFF,
    ensures
        ser_entries(strings, off).subrange(6 * k, 6 * k + 6) == le32_bytes(
            (off + offset_of(strings, k)) as u32,
        ) + le16_bytes(strings[k].len() as u16),
    decreases k,
{
    lemma_entries_len(strings, off);
    lemma_blob_len(strings);
    if k == 0 {
        lemma_entries_len(strings.skip(1), off + strings[0].len());
        assert(ser_entries(strings, off).subrange(0, 6) =~= le32_bytes(off as u32) + le16_bytes(
            strings[0].len() as u16,
        ));
    } else {
        let tail = strings.skip(1);
        assert(strings_fit(tail)) by {
            assert(forall|j: int|
                0 <= j < tail.len() ==> #[trigger] tail[j].len() == strings[j + 1].len());
            assert(blob_of(tail).len() <= blob_of(strings).len()) by {
                lemma_blob_len(tail);
                lemma_blob_len(strings);
                lemma_offset_shift(strings, strings.len() as int);
            }
        }
        assert(blob_of(tail).len() + strings[0].len() == blob_of(strings).len()) by {
            lemma_blob_len(tail);
            lemma_blob_len(strings);
            lemma_offset_shift(strings, strings.len() as int);
        }
        lemma_entries_at(tail, off + strings[0].len(), k - 1);
        lemma_offset_shift(strings, k);
        lemma_entries_len(tail, off + strings[0].len());
        assert(tail[k - 1] == strings[k]);
        assert(ser_entries(strings, off).subrange(6 * k, 6 * k + 6) =~= ser_entries(
            tail,
            off + strings[0].len(),
        ).subrange(6 * (k - 1), 6 * (k - 1) + 6));
    }
}

/// Parse the string section at offset `i` with `count` entries: the entry
/// array, the blob length, then the blob. Rejects entries that reach outside
/// the blob with `StringOutOfBounds` and truncation with `BufferTooSmall`.
pub open spec fn parse_strtab(b: Seq<u8>, i: int, count: int) -> Result<
    (Seq<Seq<u8>>, int),
    DecodeError,
> {
    let blob_len_at = i + 6 * count;
    if blob_len_at + 4 > b.len() {
        Err(DecodeError::BufferTooSmall)
    } else {
        let blob_len = rd32(b, blob_len_at) as int;
        let blob_start = blob_len_at + 4;
        if blob_start + blob_len > b.len() {
            Err(DecodeError::BufferTooSmall)
        } else if exists|k: int|
            0 <= k < count && !(#[trigger] entry_in_blob(b, i, k, blob_len)) {
            Err(DecodeError::StringOutOfBounds)
        } else {
            Ok(
                (
                    Seq::new(
                        count as nat,
                        |k: int|
                            b.subrange(
                                blob_start + rd32(b, i + 6 * k),
                                blob_start + rd32(b, i + 6 * k) + rd16(b, i + 6 * k + 4),
                            ),
                    ),
                    blob_start + blob_len,
                ),
            )
        }
    }
}

/// Whether entry `k` points inside a blob of length `blob_len`.
pub open spec fn entry_in_blob(b: Seq<u8>, i: int, k: int, blob_len: int) -> bool {
    rd32(b, i + 6 * k) + rd16(b, i + 6 * k + 4) <= blob_len
}

/// Append the wire bytes of the string section.
pub fn write_strtab(out: &mut Vec<u8>, strings: &Vec<Vec<u8>>)
    requires
        strings_fit(strings_view(strings@)),
    ensures
        final(out)@ == old(out)@ + ser_strtab(strings_view(strings@)),
{
    let ghost sv = strings_view(strings@);
    let mut off: u32 = 0;
    let mut k: usize = 0;
    proof {
        lemma_blob_len(sv);
        assert(sv.skip(0) =~= sv);
    }
    while k < strings.len()
        invariant
            k <= strings@.len(),
            sv == strings_view(strings@),
            strings_fit(sv),
            off == offset_of(sv, k as int),
            off + blob_of(sv.skip(k as int)).len() <= 0xFFFFFFFF,
            out@ == old(out)@ + ser_entries(sv, 0).subrange(0, 6 * k as int),
        decreases strings@.len() - k,
    {
        proof {
            lemma_entries_len(sv, 0);
            lemma_entries_at(sv, 0, k as int);
            lemma_blob_len(sv);
            lemma_offset_le(sv, 0, k as int);
            lemma_offset_bounds(sv, k as int);
            assert(sv[k as int] == strings@[k as int]@);
        }
        let len16: u16 = strings[k].len() as u16;
        push_u32_le(out, off);
        push_u16_le(out, len16);
        proof {
            assert(out@ =~= old(out)@ + ser_entries(sv, 0).subrange(0, 6 * (k + 1) as int)) by {
                assert(ser_entries(sv, 0).subrange(6 * k as int, 6 * k as int + 6) == le32_bytes(
                    offset_of(sv, k as int) as u32,
                ) + le16_bytes(sv[k as int].len() as u16));
                assert(ser_entries(sv, 0).subrange(0, 6 * (k + 1) as int) =~= ser_entries(
                    sv,
                    0,
                ).subrange(0, 6 * k as int) + ser_entries(sv, 0).subrange(
                    6 * k as int,
                    6 * k as int + 6,
                ));
            }
            assert(blob_of(sv.skip(k as int)) == sv[k as int] + blob_of(sv.skip(k + 1))) by {
                assert(sv.skip(k as int).skip(1) =~= sv.skip(k + 1));
            }
        }
        off = off + strings[k].len() as u32;
        k = k + 1;
    }
    proof {
        lemma_entries_len(sv, 0);
        assert(ser_entries(sv, 0).subrange(0, 6 * sv.len() as int) =~= ser_entries(sv, 0));
        lemma_blob_len(sv);
    }
    let blob_len: u32 = off;
    push_u32_le(out, blob_len);
    let mut k2: usize = 0;
    while k2 < strings.len()
        invariant
            k2 <= strings@.len(),
            sv == strings_view(strings@),
            strings_fit(sv),
            out@ == old(out)@ + ser_entries(sv, 0) + le32_bytes(blob_of(sv).len() as u32)
                + blob_of(sv).subrange(0, offset_of(sv, k2 as int)),
        decreases strings@.len() - k2,
    {
        proof {
            lemma_blob_at(sv, k2 as int);
            lemma_offset_bounds(sv, k2 as int);
            assert(sv[k2 as int] == strings@[k2 as int]@);
        }
        let mut copy_i: usize = 0;
        let slen = strings[k2].len();
        while copy_i < slen
            invariant
                copy_i <= slen,
                slen == strings@[k2 as int]@.len(),
                k2 < strings@.len(),
                sv == strings_view(strings@),
                strings_fit(sv),
                0 <= offset_of(sv, k2 as int),
                offset_of(sv, k2 as int) + slen <= blob_of(sv).len(),
                blob_of(sv).subrange(
                    offset_of(sv, k2 as int),
                    offset_of(sv, k2 as int) + slen,
                ) == sv[k2 as int],
                sv[k2 as int] == strings@[k2 as int]@,
                out@ == old(out)@ + ser_entries(sv, 0) + le32_bytes(blob_of(sv).len() as u32)
                    + blob_of(sv).subrange(0, offset_of(sv, k2 as int) + copy_i),
            decreases slen - copy_i,
        {
            let byte = strings[k2][copy_i];
            out.push(byte);
            proof {
                lemma_offset_nonneg(sv, k2 as int);
                lemma_blob_len(sv);
                let o = offset_of(sv, k2 as int);
                assert(blob_of(sv)[o + copy_i] == sv[k2 as int][copy_i as int]) by {
                    assert(blob_of(sv).subrange(o, o + slen)[copy_i as int] == blob_of(sv)[o
                        + copy_i]);
                }
                assert(blob_of(sv).subrange(0, o + copy_i + 1) =~= blob_of(sv).subrange(
                    0,
                    o + copy_i,
                ).push(blob_of(sv)[o + copy_i]));
            }
            copy_i = copy_i + 1;
        }
        k2 = k2 + 1;
    }
    proof {
        lemma_blob_len(sv);
        assert(blob_of(sv).subrange(0, offset_of(sv, sv.len() as int)) =~= blob_of(sv));
        assert(final(out)@ =~= old(out)@ + ser_strtab(sv));
    }
}

/// Read the string section at offset `i` with `count` entries, as
/// `parse_strtab` describes.
pub fn read_strtab(b: &[u8], i: usize, count: u16) -> (r: Result<
    (Vec<Vec<u8>>, usize),
    DecodeError,
>)
    requires
        i <= b@.len(),
    ensures
        r matches Ok(p) ==> parse_strtab(b@, i as int, count as int) == Ok::<
            (Seq<Seq<u8>>, int),
            DecodeError,
        >((strings_view(p.0@), p.1 as int)) && i <= p.1 <= b@.len(),
        r matches Err(e) ==> parse_strtab(b@, i as int, count as int) == Err::<
            (Seq<Seq<u8>>, int),
            DecodeError,
        >(e),
{
    let entries_size: usize = 6 * count as usize;
    if b.len() - i < entries_size {
        proof {
            assert(i + 6 * count + 4 > b@.len());
        }
        return Err(DecodeError::BufferTooSmall);
    }
    let blob_len_at = i + entries_size;
    if b.len() - blob_len_at < 4 {
        return Err(DecodeError::BufferTooSmall);
    }
    let blob_len = read_u32_le(b, blob_len_at);
    let blob_start = blob_len_at + 4;
    let avail: usize = b.len() - blob_start;
    if (avail as u64) < (blob_len as u64) {
        return Err(DecodeError::BufferTooSmall);
    }
    let blob_len_us = blob_len as usize;
    let mut strings: Vec<Vec<u8>> = Vec::new();
    let mut k: usize = 0;
    while k < count as usize
        invariant
            k <= count as usize,
            b@.len() <= usize::MAX,
            i + 6 * count + 4 <= b@.len(),
            blob_len_at == i + 6 * count as int,
            blob_len_us == rd32(b@, i + 6 * count as int),
            blob_start == i + 6 * count as int + 4,
            blob_start + blob_len_us <= b@.len(),
            strings@.len() == k,
            forall|j: int| 0 <= j < k ==> #[trigger] entry_in_blob(b@, i as int, j, blob_len_us as int),
            forall|j: int|
                0 <= j < k ==> #[trigger] strings@[j]@ == b@.subrange(
                    blob_start + rd32(b@, i + 6 * j),
                    blob_start + rd32(b@, i + 6 * j) + rd16(b@, i + 6 * j + 4),
                ),
        decreases count as usize - k,
    {
        let off = read_u32_le(b, i + 6 * k);
        let slen = read_u16_le(b, i + 6 * k + 4);
        if (off as u64) + (slen as u64) > (blob_len_us as u64) {
            proof {
                assert(!entry_in_blob(b@, i as int, k as int, blob_len_us as int));
            }
            return Err(DecodeError::StringOutOfBounds);
        }
        proof {
            assert(off as usize <= blob_len_us);
            assert(off as usize + slen as usize <= blob_len_us);
        }
        let start = blob_start + off as usize;
        let end = start + slen as usize;
        let piece = slice_to_vec(slice_subrange(b, start, end));
        strings.push(piece);
        k = k + 1;
    }
    proof {
        let sr = parse_strtab(b@, i as int, count as int);
        assert(strings_view(strings@) =~= Seq::new(
            count as nat,
            |j: int|
                b@.subrange(
                    blob_start + rd32(b@, i + 6 * j),
                    blob_start + rd32(b@, i + 6 * j) + rd16(b@, i + 6 * j + 4),
                ),
        ));
    }
    Ok((strings, blob_start + blob_len_us))
}

/// The index of the first occurrence of `s`, or the length when absent.
pub open spec fn first_match(strings: Seq<Seq<u8>>, s: Seq<u8>) -> int
    decreases strings.len(),
{
    if strings.len() == 0 {
        0
    } else if strings[0] == s {
        0
    } else {
        1 + first_match(strings.skip(1), s)
    }
}

/// What interning does: an already present string leaves the table unchanged
/// and yields the id of its first occurrence; a new string is appended.
pub open spec fn intern_spec(strings: Seq<Seq<u8>>, s: Seq<u8>) -> (Seq<Seq<u8>>, int) {
    if exists|j: int| 0 <= j < strings.len() && strings[j] == s {
        (strings, first_match(strings, s))
    } else {
        (strings.push(s), strings.len() as int)
    }
}

pub proof fn lemma_first_match_found(strings: Seq<Seq<u8>>, s: Seq<u8>, j: int)
    requires
        0 <= j < strings.len(),
        strings[j] == s,
        forall|k: int| 0 <= k < j ==> strings[k] != s,
    ensures
        first_match(strings, s) == j,
    decreases j,
{
    if j > 0 {
        assert(strings[0] != s);
        lemma_first_match_found(strings.skip(1), s, j - 1);
    }
}

pub proof fn lemma_first_match_absent(strings: Seq<Seq<u8>>, s: Seq<u8>)
    requires
        forall|k: int| 0 <= k < strings.len() ==> strings[k] != s,
    ensures
        first_match(strings, s) == strings.len(),
    decreases strings.len(),
{
    if strings.len() > 0 {
        lemma_first_match_absent(strings.skip(1), s);
    }
}

/// Interning is idempotent: interning a string twice yields the same id both
/// times, and the second interning leaves the table untouched. Two encoders
/// that intern the same strings in the same order therefore build
/// byte-identical tables.
pub proof fn lemma_intern_idempotent(strings: Seq<Seq<u8>>, s: Seq<u8>)
    ensures
        ({
            let (t1, id1) = intern_spec(strings, s);
            let (t2, id2) = intern_spec(t1, s);
            t2 == t1 && id2 == id1 && t1[id1] == s
        }),
{
    let (t1, id1) = intern_spec(strings, s);
    if exists|j: int| 0 <= j < strings.len() && strings[j] == s {
        lemma_first_match_hits(strings, s);
    } else {
        assert(t1[strings.len() as int] == s);
        assert(forall|k: int| 0 <= k < strings.len() ==> t1[k] == strings[k]);
        lemma_first_match_hits(t1, s);
        assert(forall|k: int| 0 <= k < strings.len() ==> t1[k] != s);
        lemma_first_match_found(t1, s, strings.len() as int);
    }
}

/// When a string is present, its first match is a valid index holding it,
/// and no earlier index does.
pub proof fn lemma_first_match_hits(strings: Seq<Seq<u8>>, s: Seq<u8>)
    requires
        exists|j: int| 0 <= j < strings.len() && strings[j] == s,
    ensures
        0 <= first_match(strings, s) < strings.len(),
        strings[first_match(strings, s)] == s,
        forall|k: int| 0 <= k < first_match(strings, s) ==> strings[k] != s,
    decreases strings.len(),
{
    if strings.len() > 0 && strings[0] != s {
        let j = choose|j: int| 0 <= j < strings.len() && strings[j] == s;
        assert(strings.skip(1)[j - 1] == s);
        lemma_first_match_hits(strings.skip(1), s);
        assert(forall|k: int|
            1 <= k < 1 + first_match(strings.skip(1), s) ==> strings[k] == strings.skip(1)[k - 1]);
    }
}

/// The encoder-side string table: a deduplicated pool that hands out dense
/// ids. `intern` returns equal ids for byte-equal inputs within one stream.
pub struct StringTable {
    pub entries: Vec<Vec<u8>>,
}

impl StringTable {
    /// The logical contents: the byte strings in id order.
    pub open spec fn view_spec(&self) -> Seq<Seq<u8>> {
        strings_view(self.entries@)
    }

    /// An empty table.
    pub fn new() -> (r: StringTable)
        ensures
            r.view_spec() == Seq::<Seq<u8>>::empty(),
    {
        let r = StringTable { entries: Vec::new() };
        proof {
            assert(r.view_spec() =~= Seq::<Seq<u8>>::empty());
        }
        r
    }

    /// The number of strings in the table.
    pub fn len(&self) -> (r: usize)
        ensures
            r == self.view_spec().len(),
    {
        self.entries.len()
    }

    /// Intern a byte string: equal ids for byte-equal inputs. The id of a
    /// new string is the table length before the call.
    pub fn intern(&mut self, s: Vec<u8>) -> (id: usize)
        requires
            old(self).view_spec().len() < 0xFFFF,
        ensures
            ({
                let (t, i) = intern_spec(old(self).view_spec(), s@);
                final(self).view_spec() == t && id == i
            }),
            final(self).view_spec()[id as int] == s@,
            id <= old(self).view_spec().len(),
    {
        let ghost sv = self.view_spec();
        let n = self.entries.len();
        let mut j: usize = 0;
        while j < n
            invariant
                j <= n,
                n == self.entries@.len(),
                sv == strings_view(self.entries@),
                forall|k: int| 0 <= k < j ==> sv[k] != s@,
            decreases n - j,
        {
            if vec_u8_eq(&self.entries[j], &s) {
                proof {
                    assert(sv[j as int] == s@);
                    lemma_first_match_found(sv, s@, j as int);
                }
                return j;
            }
            j = j + 1;
        }
        proof {
            lemma_first_match_absent(sv, s@);
        }
        self.entries.push(s);
        proof {
            assert(self.view_spec() =~= sv.push(s@));
        }
        n
    }
}

/// Byte-vector equality, as the view equality.
pub(crate) fn vec_u8_eq(a: &Vec<u8>, b: &Vec<u8>) -> (r: bool)
    ensures
        r == (a@ == b@),
{
    if a.len() != b.len() {
        return false;
    }
    let mut i: usize = 0;
    while i < a.len()
        invariant
            i <= a@.len(),
            a@.len() == b@.len(),
            forall|k: int| 0 <= k < i ==> a@[k] == b@[k],
        decreases a@.len() - i,
    {
        if a[i] != b[i] {
            return false;
        }
        i = i + 1;
    }
    proof {
        assert(a@ =~= b@);
    }
    true
}

/// Parsing is the inverse of serialization for the string section.
pub proof fn lemma_parse_ser_strtab(b: Seq<u8>, i: int, strings: Seq<Seq<u8>>)
    requires
        0 <= i,
        strings_fit(strings),
        i + ser_strtab(strings).len() <= b.len(),
        b.subrange(i, i + ser_strtab(strings).len() as int) == ser_strtab(strings),
    ensures
        parse_strtab(b, i, strings.len() as int) == Ok::<(Seq<Seq<u8>>, int), DecodeError>(
            (strings, i + ser_strtab(strings).len()),
        ),
{
    let s = ser_strtab(strings);
    let n = strings.len() as int;
    let blob = blob_of(strings);
    lemma_entries_len(strings, 0);
    lemma_blob_len(strings);
    assert forall|k: int| 0 <= k < s.len() implies b[i + k] == s[k] by {
        assert(b.subrange(i, i + s.len() as int)[k] == b[i + k]);
    }
    // the blob length field
    let blob_len_at = i + 6 * n;
    lemma_le32_roundtrip(blob.len() as u32);
    assert(rd32(b, blob_len_at) == blob.len() as u32) by {
        let lb = le32_bytes(blob.len() as u32);
        assert(b[i + (6 * n + 0)] == s[6 * n + 0]);
        assert(b[i + (6 * n + 1)] == s[6 * n + 1]);
        assert(b[i + (6 * n + 2)] == s[6 * n + 2]);
        assert(b[i + (6 * n + 3)] == s[6 * n + 3]);
        assert(s[6 * n + 0] == lb[0] && s[6 * n + 1] == lb[1] && s[6 * n + 2] == lb[2] && s[6 * n
            + 3] == lb[3]);
    }
    let blob_start = blob_len_at + 4;
    // the blob itself
    assert(b.subrange(blob_start, blob_start + blob.len() as int) =~= blob) by {
        assert forall|k2: int| 0 <= k2 < blob.len() implies b[blob_start + k2] == blob[k2] by {
            assert(b[i + (6 * n + 4 + k2)] == s[6 * n + 4 + k2]);
            assert(s[6 * n + 4 + k2] == blob[k2]);
        }
    }
    // each entry reads back the dense offset and length
    assert forall|k: int| 0 <= k < n implies rd32(b, i + 6 * k) == offset_of(strings, k) as u32
        && rd16(b, i + 6 * k + 4) == strings[k].len() as u16 by {
        lemma_entries_at(strings, 0, k);
        let ent = le32_bytes(offset_of(strings, k) as u32) + le16_bytes(strings[k].len() as u16);
        assert forall|k2: int| 0 <= k2 < 6 implies b[i + 6 * k + k2] == ent[k2] by {
            assert(b[i + (6 * k + k2)] == s[6 * k + k2]);
            assert(s[6 * k + k2] == ser_entries(strings, 0)[6 * k + k2]);
            assert(ser_entries(strings, 0).subrange(6 * k, 6 * k + 6)[k2] == ser_entries(
                strings,
                0,
            )[6 * k + k2]);
        }
        assert(b[i + 6 * k] == ent[0] && b[i + 6 * k + 1] == ent[1] && b[i + 6 * k + 2] == ent[2]
            && b[i + 6 * k + 3] == ent[3]);
        assert(b[i + 6 * k + 4] == ent[4] && b[i + 6 * k + 5] == ent[5]);
        lemma_le32_roundtrip(offset_of(strings, k) as u32);
        lemma_le16_roundtrip(strings[k].len() as u16);
        lemma_offset_bounds(strings, k);
        lemma_offset_nonneg(strings, k);
    }
    // every entry is inside the blob
    assert forall|k: int| 0 <= k < n implies #[trigger] entry_in_blob(
        b,
        i,
        k,
        rd32(b, blob_len_at) as int,
    ) by {
        lemma_offset_bounds(strings, k);
    }
    // the parsed strings are the originals
    let parsed = Seq::new(
        n as nat,
        |k: int|
            b.subrange(
                blob_start + rd32(b, i + 6 * k),
                blob_start + rd32(b, i + 6 * k) + rd16(b, i + 6 * k + 4),
            ),
    );
    assert forall|k: int| 0 <= k < n implies parsed[k] == strings[k] by {
        lemma_offset_bounds(strings, k);
        lemma_offset_nonneg(strings, k);
        lemma_blob_at(strings, k);
        let o = offset_of(strings, k);
        let l = strings[k].len() as int;
        assert(b.subrange(blob_start + o, blob_start + o + l) =~= blob.subrange(o, o + l)) by {
            assert forall|k2: int| 0 <= k2 < l implies #[trigger] b.subrange(
                blob_start + o,
                blob_start + o + l,
            )[k2] == blob.subrange(o, o + l)[k2] by {
                assert(b.subrange(blob_start, blob_start + blob.len() as int)[o + k2] == b[
                    blob_start + o + k2]);
            }
        }
    }
    assert(parsed =~= strings);
    assert(s.len() == 6 * n + 4 + blob.len());
}

} // verus!
