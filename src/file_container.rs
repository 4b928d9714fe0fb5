//! The indexed container format.
//!
//! A container starts with the four magic bytes `ofc\0`, then a little-endian
//! `u32` entry count `N`, then `N` little-endian `u64` cumulative end offsets,
//! then the payload: the bytes of all entries, one after the other. Entry `i`
//! occupies `[offsets[i - 1], offsets[i])` of the payload, with
//! `offsets[-1] = 0`.
use vstd::prelude::*;
use vstd::slice::slice_subrange;
use vstd::slice::slice_to_vec;

verus! {

/// Length of the fixed prefix: magic and entry count.
pub const PREFIX_LEN: usize = 8;

/// The magic bytes that open every container.
pub open spec fn magic() -> Seq<u8> {
    seq![0x6fu8, 0x66u8, 0x63u8, 0x00u8]
}

/// The little-endian value of the four bytes of `s` at `at`.
pub open spec fn le_u32(s: Seq<u8>, at: int) -> nat {
    s[at] as nat + s[at + 1] as nat * 0x100 + s[at + 2] as nat * 0x10000 + s[at + 3] as nat
        * 0x1000000
}

/// The little-endian value of the eight bytes of `s` at `at`.
pub open spec fn le_u64(s: Seq<u8>, at: int) -> nat {
    le_u32(s, at) + le_u32(s, at + 4) * 0x100000000
}

/// Size of the header of a container with `n` entries.
pub open spec fn header_len(n: nat) -> nat {
    8 + 8 * n
}

/// The entry count that a prefix declares.
pub open spec fn count_of(data: Seq<u8>) -> nat {
    le_u32(data, 4)
}

/// Whether `data` starts with the magic bytes.
pub open spec fn has_magic(data: Seq<u8>) -> bool {
    data.len() >= 4 && data.subrange(0, 4) == magic()
}

/// The `i`-th end offset in the table of `data`.
pub open spec fn table_entry(data: Seq<u8>, i: int) -> nat {
    le_u64(data, 8 + 8 * i)
}

/// Where entry `i` starts in the payload.
pub open spec fn entry_start(offsets: Seq<u64>, i: int) -> int {
    if i == 0 {
        0
    } else {
        offsets[i - 1] as int
    }
}

/// Whether entry `i` has a start that does not lie past its end.
pub open spec fn entry_ordered(offsets: Seq<u64>, i: int) -> bool {
    entry_start(offsets, i) <= offsets[i]
}

/// The bytes of entry `i` in `payload`.
pub open spec fn entry_of(offsets: Seq<u64>, payload: Seq<u8>, i: int) -> Seq<u8> {
    payload.subrange(entry_start(offsets, i), offsets[i] as int)
}

/// The payload of the container file `data` whose table has `n` entries.
pub open spec fn payload_of(data: Seq<u8>, n: nat) -> Seq<u8> {
    data.skip(header_len(n) as int)
}

/// The total of the first `k` sizes.
pub open spec fn sum_sizes(sizes: Seq<nat>, k: int) -> nat
    decreases k,
{
    if k <= 0 {
        0
    } else {
        sum_sizes(sizes, k - 1) + sizes[k - 1]
    }
}

/// Entries `0..k` of `payload`, one after the other.
pub open spec fn concat_entries(offsets: Seq<u64>, payload: Seq<u8>, k: int) -> Seq<u8>
    decreases k,
{
    if k <= 0 {
        Seq::empty()
    } else {
        concat_entries(offsets, payload, k - 1) + entry_of(offsets, payload, k - 1)
    }
}

proof fn lemma_sum_sizes_monotone(sizes: Seq<nat>, j: int, k: int)
    requires
        0 <= j <= k <= sizes.len(),
    ensures
        sum_sizes(sizes, j) <= sum_sizes(sizes, k),
    decreases k - j,
{
    if j < k {
        lemma_sum_sizes_monotone(sizes, j, k - 1);
    }
}

proof fn lemma_concat_prefix(offsets: Seq<u64>, payload: Seq<u8>, sizes: Seq<nat>, k: int)
    requires
        0 <= k <= offsets.len() == sizes.len(),
        forall|i: int| 0 <= i < offsets.len() ==> #[trigger] offsets[i] == sum_sizes(sizes, i + 1),
        payload.len() == sum_sizes(sizes, sizes.len() as int),
    ensures
        concat_entries(offsets, payload, k) == payload.subrange(0, sum_sizes(sizes, k) as int),
    decreases k,
{
    if k == 0 {
        assert(payload.subrange(0, 0) =~= Seq::<u8>::empty());
    } else {
        lemma_concat_prefix(offsets, payload, sizes, k - 1);
        lemma_sum_sizes_monotone(sizes, k - 1, k);
        lemma_sum_sizes_monotone(sizes, k, sizes.len() as int);
        assert(offsets[k - 1] == sum_sizes(sizes, k));
        if k > 1 {
            assert(offsets[k - 2] == sum_sizes(sizes, k - 1));
        }
        assert(entry_start(offsets, k - 1) == sum_sizes(sizes, k - 1));
        assert(concat_entries(offsets, payload, k) =~= payload.subrange(
            0,
            sum_sizes(sizes, k) as int,
        ));
    }
}

/// A container whose table holds the running totals of the entry sizes
/// `sizes`, over a payload of exactly their total length, serves each entry
/// with its own size, and its entries read in order give back the payload:
/// no byte is skipped and none is served twice.
pub proof fn lemma_entries_round_trip(offsets: Seq<u64>, payload: Seq<u8>, sizes: Seq<nat>)
    requires
        offsets.len() == sizes.len(),
        forall|i: int| 0 <= i < offsets.len() ==> #[trigger] offsets[i] == sum_sizes(sizes, i + 1),
        payload.len() == sum_sizes(sizes, sizes.len() as int),
    ensures
        forall|i: int|
            0 <= i < offsets.len() ==> entry_ordered(offsets, i) && offsets[i] <= payload.len(),
        forall|i: int|
            0 <= i < offsets.len() ==> (#[trigger] entry_of(offsets, payload, i)).len() == sizes[i],
        concat_entries(offsets, payload, offsets.len() as int) == payload,
{
    let n = offsets.len() as int;
    assert forall|i: int| 0 <= i < n implies entry_start(offsets, i) == sum_sizes(sizes, i) by {
        if i > 0 {
            assert(offsets[i - 1] == sum_sizes(sizes, i));
        }
    }
    assert forall|i: int| 0 <= i < n implies entry_ordered(offsets, i) && offsets[i]
        <= payload.len() by {
        assert(offsets[i] == sum_sizes(sizes, i + 1));
        lemma_sum_sizes_monotone(sizes, i + 1, n);
    }
    assert forall|i: int| 0 <= i < n implies (#[trigger] entry_of(offsets, payload, i)).len()
        == sizes[i] by {
        assert(offsets[i] == sum_sizes(sizes, i + 1));
        lemma_sum_sizes_monotone(sizes, i + 1, n);
    }
    lemma_concat_prefix(offsets, payload, sizes, n);
    assert(payload.subrange(0, payload.len() as int) =~= payload);
}

/// Why a container could not be opened or an entry could not be read.
#[derive(Debug, Clone, Copy, PartialEq, Eq, Structural)]
pub enum ContainerError {
    /// The file does not start with the magic bytes.
    BadMagic,
    /// The file ends before the header or the entry does.
    ShortRead,
    /// The offsets table puts the start of an entry past its end.
    CorruptTable,
    /// The container holds no entry.
    NoEntries,
}

/// A run of bytes in a container file: where it starts and how long it is.
#[derive(Debug, Clone, Copy, PartialEq, Eq, Structural)]
pub struct Span {
    pub start: u64,
    pub len: u64,
}

fn read_u32_le(b: &[u8], at: usize) -> (r: u32)
    requires
        at + 4 <= b.len(),
    ensures
        r == le_u32(b@, at as int),
{
    b[at] as u32 + (b[at + 1] as u32) * 0x100 + (b[at + 2] as u32) * 0x10000 + (b[at + 3] as u32)
        * 0x1000000
}

fn read_u64_le(b: &[u8], at: usize) -> (r: u64)
    requires
        at + 8 <= b.len(),
    ensures
        r == le_u64(b@, at as int),
{
    let lo = read_u32_le(b, at) as u64;
    let hi = read_u32_le(b, at + 4) as u64;
    lo + hi * 0x100000000
}

/// The entry count declared by the prefix of a container file.
fn parse_prefix(prefix: &[u8]) -> (r: Result<u32, ContainerError>)
    ensures
        prefix@.len() < 8 ==> r == Err::<u32, ContainerError>(ContainerError::ShortRead),
        prefix@.len() >= 8 && !has_magic(prefix@) ==> r == Err::<u32, ContainerError>(
            ContainerError::BadMagic,
        ),
        prefix@.len() >= 8 && has_magic(prefix@) ==> r == Ok::<u32, ContainerError>(
            count_of(prefix@) as u32,
        ),
{
    if prefix.len() < PREFIX_LEN {
        return Err(ContainerError::ShortRead);
    }
    let ok = prefix[0] == 0x6f && prefix[1] == 0x66 && prefix[2] == 0x63 && prefix[3] == 0x00;
    if !ok {
        assert(!has_magic(prefix@)) by {
            if has_magic(prefix@) {
                assert(prefix@.subrange(0, 4)[0] == prefix@[0]);
                assert(prefix@.subrange(0, 4)[1] == prefix@[1]);
                assert(prefix@.subrange(0, 4)[2] == prefix@[2]);
                assert(prefix@.subrange(0, 4)[3] == prefix@[3]);
            }
        }
        return Err(ContainerError::BadMagic);
    }
    assert(prefix@.subrange(0, 4) =~= magic());
    Ok(read_u32_le(prefix, 4))
}

/// The size of the whole header of a container file, read from its first
/// eight bytes: the number of bytes from the start of the file that
/// [`FileContainer::open`] needs.
pub fn header_size(prefix: &[u8]) -> (r: Result<u64, ContainerError>)
    ensures
        prefix@.len() < 8 ==> r == Err::<u64, ContainerError>(ContainerError::ShortRead),
        prefix@.len() >= 8 && !has_magic(prefix@) ==> r == Err::<u64, ContainerError>(
            ContainerError::BadMagic,
        ),
        prefix@.len() >= 8 && has_magic(prefix@) ==> r == Ok::<u64, ContainerError>(
            header_len(count_of(prefix@)) as u64,
        ),
{
    let n = parse_prefix(prefix)?;
    Ok(8 + 8 * (n as u64))
}

/// Where the cover (entry 0) of a container lies in its file, read from the
/// first sixteen bytes of the file without looking at the rest of the table.
pub fn cover_span(prefix: &[u8]) -> (r: Result<Span, ContainerError>)
    ensures
        prefix@.len() < 8 ==> r == Err::<Span, ContainerError>(ContainerError::ShortRead),
        prefix@.len() >= 8 && !has_magic(prefix@) ==> r == Err::<Span, ContainerError>(
            ContainerError::BadMagic,
        ),
        prefix@.len() >= 8 && has_magic(prefix@) && count_of(prefix@) == 0 ==> r == Err::<
            Span,
            ContainerError,
        >(ContainerError::NoEntries),
        prefix@.len() >= 8 && prefix@.len() < 16 && has_magic(prefix@) && count_of(prefix@) > 0
            ==> r == Err::<Span, ContainerError>(ContainerError::ShortRead),
        prefix@.len() >= 16 && has_magic(prefix@) && count_of(prefix@) > 0 ==> r == Ok::<
            Span,
            ContainerError,
        >(Span { start: header_len(count_of(prefix@)) as u64, len: table_entry(prefix@, 0) as u64 }),
{
    let n = parse_prefix(prefix)?;
    if n == 0 {
        return Err(ContainerError::NoEntries);
    }
    if prefix.len() < 16 {
        return Err(ContainerError::ShortRead);
    }
    let end = read_u64_le(prefix, 8);
    Ok(Span { start: 8 + 8 * (n as u64), len: end })
}

/// The offsets table of one container: everything needed to find any entry
/// in its file without reading the others.
pub struct FileContainer {
    end_offsets: Vec<u64>,
}

impl View for FileContainer {
    type V = Seq<u64>;

    closed spec fn view(&self) -> Seq<u64> {
        self.end_offsets@
    }
}

impl FileContainer {
    /// Parses the header at the start of a container file. `data` holds the
    /// file from its first byte on, at least the whole header (see
    /// [`header_size`]); bytes past the header are not looked at. The table
    /// is taken as it stands: whether its offsets are ordered is checked when
    /// an entry is read.
    pub fn open(data: &[u8]) -> (r: Result<FileContainer, ContainerError>)
        ensures
            data@.len() < 8 ==> r == Err::<FileContainer, ContainerError>(
                ContainerError::ShortRead,
            ),
            data@.len() >= 8 && !has_magic(data@) ==> r == Err::<FileContainer, ContainerError>(
                ContainerError::BadMagic,
            ),
            data@.len() >= 8 && has_magic(data@) && data@.len() < header_len(count_of(data@))
                ==> r == Err::<FileContainer, ContainerError>(ContainerError::ShortRead),
            data@.len() >= 8 && has_magic(data@) && data@.len() >= header_len(count_of(data@))
                ==> r is Ok,
            r matches Ok(c) ==> c@.len() == count_of(data@) && forall|i: int|
                0 <= i < c@.len() ==> #[trigger] c@[i] == table_entry(data@, i),
    {
        let n = parse_prefix(data)?;
        let n = n as usize;
        if (data.len() - 8) / 8 < n {
            return Err(ContainerError::ShortRead);
        }
        let mut end_offsets: Vec<u64> = Vec::new();
        let mut i: usize = 0;
        while i < n
            invariant
                n == count_of(data@),
                8 + 8 * n <= data.len(),
                i <= n,
                end_offsets@.len() == i,
                forall|j: int| 0 <= j < i ==> #[trigger] end_offsets@[j] == table_entry(data@, j),
            decreases n - i,
        {
            end_offsets.push(read_u64_le(data, 8 + 8 * i));
            i += 1;
        }
        Ok(FileContainer { end_offsets })
    }

    /// The number of entries.
    pub fn len(&self) -> (r: usize)
        ensures
            r == self@.len(),
    {
        self.end_offsets.len()
    }

    /// Where entry `i` lies in the container file. `None` where the table
    /// puts the entry's start past its end, or where the position does not
    /// fit in a `u64`.
    pub fn entry_span(&self, i: usize) -> (r: Option<Span>)
        requires
            i < self@.len(),
        ensures
            r is Some <==> entry_ordered(self@, i as int) && header_len(self@.len())
                + self@[i as int] <= u64::MAX,
            r matches Some(s) ==> s.start == header_len(self@.len()) + entry_start(self@, i as int)
                && s.len == self@[i as int] - entry_start(self@, i as int),
    {
        let start: u64 = if i == 0 {
            0
        } else {
            self.end_offsets[i - 1]
        };
        let end = self.end_offsets[i];
        if end < start {
            return None;
        }
        let n = self.end_offsets.len() as u64;
        if n > (u64::MAX - 8) / 8 {
            return None;
        }
        let header = 8 + 8 * n;
        if end > u64::MAX - header {
            return None;
        }
        Some(Span { start: header + start, len: end - start })
    }

    /// The bytes of entry `i`, taken from `data`, the whole container file.
    pub fn read_at(&self, data: &[u8], i: usize) -> (r: Result<Vec<u8>, ContainerError>)
        requires
            i < self@.len(),
        ensures
            !entry_ordered(self@, i as int) ==> r == Err::<Vec<u8>, ContainerError>(
                ContainerError::CorruptTable,
            ),
            entry_ordered(self@, i as int) && header_len(self@.len()) + self@[i as int]
                > data@.len() ==> r == Err::<Vec<u8>, ContainerError>(ContainerError::ShortRead),
            entry_ordered(self@, i as int) && header_len(self@.len()) + self@[i as int]
                <= data@.len() ==> (r matches Ok(v) && v@ == entry_of(
                self@,
                payload_of(data@, self@.len()),
                i as int,
            )),
    {
        assert(data@.len() == data.len());
        if i > 0 && self.end_offsets[i] < self.end_offsets[i - 1] {
            return Err(ContainerError::CorruptTable);
        }
        match self.entry_span(i) {
            None => Err(ContainerError::ShortRead),
            Some(s) => {
                if s.start > data.len() as u64 || s.len > data.len() as u64 - s.start {
                    return Err(ContainerError::ShortRead);
                }
                let from = s.start as usize;
                let to = (s.start + s.len) as usize;
                let bytes = slice_to_vec(slice_subrange(data, from, to));
                assert(bytes@ =~= entry_of(self@, payload_of(data@, self@.len()), i as int));
                Ok(bytes)
            },
        }
    }
}

} // verus!
