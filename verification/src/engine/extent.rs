//! Large Object Region and Extent Allocator.

use std::collections::{HashSet, VecDeque};

use vstd::prelude::*;

use crate::codec;
use crate::engine::layout;
use crate::engine::layout::{ExtentHeader, ExtentHeaderV2, EXTENT_MAGIC};

verus! {

/// Size of an extent header in bytes.
pub const HEADER_SIZE: u64 = 32;

/// All extents start at a multiple of this many bytes from the previous one.
const EXTENT_ALIGN: u64 = 8;

/// The least multiple of `align` that is not below `val`.
pub open spec fn rounded_up(val: int, align: int) -> int {
    if val % align == 0 {
        val
    } else {
        val - val % align + align
    }
}

/// The footprint of an extent with `len` payload bytes: header and payload,
/// rounded up to 8 bytes.
pub open spec fn extent_footprint(len: int) -> int {
    rounded_up(32 + len, 8)
}

/// [`rounded_up`] gives a multiple of `align`, and no smaller multiple reaches
/// `val`.
pub proof fn lemma_rounded_up(val: int, align: int)
    requires
        align > 0,
    ensures
        rounded_up(val, align) % align == 0,
        val <= rounded_up(val, align) < val + align,
        forall|m: int| val <= m && #[trigger] (m % align) == 0 ==> rounded_up(val, align) <= m,
{
    let q = val / align;
    let r = val % align;
    vstd::arithmetic::div_mod::lemma_fundamental_div_mod(val, align);
    vstd::arithmetic::div_mod::lemma_mod_bound(val, align);
    if r != 0 {
        assert(rounded_up(val, align) == align * (q + 1)) by (nonlinear_arith)
            requires
                rounded_up(val, align) == val - r + align,
                val == align * q + r,
        ;
        vstd::arithmetic::div_mod::lemma_mod_multiples_basic(q + 1, align);
        assert((q + 1) * align == align * (q + 1)) by (nonlinear_arith);
    }
    assert forall|m: int| val <= m && #[trigger] (m % align) == 0 implies rounded_up(val, align)
        <= m by {
        if r != 0 {
            vstd::arithmetic::div_mod::lemma_fundamental_div_mod(m, align);
            let p = m / align;
            assert(p > q) by (nonlinear_arith)
                requires
                    align * p >= align * q + r,
                    0 < r,
                    align > 0,
            ;
            assert(align * (q + 1) <= align * p) by (nonlinear_arith)
                requires
                    p >= q + 1,
                    align > 0,
            ;
        }
    }
}

/// Round `val` up to the nearest multiple of `align`.
pub fn align_up(val: u64, align: u64) -> (r: u64)
    requires
        align > 0,
        rounded_up(val as int, align as int) <= u64::MAX,
    ensures
        r == rounded_up(val as int, align as int),
{
    let rem: u64 = val % align;
    proof {
        vstd::arithmetic::div_mod::lemma_mod_decreases(val as nat, align as nat);
    }
    if rem == 0 {
        val
    } else {
        val - rem + align
    }
}

/// Compute the total footprint of an extent (header + data, 8-byte aligned).
pub fn extent_total(data_len: u64) -> (total: u64)
    requires
        data_len + 39 <= u64::MAX,
    ensures
        total == extent_footprint(data_len as int),
{
    align_up(HEADER_SIZE + data_len, EXTENT_ALIGN)
}

// ---------------------------------------------------------------------------
// ExtentError
// ---------------------------------------------------------------------------
/// Errors returned by extent allocator operations.
#[derive(Debug, PartialEq, Eq, Structural)]
pub enum ExtentError {
    /// The provided offset does not point to a valid extent within the buffer.
    InvalidOffset,
    /// The magic value in the header does not match [`EXTENT_MAGIC`].
    InvalidMagic,
    /// Not enough contiguous space to satisfy the allocation request.
    OutOfSpace,
    /// Attempted to free an offset that is not currently allocated.
    NotAllocated,
}

// ---------------------------------------------------------------------------
// DecodedHeader: abstracts over V1/V2 extent headers
// ---------------------------------------------------------------------------
/// Decoded header information, abstracting over V1 and V2 formats.
#[derive(Debug, Clone, Copy, PartialEq, Eq, Structural)]
pub struct DecodedHeader {
    pub magic: u32,
    /// Where the magic stands, counted from the start of the header.
    pub magic_at: u64,
    pub data_len: u64,
    pub epoch_mark: u64,
    /// `true` if this is a V2 header (32 bytes), `false` for V1 (24 bytes).
    pub is_v2: bool,
}

/// The size of a decoded header in bytes.
pub open spec fn header_len(h: DecodedHeader) -> int {
    if h.is_v2 {
        32
    } else {
        24
    }
}

/// Where the epoch mark of a decoded header stands, counted from its start.
pub open spec fn epoch_at(h: DecodedHeader) -> int {
    if h.is_v2 {
        16
    } else {
        8
    }
}

/// How many bytes of the region an extent with this header takes up.
///
/// A V2 extent is padded to 8 bytes, a V1 extent is not. The footprint of a V1
/// extent whose recorded length overflows saturates.
pub open spec fn footprint(h: DecodedHeader) -> int {
    if h.is_v2 {
        extent_footprint(h.data_len as int)
    } else if 24 + h.data_len > u64::MAX {
        u64::MAX as int
    } else {
        24 + h.data_len
    }
}

/// The header that starts at `off` in `buf`.
///
/// A V1 header shows its magic at byte 16, a V2 header at byte 0 with the
/// version in byte 4; V1 is tried first. Bytes that show neither magic decode to
/// a header with the wrong magic; a header of an unknown version, or one that
/// reaches past the end of `buf`, does not decode.
pub open spec fn decode_header(buf: Seq<u8>, off: int) -> Option<DecodedHeader> {
    if off + 24 <= buf.len() && codec::le_u32_at(buf, off + 16) == EXTENT_MAGIC {
        Some(
            DecodedHeader {
                magic: EXTENT_MAGIC,
                magic_at: 16,
                data_len: codec::le_u64_at(buf, off) as u64,
                epoch_mark: codec::le_u64_at(buf, off + 8) as u64,
                is_v2: false,
            },
        )
    } else if off + 5 > buf.len() {
        None
    } else if codec::le_u32_at(buf, off) != EXTENT_MAGIC {
        Some(
            DecodedHeader {
                magic: codec::le_u32_at(buf, off) as u32,
                magic_at: 0,
                data_len: 0,
                epoch_mark: 0,
                is_v2: false,
            },
        )
    } else if buf[off + 4] == 0 && off + 24 <= buf.len() {
        Some(
            DecodedHeader {
                magic: EXTENT_MAGIC,
                magic_at: 0,
                data_len: codec::le_u64_at(buf, off) as u64,
                epoch_mark: codec::le_u64_at(buf, off + 8) as u64,
                is_v2: false,
            },
        )
    } else if buf[off + 4] == 1 && off + 32 <= buf.len() {
        Some(
            DecodedHeader {
                magic: EXTENT_MAGIC,
                magic_at: 0,
                data_len: codec::le_u32_at(buf, off + 8) as u64,
                epoch_mark: codec::le_u64_at(buf, off + 16) as u64,
                is_v2: true,
            },
        )
    } else {
        None
    }
}

/// The payload of the extent at `off`: present when the header carries the
/// magic and the recorded length stays inside `buf`.
pub open spec fn extent_payload(buf: Seq<u8>, off: int) -> Option<Seq<u8>> {
    match decode_header(buf, off) {
        Some(h) => if h.magic == EXTENT_MAGIC && off + header_len(h) + h.data_len <= buf.len() {
            Some(buf.subrange(off + header_len(h), off + header_len(h) + h.data_len))
        } else {
            None
        },
        None => None,
    }
}

/// The checksum field of the V2 extent at `off`.
pub open spec fn extent_checksum(buf: Seq<u8>, off: int) -> Option<u64> {
    match decode_header(buf, off) {
        Some(h) => if h.is_v2 {
            Some(codec::le_u64_at(buf, off + 24) as u64)
        } else {
            None
        },
        None => None,
    }
}

impl DecodedHeader {
    /// The size of this header in bytes.
    pub fn header_size(&self) -> (size: usize)
        ensures
            size == header_len(*self),
    {
        if self.is_v2 {
            32
        } else {
            24
        }
    }

    /// How many bytes of the region the extent takes up.
    pub fn total_len(&self) -> (total: u64)
        requires
            self.is_v2 ==> self.data_len <= u32::MAX,
        ensures
            total == footprint(*self),
    {
        if self.is_v2 {
            extent_total(self.data_len)
        } else {
            self.data_len.saturating_add(24)
        }
    }
}

/// Decodes the header that starts at `offset`.
pub fn decode_header_at(buf: &[u8], offset: u64) -> (r: Option<DecodedHeader>)
    ensures
        r == decode_header(buf@, offset as int),
        r matches Some(h) ==> (h.is_v2 ==> h.data_len <= u32::MAX) && (h.magic == EXTENT_MAGIC
            ==> offset + header_len(h) <= buf.len()),
{
    let len: usize = buf.len();
    if offset > len as u64 {
        return None;
    }
    let off: usize = offset as usize;
    let room: usize = len - off;
    if room >= 24 {
        let magic_v1: u32 = codec::read_u32(buf, off + 16);
        if magic_v1 == EXTENT_MAGIC {
            let data_len: u64 = codec::read_u64(buf, off);
            let epoch_mark: u64 = codec::read_u64(buf, off + 8);
            return Some(
                DecodedHeader { magic: magic_v1, magic_at: 16, data_len, epoch_mark, is_v2: false },
            );
        }
    }
    if room < 5 {
        return None;
    }
    let magic: u32 = codec::read_u32(buf, off);
    if magic != EXTENT_MAGIC {
        return Some(
            DecodedHeader { magic, magic_at: 0, data_len: 0, epoch_mark: 0, is_v2: false },
        );
    }
    match buf[off + 4] {
        0 => {
            if room < 24 {
                return None;
            }
            let data_len: u64 = codec::read_u64(buf, off);
            let epoch_mark: u64 = codec::read_u64(buf, off + 8);
            Some(DecodedHeader { magic, magic_at: 0, data_len, epoch_mark, is_v2: false })
        },
        1 => {
            if room < 32 {
                return None;
            }
            let data_len: u64 = codec::read_u32(buf, off + 8) as u64;
            let epoch_mark: u64 = codec::read_u64(buf, off + 16);
            Some(DecodedHeader { magic, magic_at: 0, data_len, epoch_mark, is_v2: true })
        },
        _ => None,
    }
}

// ---------------------------------------------------------------------------
// LargeObjectRegion: model
// ---------------------------------------------------------------------------
/// The state of a large-object region.
#[verifier::ext_equal]
pub struct RegionState {
    /// The bytes of the region.
    pub buffer: Seq<u8>,
    /// Freed extents, as `(offset, total length)`, oldest first.
    pub free_list: Seq<(u64, u64)>,
    /// Offsets of the allocated extents.
    pub allocated: Set<u64>,
    /// First offset that no extent has taken yet.
    pub next_offset: int,
}

/// A region of `size` zero bytes in which nothing was ever allocated.
pub open spec fn empty_region(size: nat) -> RegionState {
    RegionState {
        buffer: Seq::new(size, |i: int| 0u8),
        free_list: Seq::empty(),
        allocated: Set::empty(),
        next_offset: 0,
    }
}

/// The 32 header bytes of a live, unmarked V2 extent.
pub open spec fn live_header(data_len: nat, checksum: nat) -> Seq<u8> {
    codec::le_digits(EXTENT_MAGIC as nat, 4) + seq![1u8, 0u8, 0u8, 0u8] + codec::le_digits(
        data_len,
        4,
    ) + seq![0u8, 0u8, 0u8, 0u8] + codec::le_digits(0, 8) + codec::le_digits(checksum, 8)
}

/// The 24 header bytes of a live, unmarked V1 extent.
pub open spec fn live_header_v1(data_len: nat) -> Seq<u8> {
    codec::le_digits(data_len, 8) + codec::le_digits(0, 8) + codec::le_digits(
        EXTENT_MAGIC as nat,
        4,
    ) + codec::le_digits(0, 4)
}

/// `buf` with a V2 extent that holds `data` written at `off`. The header
/// records the length modulo `2^32`.
pub open spec fn with_extent(buf: Seq<u8>, off: int, data: Seq<u8>, checksum: nat) -> Seq<u8> {
    codec::splice(buf, off, live_header(data.len() % 0x1_0000_0000, checksum) + data)
}

/// `buf` with a V1 extent that holds `data` written at `off`.
pub open spec fn with_extent_v1(buf: Seq<u8>, off: int, data: Seq<u8>) -> Seq<u8> {
    codec::splice(buf, off, live_header_v1(data.len()) + data)
}

/// The index of the first freed extent, from `from` on, of at least `need`
/// bytes; the length of the list when there is none.
pub open spec fn first_fit(free_list: Seq<(u64, u64)>, need: int, from: int) -> int
    decreases free_list.len() - from,
{
    if from >= free_list.len() {
        free_list.len() as int
    } else if free_list[from].1 >= need {
        from
    } else {
        first_fit(free_list, need, from + 1)
    }
}

/// The free list after `need` bytes of its entry `i` are taken: a larger entry
/// leaves its tail at the end of the list.
pub open spec fn take_entry(free_list: Seq<(u64, u64)>, i: int, need: int) -> Seq<(u64, u64)> {
    let (off, len) = free_list[i];
    let rest = free_list.remove(i);
    if len > need {
        rest.push(((off + need) as u64, (len - need) as u64))
    } else {
        rest
    }
}

/// Allocation of an extent for `data`: first fit from the free list, else at
/// `next_offset`, else nothing.
pub open spec fn allocate_in(s: RegionState, data: Seq<u8>) -> (RegionState, Option<u64>) {
    let need = extent_footprint(data.len() as int);
    let i = first_fit(s.free_list, need, 0);
    if i < s.free_list.len() {
        let off = s.free_list[i].0;
        (
            RegionState {
                buffer: with_extent(s.buffer, off as int, data, 0),
                free_list: take_entry(s.free_list, i, need),
                allocated: s.allocated.insert(off),
                next_offset: s.next_offset,
            },
            Some(off),
        )
    } else {
        bump_in(s, need, with_extent(s.buffer, s.next_offset, data, 0))
    }
}

/// Allocation of `need` bytes at `next_offset`, after which the region holds
/// `buffer`; nothing changes when the bytes are not there.
pub open spec fn bump_in(s: RegionState, need: int, buffer: Seq<u8>) -> (RegionState, Option<u64>) {
    if s.next_offset + need > s.buffer.len() {
        (s, None)
    } else {
        (
            RegionState {
                buffer,
                free_list: s.free_list,
                allocated: s.allocated.insert(s.next_offset as u64),
                next_offset: s.next_offset + need,
            },
            Some(s.next_offset as u64),
        )
    }
}

/// The freed extent that an allocation of `data` would take lies inside the
/// region.
pub open spec fn fit_in_bounds(s: RegionState, data: Seq<u8>) -> bool {
    let need = extent_footprint(data.len() as int);
    let i = first_fit(s.free_list, need, 0);
    i < s.free_list.len() ==> s.free_list[i].0 + need <= s.buffer.len()
}

/// `buf` without a magic at `off`: the magic of the header `h` is zeroed, and so
/// are the first four bytes, where the length of a V1 extent can pass for a magic.
pub open spec fn without_magic(buf: Seq<u8>, off: int, h: DecodedHeader) -> Seq<u8> {
    let zeros = seq![0u8, 0u8, 0u8, 0u8];
    codec::splice(codec::splice(buf, off + h.magic_at, zeros), off, zeros)
}

/// Release of the extent at `off`, whose header is `h`: the magic is zeroed and
/// the bytes join the end of the free list.
pub open spec fn release(s: RegionState, off: u64, h: DecodedHeader) -> RegionState {
    RegionState {
        buffer: without_magic(s.buffer, off as int, h),
        free_list: s.free_list.push((off, footprint(h) as u64)),
        allocated: s.allocated.remove(off),
        next_offset: s.next_offset,
    }
}

/// Freeing the extent at `off`.
pub open spec fn free_in(s: RegionState, off: u64) -> (RegionState, Result<(), ExtentError>) {
    if !s.allocated.contains(off) {
        (s, Err(ExtentError::NotAllocated))
    } else {
        match decode_header(s.buffer, off as int) {
            None => (s, Err(ExtentError::InvalidOffset)),
            Some(h) => if h.magic != EXTENT_MAGIC {
                (s, Err(ExtentError::InvalidMagic))
            } else {
                (release(s, off, h), Ok(()))
            },
        }
    }
}

/// Marking the extent at `off` with `epoch`.
pub open spec fn mark_in(s: RegionState, off: u64, epoch: u64) -> (RegionState, Result<
    (),
    ExtentError,
>) {
    match decode_header(s.buffer, off as int) {
        None => (s, Err(ExtentError::InvalidOffset)),
        Some(h) => if h.magic != EXTENT_MAGIC {
            (s, Err(ExtentError::InvalidMagic))
        } else {
            (
                RegionState {
                    buffer: codec::splice(
                        s.buffer,
                        off + epoch_at(h),
                        codec::le_digits(epoch as nat, 8),
                    ),
                    ..s
                },
                Ok(()),
            )
        },
    }
}

/// Whether a sweep at `min_active_epoch` collects the extent at `off`: its
/// epoch mark is non-zero and lies before that epoch.
pub open spec fn collectable(buf: Seq<u8>, off: u64, min_active_epoch: u64) -> bool {
    decode_header(buf, off as int) matches Some(h) && 0 < h.epoch_mark < min_active_epoch
}

/// A sweep that visits the offsets of `order` one after the other, and the
/// number of extents that it collects.
pub open spec fn sweep_in(s: RegionState, order: Seq<u64>, min_active_epoch: u64) -> (
    RegionState,
    nat,
)
    decreases order.len(),
{
    if order.len() == 0 {
        (s, 0)
    } else {
        let (t, n) = sweep_in(s, order.drop_last(), min_active_epoch);
        let off = order.last();
        if collectable(t.buffer, off, min_active_epoch) {
            (release(t, off, decode_header(t.buffer, off as int)->0), n + 1)
        } else {
            (t, n)
        }
    }
}

/// `order` lists every member of `set` once.
pub open spec fn enumerates(order: Seq<u64>, set: Set<u64>) -> bool {
    order.no_duplicates() && order.to_set() == set
}

/// The bytes that the allocated extent at `off` occupies, header included. One
/// whose magic is gone counts as an empty extent, one without a readable header
/// as nothing.
pub open spec fn occupied(buf: Seq<u8>, off: u64) -> int {
    match decode_header(buf, off as int) {
        None => 0,
        Some(h) => if h.magic == EXTENT_MAGIC {
            footprint(h)
        } else {
            extent_footprint(0)
        },
    }
}

/// The sum of [`occupied`] over the offsets of `order`.
pub open spec fn occupied_sum(buf: Seq<u8>, order: Seq<u64>) -> int
    decreases order.len(),
{
    if order.len() == 0 {
        0
    } else {
        occupied_sum(buf, order.drop_last()) + occupied(buf, order.last())
    }
}

/// Whether the header at `off` is that of a live extent.
pub open spec fn live_at(buf: Seq<u8>, off: int) -> bool {
    decode_header(buf, off) matches Some(h) && h.magic == EXTENT_MAGIC
}

/// The bytes from `a` on and those from `b` on do not overlap.
pub open spec fn apart(a: int, a_len: int, b: int, b_len: int) -> bool {
    a + a_len <= b || b + b_len <= a
}

/// The extent at `off` is live and ends before `next_offset`.
pub open spec fn extent_inside(s: RegionState, off: u64) -> bool {
    &&& live_at(s.buffer, off as int)
    &&& off + footprint(decode_header(s.buffer, off as int)->0) <= s.next_offset
    &&& off + header_len(decode_header(s.buffer, off as int)->0) + decode_header(
        s.buffer,
        off as int,
    )->0.data_len <= s.next_offset
}

/// How many bytes the live extent at `off` takes up.
pub open spec fn span(s: RegionState, off: u64) -> int {
    footprint(decode_header(s.buffer, off as int)->0)
}

/// Every allocated offset starts a live extent in the used part of the region,
/// every freed extent lies there too, and no two of them overlap.
pub open spec fn sound(s: RegionState) -> bool {
    &&& 0 <= s.next_offset <= s.buffer.len() <= u64::MAX
    &&& forall|a: u64| #[trigger] s.allocated.contains(a) ==> extent_inside(s, a)
    &&& forall|i: int|
        0 <= i < s.free_list.len() ==> (#[trigger] s.free_list[i]).1 > 0 && s.free_list[i].0
            + s.free_list[i].1 <= s.next_offset
    &&& forall|a: u64, b: u64|
        #[trigger] s.allocated.contains(a) && #[trigger] s.allocated.contains(b) && a != b ==> apart(
            a as int,
            span(s, a),
            b as int,
            span(s, b),
        )
    &&& forall|a: u64, i: int|
        #[trigger] s.allocated.contains(a) && 0 <= i < s.free_list.len() ==> apart(
            a as int,
            span(s, a),
            (#[trigger] s.free_list[i]).0 as int,
            s.free_list[i].1 as int,
        )
    &&& forall|i: int, j: int|
        0 <= i < s.free_list.len() && 0 <= j < s.free_list.len() && i != j ==> apart(
            (#[trigger] s.free_list[i]).0 as int,
            s.free_list[i].1 as int,
            (#[trigger] s.free_list[j]).0 as int,
            s.free_list[j].1 as int,
        )
}

// ---------------------------------------------------------------------------
// LargeObjectRegion
// ---------------------------------------------------------------------------
/// Manages the Large Object Region: a contiguous byte buffer for storing
/// Extent-allocated large values.
///
/// # Allocation Strategy
///
/// 1. Search the free list for a freed extent of at least the needed size. If a
///    larger extent is found, split it and put the remainder back.
/// 2. If no suitable free extent exists, bump-allocate from `next_offset`.
/// 3. Returns `None` when the region is exhausted.
pub struct LargeObjectRegion {
    /// The backing buffer.
    pub buffer: Vec<u8>,
    /// Free list: deque of `(offset, total_length)` for freed extents.
    pub free_list: VecDeque<(u64, u64)>,
    /// Set of currently-allocated extent offsets (for sweep iteration).
    pub allocated: HashSet<u64>,
    /// Next allocation offset when the free list is empty (bump pointer).
    pub next_offset: u64,
    /// Total capacity of the region in bytes.
    pub size: u64,
}

impl View for LargeObjectRegion {
    type V = RegionState;

    open spec fn view(&self) -> RegionState {
        RegionState {
            buffer: self.buffer@,
            free_list: self.free_list@,
            allocated: self.allocated@,
            next_offset: self.next_offset as int,
        }
    }
}

/// Lists the members of a set, in no particular order.
fn list_members(set: &HashSet<u64>) -> (v: Vec<u64>)
    ensures
        enumerates(v@, set@),
{
    broadcast use vstd::std_specs::hash::group_hash_axioms;

    let ghost members = vstd::std_specs::iter::IteratorSpec::remaining(
        &vstd::std_specs::hash::spec_hash_keys_iter(set),
    );
    let mut v: Vec<u64> = Vec::new();
    for x in it: set.iter()
        invariant
            it.seq() == members,
            v@ == members.unref().take(it.index() as int),
    {
        v.push(*x);
    }
    assert(v@ =~= members.unref());
    v
}

impl LargeObjectRegion {
    /// The buffer has the recorded size, and no more of it is taken than that.
    pub open spec fn wf(&self) -> bool {
        &&& self.buffer.len() == self.size
        &&& self.next_offset <= self.size
    }

    /// Create a new Large Object Region with the given total capacity.
    ///
    /// The buffer is zero-initialised.
    pub fn new(size: usize) -> (r: Self)
        ensures
            r.wf(),
            r.size == size,
            r@ == empty_region(size as nat),
    {
        let buffer: Vec<u8> = vec![0u8; size];
        assert(buffer@ =~= Seq::new(size as nat, |i: int| 0u8));
        LargeObjectRegion {
            buffer,
            free_list: VecDeque::new(),
            allocated: HashSet::new(),
            next_offset: 0,
            size: size as u64,
        }
    }

    /// The index of the first freed extent of at least `need` bytes.
    fn find_fit(&self, need: u64) -> (r: usize)
        ensures
            r == first_fit(self.free_list@, need as int, 0),
            r <= self.free_list@.len(),
    {
        let mut i: usize = 0;
        while i < self.free_list.len()
            invariant
                i <= self.free_list@.len(),
                first_fit(self.free_list@, need as int, 0) == first_fit(
                    self.free_list@,
                    need as int,
                    i as int,
                ),
            decreases self.free_list@.len() - i,
        {
            if self.free_list[i].1 >= need {
                return i;
            }
            i = i + 1;
        }
        i
    }

    /// Allocate an extent holding the given data.
    ///
    /// Returns the byte offset of the extent header within the region,
    /// or `None` if there is not enough contiguous space.
    pub fn allocate(&mut self, data: &[u8]) -> (r: Option<u64>)
        requires
            old(self).wf(),
            data@.len() + 39 <= u64::MAX,
            fit_in_bounds(old(self)@, data@),
        ensures
            final(self).wf(),
            final(self).size == old(self).size,
            (final(self)@, r) == allocate_in(old(self)@, data@),
    {
        broadcast use vstd::std_specs::hash::group_hash_axioms;

        let total_needed: u64 = extent_total(data.len() as u64);
        // Search the free list for a suitable freed extent.
        let idx: usize = self.find_fit(total_needed);
        if idx < self.free_list.len() {
            let (offset, len) = self.free_list[idx];
            let _ = self.free_list.remove(idx);
            // Split: put the unused tail back into the free list.
            if len > total_needed {
                self.free_list.push_back((offset + total_needed, len - total_needed));
            }
            self.write_extent(offset, data, 0);
            self.allocated.insert(offset);
            return Some(offset);
        }
        // Bump-allocate from the tail.

        if total_needed > self.size - self.next_offset {
            return None;
        }
        let offset: u64 = self.next_offset;
        self.next_offset = self.next_offset + total_needed;
        self.write_extent(offset, data, 0);
        self.allocated.insert(offset);
        Some(offset)
    }

    /// Write an [`ExtentHeaderV2`] and the data at the given offset.
    fn write_extent(&mut self, offset: u64, data: &[u8], checksum: u64)
        requires
            offset + 32 + data@.len() <= old(self).buffer.len(),
        ensures
            final(self).buffer@ == with_extent(
                old(self).buffer@,
                offset as int,
                data@,
                checksum as nat,
            ),
            final(self).buffer@.len() == old(self).buffer@.len(),
            final(self).free_list == old(self).free_list,
            final(self).allocated == old(self).allocated,
            final(self).next_offset == old(self).next_offset,
            final(self).size == old(self).size,
    {
        let n: u64 = data.len() as u64;
        let data_len: u32 = (n % 0x1_0000_0000) as u32;
        let hdr = ExtentHeaderV2::live(data_len, checksum);
        let mut bytes: Vec<u8> = hdr.to_bytes();
        let ghost header = bytes@;
        assert(header =~= live_header(data@.len() % 0x1_0000_0000, checksum as nat));
        bytes.extend_from_slice(data);
        assert(bytes@ =~= header + data@);
        codec::write_at(&mut self.buffer, offset as usize, &bytes);
    }

    /// Read and interpret the extent header at the given offset.
    /// Automatically detects V1 (24-byte) vs V2 (32-byte) format.
    fn read_decoded_header(&self, offset: u64) -> (r: Option<DecodedHeader>)
        ensures
            r == decode_header(self.buffer@, offset as int),
            r matches Some(h) ==> (h.is_v2 ==> h.data_len <= u32::MAX) && (h.magic == EXTENT_MAGIC
                ==> offset + header_len(h) <= self.buffer.len()),
    {
        decode_header_at(&self.buffer, offset)
    }

    /// Read the data stored in an extent at the given offset.
    ///
    /// Handles both V1 (24-byte) and V2 (32-byte) headers.
    /// Returns `None` if the offset is invalid or the magic check fails.
    pub fn read(&self, offset: u64) -> (r: Option<Vec<u8>>)
        ensures
            match r {
                Some(data) => extent_payload(self@.buffer, offset as int) == Some(data@),
                None => extent_payload(self@.buffer, offset as int) is None,
            },
    {
        let decoded = match self.read_decoded_header(offset) {
            Some(h) => h,
            None => return None,
        };
        if decoded.magic != EXTENT_MAGIC {
            return None;
        }
        let data_start: usize = offset as usize + decoded.header_size();
        if decoded.data_len > (self.buffer.len() - data_start) as u64 {
            return None;
        }
        let data_end: usize = data_start + decoded.data_len as usize;
        Some(vstd::slice::slice_to_vec(vstd::slice::slice_subrange(&self.buffer, data_start, data_end)))
    }

    /// Zero the magic of the header `h` at `offset`, push its extent to the free
    /// list and drop it from the allocated set.
    fn release_extent(&mut self, offset: u64, h: DecodedHeader)
        requires
            decode_header(old(self).buffer@, offset as int) == Some(h),
            h.magic == EXTENT_MAGIC,
            h.is_v2 ==> h.data_len <= u32::MAX,
            offset + header_len(h) <= old(self).buffer.len(),
        ensures
            final(self)@ == release(old(self)@, offset, h),
            final(self).buffer@.len() == old(self).buffer@.len(),
            final(self).size == old(self).size,
            final(self).next_offset == old(self).next_offset,
    {
        broadcast use vstd::std_specs::hash::group_hash_axioms;

        let zeros: [u8; 4] = [0u8; 4];
        codec::write_at(&mut self.buffer, offset as usize + h.magic_at as usize, &zeros);
        // The length of a V1 extent must not pass for a magic.
        codec::write_at(&mut self.buffer, offset as usize, &zeros);
        assert(zeros@ =~= seq![0u8, 0u8, 0u8, 0u8]);
        self.free_list.push_back((offset, h.total_len()));
        self.allocated.remove(&offset);
    }

    /// Free a previously-allocated extent.
    ///
    /// The offset is pushed back to the free list so it may be reused by a
    /// future [`allocate`](Self::allocate) call.
    ///
    /// # Errors
    ///
    /// Returns [`ExtentError::NotAllocated`] if the offset is not in the
    /// allocated set, [`ExtentError::InvalidOffset`] if no header can be read
    /// there, or [`ExtentError::InvalidMagic`] if the magic check fails.
    pub fn free(&mut self, offset: u64) -> (r: Result<(), ExtentError>)
        requires
            old(self).wf(),
        ensures
            final(self).wf(),
            final(self).size == old(self).size,
            (final(self)@, r) == free_in(old(self)@, offset),
    {
        broadcast use vstd::std_specs::hash::group_hash_axioms;

        if !self.allocated.contains(&offset) {
            return Err(ExtentError::NotAllocated);
        }
        let decoded = match self.read_decoded_header(offset) {
            Some(h) => h,
            None => return Err(ExtentError::InvalidOffset),
        };
        if decoded.magic != EXTENT_MAGIC {
            return Err(ExtentError::InvalidMagic);
        }
        self.release_extent(offset, decoded);
        Ok(())
    }

    /// Mark an extent for garbage collection with the given epoch.
    ///
    /// When the GC thread later calls [`sweep`](Self::sweep) with a
    /// `min_active_epoch` greater than the stored `epoch_mark`, the extent
    /// will be collected.
    ///
    /// # Errors
    ///
    /// Returns [`ExtentError::InvalidOffset`] or [`ExtentError::InvalidMagic`].
    pub fn mark_for_gc(&mut self, offset: u64, epoch: u64) -> (r: Result<(), ExtentError>)
        requires
            old(self).wf(),
        ensures
            final(self).wf(),
            final(self).size == old(self).size,
            (final(self)@, r) == mark_in(old(self)@, offset, epoch),
    {
        let decoded = match self.read_decoded_header(offset) {
            Some(h) => h,
            None => return Err(ExtentError::InvalidOffset),
        };
        if decoded.magic != EXTENT_MAGIC {
            return Err(ExtentError::InvalidMagic);
        }
        let at: usize = if decoded.is_v2 {
            16
        } else {
            8
        };
        let mark: [u8; 8] = codec::encode_u64(epoch);
        codec::write_at(&mut self.buffer, offset as usize + at, &mark);
        Ok(())
    }

    /// Sweep all extents whose `epoch_mark` is non-zero and strictly less
    /// than `min_active_epoch`.
    ///
    /// Returns the number of extents freed. The allocated extents are visited
    /// once each, in no particular order.
    pub fn sweep(&mut self, min_active_epoch: u64) -> (count: usize)
        requires
            old(self).wf(),
        ensures
            final(self).wf(),
            final(self).size == old(self).size,
            exists|order: Seq<u64>|
                #![trigger sweep_in(old(self)@, order, min_active_epoch)]
                enumerates(order, old(self)@.allocated) && (final(self)@, count as nat) == sweep_in(
                    old(self)@,
                    order,
                    min_active_epoch,
                ),
    {
        let offsets: Vec<u64> = list_members(&self.allocated);
        let mut count: usize = 0;
        let mut i: usize = 0;
        while i < offsets.len()
            invariant
                i <= offsets@.len(),
                count <= i,
                self.wf(),
                self.size == old(self).size,
                (self@, count as nat) == sweep_in(
                    old(self)@,
                    offsets@.take(i as int),
                    min_active_epoch,
                ),
            decreases offsets@.len() - i,
        {
            let offset: u64 = offsets[i];
            proof {
                let done = offsets@.take(i as int + 1);
                assert(done.drop_last() =~= offsets@.take(i as int));
                assert(done.last() == offset);
            }
            if let Some(decoded) = self.read_decoded_header(offset) {
                // Only sweep extents explicitly marked for GC (epoch > 0).
                if decoded.epoch_mark > 0 && decoded.epoch_mark < min_active_epoch {
                    self.release_extent(offset, decoded);
                    count = count + 1;
                }
            }
            i = i + 1;
        }
        assert(offsets@.take(i as int) =~= offsets@);
        count
    }

    /// Total capacity in bytes.
    pub fn capacity(&self) -> (c: u64)
        ensures
            c == self.size,
    {
        self.size
    }

    /// Returns the current number of entries in the free list.
    pub fn free_list_len(&self) -> (n: usize)
        ensures
            n == self@.free_list.len(),
    {
        self.free_list.len()
    }

    /// Returns the number of currently-allocated extent offsets.
    pub fn allocated_count(&self) -> (n: usize)
        ensures
            n == self@.allocated.len(),
    {
        broadcast use vstd::std_specs::hash::group_hash_axioms;

        self.allocated.len()
    }

    /// Write a V1-format (24-byte header) extent at the end of the used space,
    /// as the older format laid it out.
    pub fn write_extent_v1(&mut self, data: &[u8]) -> (r: Option<u64>)
        requires
            old(self).wf(),
            data@.len() + 24 <= u64::MAX,
        ensures
            final(self).wf(),
            final(self).size == old(self).size,
            (final(self)@, r) == bump_in(
                old(self)@,
                24 + data@.len() as int,
                with_extent_v1(old(self)@.buffer, old(self)@.next_offset, data@),
            ),
    {
        broadcast use vstd::std_specs::hash::group_hash_axioms;

        let total: u64 = 24 + data.len() as u64;
        if total > self.size - self.next_offset {
            return None;
        }
        let offset: u64 = self.next_offset;
        self.next_offset = self.next_offset + total;
        let hdr = ExtentHeader {
            length: data.len() as u64,
            epoch_mark: 0,
            magic: EXTENT_MAGIC,
            _pad: 0,
        };
        let mut bytes: Vec<u8> = hdr.to_bytes();
        let ghost header = bytes@;
        bytes.extend_from_slice(data);
        assert(bytes@ =~= header + data@);
        codec::write_at(&mut self.buffer, offset as usize, &bytes);
        self.allocated.insert(offset);
        Some(offset)
    }

    /// Write a V2-format extent at the end of the used space with the XXH64
    /// checksum of its payload filled in.
    pub fn write_extent_v2_checksummed(&mut self, data: &[u8]) -> (r: Option<u64>)
        requires
            old(self).wf(),
            data@.len() + 39 <= u64::MAX,
        ensures
            final(self).wf(),
            final(self).size == old(self).size,
            (final(self)@, r) == bump_in(
                old(self)@,
                extent_footprint(data@.len() as int),
                with_extent(
                    old(self)@.buffer,
                    old(self)@.next_offset,
                    data@,
                    crate::hash::xxh64_of(data@, 0) as nat,
                ),
            ),
    {
        broadcast use vstd::std_specs::hash::group_hash_axioms;

        let total_needed: u64 = extent_total(data.len() as u64);
        if total_needed > self.size - self.next_offset {
            return None;
        }
        let offset: u64 = self.next_offset;
        self.next_offset = self.next_offset + total_needed;
        let checksum: u64 = crate::hash::xxh64(data, 0);
        self.write_extent(offset, data, checksum);
        self.allocated.insert(offset);
        Some(offset)
    }

    /// Read the raw checksum from a V2 header at the given offset.
    /// Returns `None` if the header is not V2 or offset is invalid.
    pub fn read_checksum(&self, offset: u64) -> (r: Option<u64>)
        ensures
            r == extent_checksum(self@.buffer, offset as int),
    {
        let decoded = match self.read_decoded_header(offset) {
            Some(h) => h,
            None => return None,
        };
        if !decoded.is_v2 {
            return None;
        }
        Some(codec::read_u64(&self.buffer, offset as usize + 24))
    }

    /// Total bytes currently occupied by live (allocated) extents, including
    /// headers.
    pub fn used_bytes(&self) -> (total: u64)
        requires
            forall|order: Seq<u64>| #[trigger]
                enumerates(order, self@.allocated) ==> occupied_sum(self@.buffer, order) <= u64::MAX,
        ensures
            forall|order: Seq<u64>| #[trigger]
                enumerates(order, self@.allocated) ==> occupied_sum(self@.buffer, order) == total,
    {
        let offsets: Vec<u64> = list_members(&self.allocated);
        assert(enumerates(offsets@, self@.allocated));
        let mut total: u64 = 0;
        let mut i: usize = 0;
        while i < offsets.len()
            invariant
                i <= offsets@.len(),
                occupied_sum(self.buffer@, offsets@) <= u64::MAX,
                total == occupied_sum(self.buffer@, offsets@.take(i as int)),
            decreases offsets@.len() - i,
        {
            let offset: u64 = offsets[i];
            proof {
                let done = offsets@.take(i as int + 1);
                assert(done.drop_last() =~= offsets@.take(i as int));
                lemma_occupied_sum_monotonic(self.buffer@, offsets@, i as int + 1);
            }
            if let Some(decoded) = self.read_decoded_header(offset) {
                let n: u64 = if decoded.magic == EXTENT_MAGIC {
                    decoded.total_len()
                } else {
                    extent_total(0)
                };
                total = total + n;
            }
            i = i + 1;
        }
        proof {
            assert(offsets@.take(i as int) =~= offsets@);
            assert forall|order: Seq<u64>| #[trigger]
                enumerates(order, self@.allocated) implies occupied_sum(self@.buffer, order)
                == total by {
                lemma_occupied_sum_order(self@.buffer, order, offsets@);
            }
        }
        total
    }
}

/// Occupied bytes never count below zero.
pub proof fn lemma_occupied_nonneg(buf: Seq<u8>, order: Seq<u64>)
    ensures
        occupied_sum(buf, order) >= 0,
    decreases order.len(),
{
    if order.len() > 0 {
        lemma_occupied_nonneg(buf, order.drop_last());
    }
}

proof fn lemma_occupied_sum_monotonic(buf: Seq<u8>, order: Seq<u64>, n: int)
    requires
        0 <= n <= order.len(),
    ensures
        0 <= occupied_sum(buf, order.take(n)) <= occupied_sum(buf, order),
    decreases order.len() - n,
{
    lemma_occupied_nonneg(buf, order.take(n));
    if n < order.len() {
        lemma_occupied_sum_monotonic(buf, order, n + 1);
        assert(order.take(n + 1).drop_last() =~= order.take(n));
    } else {
        assert(order.take(n) =~= order);
    }
}

/// Taking one offset out of the list takes its share out of the sum.
pub proof fn lemma_occupied_sum_remove(buf: Seq<u8>, order: Seq<u64>, k: int)
    requires
        0 <= k < order.len(),
    ensures
        occupied_sum(buf, order) == occupied_sum(buf, order.remove(k)) + occupied(buf, order[k]),
    decreases order.len(),
{
    if k == order.len() - 1 {
        assert(order.remove(k) =~= order.drop_last());
    } else {
        lemma_occupied_sum_remove(buf, order.drop_last(), k);
        assert(order.remove(k).drop_last() =~= order.drop_last().remove(k));
        assert(order.remove(k).last() == order.last());
    }
}

/// The sum does not depend on the order in which the offsets are listed.
pub proof fn lemma_occupied_sum_order(buf: Seq<u8>, a: Seq<u64>, b: Seq<u64>)
    requires
        a.no_duplicates(),
        b.no_duplicates(),
        a.to_set() == b.to_set(),
    ensures
        occupied_sum(buf, a) == occupied_sum(buf, b),
    decreases a.len(),
{
    if a.len() == 0 {
        if b.len() > 0 {
            assert(b.to_set().contains(b[0]));
            assert(a.to_set().contains(b[0]));
        }
    } else {
        let x = a.last();
        assert(a.to_set().contains(x));
        assert(b.contains(x));
        let k = choose|k: int| 0 <= k < b.len() && b[k] == x;
        lemma_occupied_sum_remove(buf, b, k);
        let (a2, b2) = (a.drop_last(), b.remove(k));
        assert(a2.to_set() =~= b2.to_set()) by {
            assert forall|y: u64| a2.to_set().contains(y) == b2.to_set().contains(y) by {
                if a2.contains(y) {
                    let i = choose|i: int| 0 <= i < a2.len() && a2[i] == y;
                    assert(a[i] == y && i != a.len() - 1);
                    assert(y != x);
                    assert(a.to_set().contains(y));
                    assert(b.contains(y));
                    let j = choose|j: int| 0 <= j < b.len() && b[j] == y;
                    assert(b2[if j < k { j } else { j - 1 }] == y);
                }
                if b2.contains(y) {
                    let j = choose|j: int| 0 <= j < b2.len() && b2[j] == y;
                    let j0 = if j < k { j } else { j + 1 };
                    assert(b[j0] == y && j0 != k);
                    assert(y != x);
                    assert(b.to_set().contains(y));
                    assert(a.contains(y));
                    let i = choose|i: int| 0 <= i < a.len() && a[i] == y;
                    assert(a2[i] == y);
                }
            }
        }
        assert(b2.no_duplicates()) by {
            assert forall|i: int, j: int| 0 <= i < b2.len() && 0 <= j < b2.len() && i != j implies b2[i]
                != b2[j] by {
                let i0 = if i < k { i } else { i + 1 };
                let j0 = if j < k { j } else { j + 1 };
                assert(b[i0] != b[j0]);
            }
        }
        lemma_occupied_sum_order(buf, a2, b2);
    }
}

} // verus!
