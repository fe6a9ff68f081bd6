//! Laws of the large-object region.
//!
//! They are stated over the model of [`crate::engine::extent`]: a
//! [`RegionState`](crate::engine::extent::RegionState) and the transitions that
//! the contracts of the region's methods refer to.

use vstd::prelude::*;

use crate::codec;
use crate::engine::extent;
use crate::engine::extent::{DecodedHeader, ExtentError, RegionState};
use crate::engine::layout::EXTENT_MAGIC;

verus! {

// ---------------------------------------------------------------------------
// Headers
// ---------------------------------------------------------------------------
/// A live header lies inside the buffer and shows the magic where the decoder
/// found it.
pub proof fn lemma_live_header(buf: Seq<u8>, off: int)
    requires
        0 <= off,
        extent::live_at(buf, off),
    ensures
        ({
            let h = extent::decode_header(buf, off)->0;
            &&& off + extent::header_len(h) <= buf.len()
            &&& h.magic_at == 0 || (h.magic_at == 16 && !h.is_v2)
            &&& codec::le_u32_at(buf, off + h.magic_at) == EXTENT_MAGIC
            &&& h.is_v2 ==> h.data_len <= u32::MAX && buf[off + 4] == 1
            &&& extent::header_len(h) <= extent::footprint(h)
        }),
{
    if off + 5 <= buf.len() {
        codec::lemma_le_value_bound(buf.subrange(off, off + 4));
    }
    if off + 12 <= buf.len() {
        codec::lemma_le_value_bound(buf.subrange(off + 8, off + 12));
    }
    reveal_with_fuel(codec::byte_range, 5);
}

/// What a live extent decodes to depends on its header bytes alone.
pub proof fn lemma_decode_local(a: Seq<u8>, b: Seq<u8>, off: int)
    requires
        0 <= off,
        a.len() == b.len(),
        extent::live_at(a, off),
        forall|i: int|
            off <= i < off + extent::header_len(extent::decode_header(a, off)->0) ==> a[i] == b[i],
    ensures
        extent::decode_header(b, off) == extent::decode_header(a, off),
{
    let h = extent::decode_header(a, off)->0;
    lemma_live_header(a, off);
    assert(a.subrange(off, off + 4) =~= b.subrange(off, off + 4));
    assert(a.subrange(off, off + 8) =~= b.subrange(off, off + 8));
    assert(a.subrange(off + 8, off + 12) =~= b.subrange(off + 8, off + 12));
    assert(a.subrange(off + 8, off + 16) =~= b.subrange(off + 8, off + 16));
    assert(a.subrange(off + 16, off + 20) =~= b.subrange(off + 16, off + 20));
    if h.is_v2 {
        assert(a.subrange(off + 16, off + 24) =~= b.subrange(off + 16, off + 24));
    }
    assert(a[off + 4] == b[off + 4]);
}

/// Whatever lies outside the bytes of a live extent can change without a trace
/// in its header, its payload or its checksum.
pub proof fn law_extent_is_local(a: Seq<u8>, b: Seq<u8>, off: int)
    requires
        0 <= off,
        a.len() == b.len(),
        extent::live_at(a, off),
        ({
            let h = extent::decode_header(a, off)->0;
            &&& off + extent::header_len(h) + h.data_len <= a.len()
            &&& forall|i: int|
                off <= i < off + extent::header_len(h) + h.data_len ==> a[i] == b[i]
        }),
    ensures
        extent::decode_header(b, off) == extent::decode_header(a, off),
        extent::extent_payload(b, off) == extent::extent_payload(a, off),
        extent::extent_checksum(b, off) == extent::extent_checksum(a, off),
{
    let h = extent::decode_header(a, off)->0;
    lemma_live_header(a, off);
    lemma_decode_local(a, b, off);
    let start = off + extent::header_len(h);
    assert(a.subrange(start, start + h.data_len) =~= b.subrange(start, start + h.data_len));
    if h.is_v2 {
        assert(a.subrange(off + 24, off + 32) =~= b.subrange(off + 24, off + 32));
    }
}

/// An extent that was just written decodes to a V2 header without an epoch
/// mark, with the length modulo `2^32` and with the checksum as given; its
/// payload, when it is shorter than `2^32`, is the data.
pub proof fn law_written_extent_reads_back(buf: Seq<u8>, off: int, data: Seq<u8>, checksum: nat)
    requires
        0 <= off,
        off + 32 + data.len() <= buf.len(),
        checksum <= u64::MAX,
    ensures
        ({
            let out = extent::with_extent(buf, off, data, checksum);
            &&& out.len() == buf.len()
            &&& extent::decode_header(out, off) == Some(
                DecodedHeader {
                    magic: EXTENT_MAGIC,
                    magic_at: 0,
                    data_len: (data.len() % 0x1_0000_0000) as u64,
                    epoch_mark: 0,
                    is_v2: true,
                },
            )
            &&& extent::extent_checksum(out, off) == Some(checksum as u64)
            &&& data.len() <= u32::MAX ==> extent::extent_payload(out, off) == Some(data)
            &&& forall|i: int|
                0 <= i < buf.len() && !(off <= i < off + 32 + data.len()) ==> out[i] == buf[i]
        }),
{
    let n = data.len() % 0x1_0000_0000;
    let hdr = extent::live_header(n, checksum);
    let out = extent::with_extent(buf, off, data, checksum);
    reveal_with_fuel(codec::byte_range, 9);
    codec::lemma_decode_encode(EXTENT_MAGIC as nat, 4);
    codec::lemma_decode_encode(n, 4);
    codec::lemma_decode_encode(0, 8);
    codec::lemma_decode_encode(checksum, 8);
    lemma_zero_digits();
    assert(hdr.len() == 32);
    assert(out.subrange(off, off + 4) =~= codec::le_digits(EXTENT_MAGIC as nat, 4));
    assert(out[off + 4] == 1);
    assert(out.subrange(off + 8, off + 12) =~= codec::le_digits(n, 4));
    assert(out.subrange(off + 16, off + 24) =~= codec::le_digits(0, 8));
    assert(out.subrange(off + 16, off + 20) =~= codec::le_digits(0, 4));
    assert(out.subrange(off + 24, off + 32) =~= codec::le_digits(checksum, 8));
    codec::lemma_decode_encode(0, 4);
    if data.len() <= u32::MAX {
        assert(n == data.len());
        assert(out.subrange(off + 32, off + 32 + data.len()) =~= data);
    }
}

/// A V1 extent that was just written decodes to a V1 header, carries no V2
/// checksum and gives its data back.
pub proof fn law_written_v1_extent_reads_back(buf: Seq<u8>, off: int, data: Seq<u8>)
    requires
        0 <= off,
        off + 24 + data.len() <= buf.len(),
        data.len() <= u64::MAX,
    ensures
        ({
            let out = extent::with_extent_v1(buf, off, data);
            &&& out.len() == buf.len()
            &&& extent::decode_header(out, off) == Some(
                DecodedHeader {
                    magic: EXTENT_MAGIC,
                    magic_at: 16,
                    data_len: data.len() as u64,
                    epoch_mark: 0,
                    is_v2: false,
                },
            )
            &&& extent::extent_checksum(out, off) is None
            &&& extent::extent_payload(out, off) == Some(data)
            &&& forall|i: int|
                0 <= i < buf.len() && !(off <= i < off + 24 + data.len()) ==> out[i] == buf[i]
        }),
{
    let hdr = extent::live_header_v1(data.len());
    let out = extent::with_extent_v1(buf, off, data);
    reveal_with_fuel(codec::byte_range, 9);
    codec::lemma_decode_encode(EXTENT_MAGIC as nat, 4);
    codec::lemma_decode_encode(data.len(), 8);
    codec::lemma_decode_encode(0, 8);
    codec::lemma_decode_encode(0, 4);
    assert(hdr.len() == 24);
    assert(out.subrange(off, off + 8) =~= codec::le_digits(data.len(), 8));
    assert(out.subrange(off + 8, off + 16) =~= codec::le_digits(0, 8));
    assert(out.subrange(off + 16, off + 20) =~= codec::le_digits(EXTENT_MAGIC as nat, 4));
    assert(out.subrange(off + 24, off + 24 + data.len()) =~= data);
}

/// The digits of zero are zeros.
pub proof fn lemma_zero_digits()
    ensures
        codec::le_digits(0, 8) =~= seq![0u8, 0u8, 0u8, 0u8, 0u8, 0u8, 0u8, 0u8],
        codec::le_digits(0, 4) =~= seq![0u8, 0u8, 0u8, 0u8],
{
    reveal_with_fuel(codec::le_digits, 9);
}

// ---------------------------------------------------------------------------
// Soundness
// ---------------------------------------------------------------------------
/// A region in which nothing is allocated and nothing was freed is sound.
pub proof fn law_empty_region_is_sound(s: RegionState)
    requires
        s.buffer.len() <= u64::MAX,
        s.free_list == Seq::<(u64, u64)>::empty(),
        s.allocated == Set::<u64>::empty(),
        s.next_offset == 0,
    ensures
        extent::sound(s),
{
}

/// A write into bytes that the live extent at `a` does not own leaves that
/// extent as it was.
proof fn lemma_untouched(s: RegionState, buf: Seq<u8>, a: u64, off: int, n: int)
    requires
        extent::sound(s),
        s.allocated.contains(a),
        buf.len() == s.buffer.len(),
        extent::apart(a as int, extent::span(s, a), off, n),
        forall|i: int| 0 <= i < buf.len() && !(off <= i < off + n) ==> buf[i] == s.buffer[i],
    ensures
        extent::decode_header(buf, a as int) == extent::decode_header(s.buffer, a as int),
        extent::extent_payload(buf, a as int) == extent::extent_payload(s.buffer, a as int),
        extent::extent_checksum(buf, a as int) == extent::extent_checksum(s.buffer, a as int),
{
    assert(extent::extent_inside(s, a));
    lemma_live_header(s.buffer, a as int);
    let h = extent::decode_header(s.buffer, a as int)->0;
    assert(extent::header_len(h) + h.data_len <= extent::footprint(h) || 24 + h.data_len
        > u64::MAX);
    law_extent_is_local(s.buffer, buf, a as int);
}

/// Placing a new extent in bytes that belong to nobody keeps a region sound.
proof fn lemma_place(
    s: RegionState,
    t: RegionState,
    off: u64,
    need: int,
    h: DecodedHeader,
)
    requires
        extent::sound(s),
        t.buffer.len() == s.buffer.len(),
        extent::decode_header(t.buffer, off as int) == Some(h),
        h.magic == EXTENT_MAGIC,
        extent::header_len(h) + h.data_len <= extent::footprint(h) <= need,
        forall|i: int|
            0 <= i < s.buffer.len() && !(off <= i < off + need) ==> t.buffer[i] == s.buffer[i],
        t.allocated == s.allocated.insert(off),
        s.next_offset <= t.next_offset <= t.buffer.len(),
        off + need <= t.next_offset,
        forall|a: u64| #[trigger]
            s.allocated.contains(a) ==> extent::apart(
                a as int,
                extent::span(s, a),
                off as int,
                need,
            ),
        forall|i: int|
            0 <= i < t.free_list.len() ==> {
                &&& (#[trigger] t.free_list[i]).1 > 0
                &&& t.free_list[i].0 + t.free_list[i].1 <= t.next_offset
                &&& extent::apart(
                    off as int,
                    need,
                    t.free_list[i].0 as int,
                    t.free_list[i].1 as int,
                )
            },
        forall|a: u64, i: int|
            #[trigger] s.allocated.contains(a) && 0 <= i < t.free_list.len() ==> extent::apart(
                a as int,
                extent::span(s, a),
                (#[trigger] t.free_list[i]).0 as int,
                t.free_list[i].1 as int,
            ),
        forall|i: int, j: int|
            0 <= i < t.free_list.len() && 0 <= j < t.free_list.len() && i != j ==> extent::apart(
                (#[trigger] t.free_list[i]).0 as int,
                t.free_list[i].1 as int,
                (#[trigger] t.free_list[j]).0 as int,
                t.free_list[j].1 as int,
            ),
    ensures
        extent::sound(t),
        !s.allocated.contains(off),
        forall|a: u64| #[trigger]
            s.allocated.contains(a) ==> {
                &&& extent::decode_header(t.buffer, a as int) == extent::decode_header(
                    s.buffer,
                    a as int,
                )
                &&& extent::extent_payload(t.buffer, a as int) == extent::extent_payload(
                    s.buffer,
                    a as int,
                )
                &&& extent::extent_checksum(t.buffer, a as int) == extent::extent_checksum(
                    s.buffer,
                    a as int,
                )
            },
{
    if s.allocated.contains(off) {
        assert(extent::extent_inside(s, off));
        lemma_live_header(s.buffer, off as int);
    }
    assert forall|a: u64| #[trigger] s.allocated.contains(a) implies {
        &&& extent::decode_header(t.buffer, a as int) == extent::decode_header(s.buffer, a as int)
        &&& extent::extent_payload(t.buffer, a as int) == extent::extent_payload(
            s.buffer,
            a as int,
        )
        &&& extent::extent_checksum(t.buffer, a as int) == extent::extent_checksum(
            s.buffer,
            a as int,
        )
    } by {
        lemma_untouched(s, t.buffer, a, off as int, need);
    }
    assert forall|a: u64| #[trigger] t.allocated.contains(a) implies extent::extent_inside(
        t,
        a,
    ) by {
        if a != off {
            assert(s.allocated.contains(a));
            assert(extent::extent_inside(s, a));
        }
    }
    assert forall|a: u64, b: u64|
        #[trigger] t.allocated.contains(a) && #[trigger] t.allocated.contains(b) && a
            != b implies extent::apart(
        a as int,
        extent::span(t, a),
        b as int,
        extent::span(t, b),
    ) by {
        assert(a != off ==> s.allocated.contains(a));
        assert(b != off ==> s.allocated.contains(b));
    }
    assert forall|a: u64, i: int|
        #[trigger] t.allocated.contains(a) && 0 <= i < t.free_list.len() implies extent::apart(
        a as int,
        extent::span(t, a),
        (#[trigger] t.free_list[i]).0 as int,
        t.free_list[i].1 as int,
    ) by {
        assert(a != off ==> s.allocated.contains(a));
    }
}

/// [`extent::first_fit`] finds the first entry that is large enough.
pub proof fn lemma_first_fit(free_list: Seq<(u64, u64)>, need: int, from: int)
    requires
        0 <= from <= free_list.len(),
    ensures
        ({
            let r = extent::first_fit(free_list, need, from);
            &&& from <= r <= free_list.len()
            &&& r < free_list.len() ==> free_list[r].1 >= need
            &&& forall|i: int| from <= i < r ==> (#[trigger] free_list[i]).1 < need
        }),
    decreases free_list.len() - from,
{
    if from < free_list.len() && free_list[from].1 < need {
        lemma_first_fit(free_list, need, from + 1);
    }
}

/// Allocation keeps a region sound and never reaches outside it. The new extent
/// is one that was not allocated before, it is a V2 extent without an epoch mark
/// and with checksum zero, and it holds the data when the data is shorter than
/// `2^32`. Every other extent keeps its header, payload and checksum.
#[verifier::spinoff_prover]
#[verifier::rlimit(50)]
pub proof fn law_allocate(s: RegionState, data: Seq<u8>)
    requires
        extent::sound(s),
        data.len() + 39 <= u64::MAX,
    ensures
        extent::fit_in_bounds(s, data),
        ({
            let (t, r) = extent::allocate_in(s, data);
            &&& extent::sound(t)
            &&& t.buffer.len() == s.buffer.len()
            &&& r matches Some(off) ==> {
                &&& !s.allocated.contains(off)
                &&& t.allocated == s.allocated.insert(off)
                &&& extent::extent_checksum(t.buffer, off as int) == Some(0u64)
                &&& data.len() <= u32::MAX ==> extent::extent_payload(t.buffer, off as int)
                    == Some(data)
            }
            &&& r is None ==> t == s
            &&& forall|a: u64| #[trigger]
                s.allocated.contains(a) ==> {
                    &&& extent::decode_header(t.buffer, a as int) == extent::decode_header(
                        s.buffer,
                        a as int,
                    )
                    &&& extent::extent_payload(t.buffer, a as int) == extent::extent_payload(
                        s.buffer,
                        a as int,
                    )
                    &&& extent::extent_checksum(t.buffer, a as int) == extent::extent_checksum(
                        s.buffer,
                        a as int,
                    )
                }
        }),
{
    let need = extent::extent_footprint(data.len() as int);
    let (t, r) = extent::allocate_in(s, data);
    let i = extent::first_fit(s.free_list, need, 0);
    lemma_first_fit(s.free_list, need, 0);
    if i < s.free_list.len() {
        let (off, len) = s.free_list[i];
        let fl = s.free_list;
        assert(off + len <= s.next_offset);
        law_written_extent_reads_back(s.buffer, off as int, data, 0);
        let h = extent::decode_header(t.buffer, off as int)->0;
        // Where each entry of the new list comes from.
        let rest = fl.remove(i);
        assert forall|k: int| 0 <= k < rest.len() implies #[trigger] rest[k] == fl[if k < i {
            k
        } else {
            k + 1
        }] by {}
        assert forall|k: int| 0 <= k < t.free_list.len() implies {
            &&& (#[trigger] t.free_list[k]).1 > 0
            &&& t.free_list[k].0 + t.free_list[k].1 <= t.next_offset
            &&& extent::apart(off as int, need, t.free_list[k].0 as int, t.free_list[k].1 as int)
        } by {
            if k < rest.len() {
                assert(t.free_list[k] == rest[k]);
                let k0 = if k < i { k } else { k + 1 };
                assert(extent::apart(
                    fl[k0].0 as int,
                    fl[k0].1 as int,
                    fl[i].0 as int,
                    fl[i].1 as int,
                ));
            }
        }
        assert forall|a: u64, k: int|
            #[trigger] s.allocated.contains(a) && 0 <= k < t.free_list.len() implies extent::apart(
            a as int,
            extent::span(s, a),
            (#[trigger] t.free_list[k]).0 as int,
            t.free_list[k].1 as int,
        ) by {
            assert(extent::apart(
                a as int,
                extent::span(s, a),
                fl[i].0 as int,
                fl[i].1 as int,
            ));
            if k < rest.len() {
                assert(t.free_list[k] == rest[k]);
                let k0 = if k < i { k } else { k + 1 };
                assert(extent::apart(
                    a as int,
                    extent::span(s, a),
                    fl[k0].0 as int,
                    fl[k0].1 as int,
                ));
            }
        }
        assert forall|k: int, m: int|
            0 <= k < t.free_list.len() && 0 <= m < t.free_list.len() && k
                != m implies extent::apart(
            (#[trigger] t.free_list[k]).0 as int,
            t.free_list[k].1 as int,
            (#[trigger] t.free_list[m]).0 as int,
            t.free_list[m].1 as int,
        ) by {
            let k0 = if k >= rest.len() { i } else if k < i { k } else { k + 1 };
            let m0 = if m >= rest.len() { i } else if m < i { m } else { m + 1 };
            assert(k < rest.len() ==> t.free_list[k] == rest[k]);
            assert(m < rest.len() ==> t.free_list[m] == rest[m]);
            assert(k0 != m0);
            assert(extent::apart(
                fl[k0].0 as int,
                fl[k0].1 as int,
                fl[m0].0 as int,
                fl[m0].1 as int,
            ));
        }
        assert forall|a: u64| #[trigger] s.allocated.contains(a) implies extent::apart(
            a as int,
            extent::span(s, a),
            off as int,
            need,
        ) by {
            assert(extent::apart(a as int, extent::span(s, a), fl[i].0 as int, fl[i].1 as int));
        }
        lemma_place(s, t, off, need, h);
    } else if s.next_offset + need <= s.buffer.len() {
        let off = s.next_offset as u64;
        law_written_extent_reads_back(s.buffer, off as int, data, 0);
        let h = extent::decode_header(t.buffer, off as int)->0;
        assert forall|a: u64| #[trigger] s.allocated.contains(a) implies extent::apart(
            a as int,
            extent::span(s, a),
            off as int,
            need,
        ) by {
            assert(extent::extent_inside(s, a));
        }
        lemma_place(s, t, off, need, h);
    }
}

/// The extents that are allocated in `s` are the same in `t`: same header, same
/// payload, same checksum.
pub open spec fn extents_kept(s: RegionState, t: RegionState, offsets: Set<u64>) -> bool {
    forall|a: u64| #[trigger]
        offsets.contains(a) ==> {
            &&& extent::decode_header(t.buffer, a as int) == extent::decode_header(
                s.buffer,
                a as int,
            )
            &&& extent::extent_payload(t.buffer, a as int) == extent::extent_payload(
                s.buffer,
                a as int,
            )
            &&& extent::extent_checksum(t.buffer, a as int) == extent::extent_checksum(
                s.buffer,
                a as int,
            )
        }
}

/// Writing a checksummed extent keeps a region sound and every other extent as
/// it was; the new extent gives back the checksum, and the data when the data is
/// shorter than `2^32`.
pub proof fn law_write_checksummed(s: RegionState, data: Seq<u8>, checksum: u64)
    requires
        extent::sound(s),
        data.len() + 39 <= u64::MAX,
    ensures
        ({
            let (t, r) = extent::bump_in(
                s,
                extent::extent_footprint(data.len() as int),
                extent::with_extent(s.buffer, s.next_offset, data, checksum as nat),
            );
            &&& extent::sound(t)
            &&& extents_kept(s, t, s.allocated)
            &&& r matches Some(off) ==> {
                &&& !s.allocated.contains(off)
                &&& extent::extent_checksum(t.buffer, off as int) == Some(checksum)
                &&& data.len() <= u32::MAX ==> extent::extent_payload(t.buffer, off as int)
                    == Some(data)
            }
        }),
{
    let need = extent::extent_footprint(data.len() as int);
    let (t, r) = extent::bump_in(
        s,
        need,
        extent::with_extent(s.buffer, s.next_offset, data, checksum as nat),
    );
    if r is Some {
        let off = s.next_offset as u64;
        law_written_extent_reads_back(s.buffer, off as int, data, checksum as nat);
        assert forall|a: u64| #[trigger] s.allocated.contains(a) implies extent::apart(
            a as int,
            extent::span(s, a),
            off as int,
            need,
        ) by {
            assert(extent::extent_inside(s, a));
        }
        lemma_place(s, t, off, need, extent::decode_header(t.buffer, off as int)->0);
    }
}

/// Writing a V1 extent keeps a region sound and every other extent as it was;
/// the new extent gives its data back and has no V2 checksum.
pub proof fn law_write_v1(s: RegionState, data: Seq<u8>)
    requires
        extent::sound(s),
        data.len() + 24 <= u64::MAX,
    ensures
        ({
            let (t, r) = extent::bump_in(
                s,
                24 + data.len() as int,
                extent::with_extent_v1(s.buffer, s.next_offset, data),
            );
            &&& extent::sound(t)
            &&& extents_kept(s, t, s.allocated)
            &&& r matches Some(off) ==> {
                &&& !s.allocated.contains(off)
                &&& extent::extent_checksum(t.buffer, off as int) is None
                &&& extent::extent_payload(t.buffer, off as int) == Some(data)
            }
        }),
{
    let need = 24 + data.len() as int;
    let (t, r) = extent::bump_in(
        s,
        need,
        extent::with_extent_v1(s.buffer, s.next_offset, data),
    );
    if r is Some {
        let off = s.next_offset as u64;
        law_written_v1_extent_reads_back(s.buffer, off as int, data);
        assert forall|a: u64| #[trigger] s.allocated.contains(a) implies extent::apart(
            a as int,
            extent::span(s, a),
            off as int,
            need,
        ) by {
            assert(extent::extent_inside(s, a));
        }
        lemma_place(s, t, off, need, extent::decode_header(t.buffer, off as int)->0);
    }
}

/// The low half of an eight-byte number is the number in its first four bytes.
proof fn lemma_low_word(buf: Seq<u8>, at: int)
    requires
        0 <= at,
        at + 8 <= buf.len(),
    ensures
        codec::le_u64_at(buf, at) % 0x1_0000_0000 == codec::le_u32_at(buf, at),
        codec::le_u64_at(buf, at) <= u64::MAX,
{
    let (w, d) = (buf.subrange(at, at + 8), buf.subrange(at, at + 4));
    codec::lemma_le_value_8(w);
    codec::lemma_le_value_4(d);
    codec::lemma_le_value_bound(w);
    assert(w[0] == d[0] && w[1] == d[1] && w[2] == d[2] && w[3] == d[3]);
}

/// Neither place of a header at `off` shows the magic.
pub open spec fn silenced(buf: Seq<u8>, off: int) -> bool {
    &&& codec::le_u32_at(buf, off) != EXTENT_MAGIC
    &&& codec::le_u32_at(buf, off + 16) != EXTENT_MAGIC
}

/// Where the magic does not show, no extent can be read.
proof fn lemma_silenced(buf: Seq<u8>, off: int)
    requires
        0 <= off,
        off + 24 <= buf.len(),
        silenced(buf, off),
    ensures
        !extent::live_at(buf, off),
        extent::extent_payload(buf, off) is None,
{
    codec::lemma_le_value_bound(buf.subrange(off, off + 4));
    reveal_with_fuel(codec::byte_range, 5);
}

/// Releasing an allocated extent of a sound region keeps the region sound and
/// every other extent as it was. The released extent can no longer be read.
pub proof fn law_release(s: RegionState, off: u64)
    requires
        extent::sound(s),
        s.allocated.contains(off),
    ensures
        ({
            let h = extent::decode_header(s.buffer, off as int)->0;
            let t = extent::release(s, off, h);
            &&& extent::free_in(s, off) == (t, Ok::<(), ExtentError>(()))
            &&& extent::sound(t)
            &&& t.buffer.len() == s.buffer.len()
            &&& extents_kept(s, t, s.allocated.remove(off))
            &&& silenced(t.buffer, off as int)
            &&& !extent::live_at(t.buffer, off as int)
            &&& extent::extent_payload(t.buffer, off as int) is None
        }),
{
    let h = extent::decode_header(s.buffer, off as int)->0;
    let t = extent::release(s, off, h);
    assert(extent::extent_inside(s, off));
    lemma_live_header(s.buffer, off as int);
    let at = off + h.magic_at;
    let zeros = seq![0u8, 0u8, 0u8, 0u8];
    assert(zeros.len() == 4);
    let once = codec::splice(s.buffer, at, zeros);
    assert(once.len() == s.buffer.len());
    assert(t.buffer == codec::splice(once, off as int, zeros));
    assert(t.buffer.len() == s.buffer.len());
    assert forall|a: u64| #[trigger] s.allocated.remove(off).contains(a) implies {
        &&& extent::decode_header(t.buffer, a as int) == extent::decode_header(s.buffer, a as int)
        &&& extent::extent_payload(t.buffer, a as int) == extent::extent_payload(
            s.buffer,
            a as int,
        )
        &&& extent::extent_checksum(t.buffer, a as int) == extent::extent_checksum(
            s.buffer,
            a as int,
        )
    } by {
        assert(s.allocated.contains(a));
        lemma_untouched(s, t.buffer, a, off as int, extent::span(s, off));
    }
    // Soundness of the new state.
    assert forall|a: u64| #[trigger] t.allocated.contains(a) implies extent::extent_inside(
        t,
        a,
    ) by {
        assert(s.allocated.remove(off).contains(a));
        assert(s.allocated.contains(a));
        assert(extent::extent_inside(s, a));
    }
    assert forall|a: u64, b: u64|
        #[trigger] t.allocated.contains(a) && #[trigger] t.allocated.contains(b) && a
            != b implies extent::apart(
        a as int,
        extent::span(t, a),
        b as int,
        extent::span(t, b),
    ) by {
        assert(s.allocated.remove(off).contains(a) && s.allocated.remove(off).contains(b));
        assert(s.allocated.contains(a) && s.allocated.contains(b));
    }
    assert forall|a: u64, i: int|
        #[trigger] t.allocated.contains(a) && 0 <= i < t.free_list.len() implies extent::apart(
        a as int,
        extent::span(t, a),
        (#[trigger] t.free_list[i]).0 as int,
        t.free_list[i].1 as int,
    ) by {
        assert(s.allocated.remove(off).contains(a));
        assert(s.allocated.contains(a));
        if i < s.free_list.len() {
            assert(t.free_list[i] == s.free_list[i]);
        }
    }
    assert forall|i: int, j: int|
        0 <= i < t.free_list.len() && 0 <= j < t.free_list.len() && i != j implies extent::apart(
        (#[trigger] t.free_list[i]).0 as int,
        t.free_list[i].1 as int,
        (#[trigger] t.free_list[j]).0 as int,
        t.free_list[j].1 as int,
    ) by {
        assert(i < s.free_list.len() ==> t.free_list[i] == s.free_list[i]);
        assert(j < s.free_list.len() ==> t.free_list[j] == s.free_list[j]);
    }
    // The zeroed magic.
    assert(t.buffer.subrange(off as int, off + 4) =~= zeros);
    assert(t.buffer.subrange(at, at + 4) =~= zeros);
    codec::lemma_le_value_4(zeros);
    assert(codec::le_u32_at(t.buffer, off as int) == 0);
    assert(codec::le_u32_at(t.buffer, at) == 0);
    if h.magic_at == 0 {
        assert(t.buffer.subrange(off + 16, off + 20) =~= s.buffer.subrange(off + 16, off + 20));
    }
    lemma_silenced(t.buffer, off as int);
}

/// An extent that was freed cannot be freed again before it is reallocated; the
/// attempt changes nothing.
pub proof fn law_double_free(s: RegionState, off: u64)
    requires
        extent::free_in(s, off).1 is Ok,
    ensures
        extent::free_in(extent::free_in(s, off).0, off) == (
            extent::free_in(s, off).0,
            Err::<(), ExtentError>(ExtentError::NotAllocated),
        ),
{
}

/// Freed space is reused: once an extent is freed, an allocation that needs no
/// more bytes than it occupied succeeds.
pub proof fn law_freed_space_is_reused(s: RegionState, off: u64, data: Seq<u8>)
    requires
        extent::sound(s),
        s.allocated.contains(off),
        extent::extent_footprint(data.len() as int) <= extent::span(s, off),
    ensures
        extent::allocate_in(extent::free_in(s, off).0, data).1 is Some,
{
    law_release(s, off);
    let t = extent::free_in(s, off).0;
    let need = extent::extent_footprint(data.len() as int);
    lemma_first_fit(t.free_list, need, 0);
    assert(t.free_list[s.free_list.len() as int].1 >= need);
}

/// Marking an allocated extent stores the epoch, keeps its payload and every
/// other extent, and keeps the region sound. For a V2 extent the law leaves out
/// the epochs whose low 32 bits are the magic: with such a mark the header reads
/// as a V1 header.
pub proof fn law_mark(s: RegionState, off: u64, epoch: u64)
    requires
        extent::sound(s),
        s.allocated.contains(off),
        extent::decode_header(s.buffer, off as int)->0.is_v2 ==> epoch % 0x1_0000_0000
            != EXTENT_MAGIC,
    ensures
        ({
            let h = extent::decode_header(s.buffer, off as int)->0;
            let (t, r) = extent::mark_in(s, off, epoch);
            &&& r == Ok::<(), ExtentError>(())
            &&& extent::sound(t)
            &&& t.buffer.len() == s.buffer.len()
            &&& t.allocated == s.allocated
            &&& extent::decode_header(t.buffer, off as int) == Some(
                DecodedHeader { epoch_mark: epoch, ..h },
            )
            &&& extent::extent_payload(t.buffer, off as int) == extent::extent_payload(
                s.buffer,
                off as int,
            )
            &&& extents_kept(s, t, s.allocated.remove(off))
        }),
{
    let h = extent::decode_header(s.buffer, off as int)->0;
    let (t, r) = extent::mark_in(s, off, epoch);
    assert(extent::extent_inside(s, off));
    lemma_live_header(s.buffer, off as int);
    let o = off as int;
    let at = o + extent::epoch_at(h);
    reveal_with_fuel(codec::byte_range, 9);
    codec::lemma_decode_encode(epoch as nat, 8);
    assert(t.buffer.len() == s.buffer.len());
    assert(t.buffer.subrange(at, at + 8) =~= codec::le_digits(epoch as nat, 8));
    lemma_low_word(t.buffer, at);
    assert(t.buffer.subrange(o, o + 4) =~= s.buffer.subrange(o, o + 4));
    assert(t.buffer.subrange(o, o + 8) =~= s.buffer.subrange(o, o + 8));
    assert(t.buffer[o + 4] == s.buffer[o + 4]);
    if h.is_v2 {
        assert(t.buffer.subrange(o + 8, o + 12) =~= s.buffer.subrange(o + 8, o + 12));
    } else {
        assert(t.buffer.subrange(o + 16, o + 20) =~= s.buffer.subrange(o + 16, o + 20));
    }
    let start = o + extent::header_len(h);
    assert(t.buffer.subrange(start, start + h.data_len) =~= s.buffer.subrange(
        start,
        start + h.data_len,
    ));
    assert forall|a: u64| #[trigger] s.allocated.remove(off).contains(a) implies {
        &&& extent::decode_header(t.buffer, a as int) == extent::decode_header(s.buffer, a as int)
        &&& extent::extent_payload(t.buffer, a as int) == extent::extent_payload(
            s.buffer,
            a as int,
        )
        &&& extent::extent_checksum(t.buffer, a as int) == extent::extent_checksum(
            s.buffer,
            a as int,
        )
    } by {
        assert(s.allocated.contains(a));
        lemma_untouched(s, t.buffer, a, off as int, extent::span(s, off));
    }
    assert forall|a: u64| #[trigger] t.allocated.contains(a) implies extent::extent_inside(t, a)
        && extent::span(t, a) == extent::span(s, a) by {
        assert(s.allocated.contains(a));
        assert(extent::extent_inside(s, a));
        if a != off {
            assert(s.allocated.remove(off).contains(a));
        }
    }
}

// ---------------------------------------------------------------------------
// Sweep
// ---------------------------------------------------------------------------
/// The offsets of `order` that a sweep of `buf` at `min_active_epoch` collects,
/// in order.
pub open spec fn collected(buf: Seq<u8>, order: Seq<u64>, min_active_epoch: u64) -> Seq<u64>
    decreases order.len(),
{
    if order.len() == 0 {
        Seq::empty()
    } else {
        let rest = collected(buf, order.drop_last(), min_active_epoch);
        if extent::collectable(buf, order.last(), min_active_epoch) {
            rest.push(order.last())
        } else {
            rest
        }
    }
}

/// The free-list entries that the extents at `offsets` leave behind.
pub open spec fn freed_entries(s: RegionState, offsets: Seq<u64>) -> Seq<(u64, u64)> {
    Seq::new(offsets.len(), |i: int| (offsets[i], extent::span(s, offsets[i]) as u64))
}

/// [`collected`] lists exactly the collectable members of `order`.
pub proof fn lemma_collected(buf: Seq<u8>, order: Seq<u64>, min_active_epoch: u64)
    ensures
        forall|a: u64|
            #![trigger collected(buf, order, min_active_epoch).contains(a)]
            #![trigger order.contains(a)]
            collected(buf, order, min_active_epoch).contains(a) <==> (order.contains(a)
                && extent::collectable(buf, a, min_active_epoch)),
    decreases order.len(),
{
    if order.len() > 0 {
        let front = order.drop_last();
        let rest = collected(buf, front, min_active_epoch);
        let all = collected(buf, order, min_active_epoch);
        lemma_collected(buf, front, min_active_epoch);
        assert forall|a: u64|
            #![trigger all.contains(a)]
            #![trigger order.contains(a)]
            all.contains(a) <==> (order.contains(a) && extent::collectable(
                buf,
                a,
                min_active_epoch,
            )) by {
            if all.contains(a) {
                let i = choose|i: int| 0 <= i < all.len() && all[i] == a;
                if i < rest.len() {
                    assert(rest[i] == a);
                    assert(rest.contains(a));
                    let j = choose|j: int| 0 <= j < front.len() && front[j] == a;
                    assert(order[j] == a);
                } else {
                    assert(order[order.len() - 1] == a);
                }
            }
            if order.contains(a) && extent::collectable(buf, a, min_active_epoch) {
                let j = choose|j: int| 0 <= j < order.len() && order[j] == a;
                if j < front.len() {
                    assert(front[j] == a);
                    assert(rest.contains(a));
                    let i = choose|i: int| 0 <= i < rest.len() && rest[i] == a;
                    assert(all[i] == a);
                } else {
                    assert(all[all.len() - 1] == a);
                }
            }
        }
    }
}

/// An extent that was silenced stays so when the header of another is changed.
proof fn lemma_stays_silenced(s: RegionState, b1: Seq<u8>, b2: Seq<u8>, a: u64, off: u64)
    requires
        extent::sound(s),
        s.allocated.contains(a),
        s.allocated.contains(off),
        a != off,
        b1.len() == s.buffer.len(),
        b2.len() == s.buffer.len(),
        silenced(b1, a as int),
        forall|i: int|
            0 <= i < b2.len() && !(off <= i < off + extent::span(s, off)) ==> b2[i] == b1[i],
    ensures
        silenced(b2, a as int),
        extent::extent_payload(b2, a as int) is None,
{
    assert(extent::extent_inside(s, a));
    assert(extent::extent_inside(s, off));
    lemma_live_header(s.buffer, a as int);
    lemma_live_header(s.buffer, off as int);
    assert(b2.subrange(a as int, a + 4) =~= b1.subrange(a as int, a + 4));
    assert(b2.subrange(a + 16, a + 20) =~= b1.subrange(a + 16, a + 20));
    lemma_silenced(b2, a as int);
}

/// What a sweep leaves, and what it counts.
proof fn lemma_sweep_keeps(s: RegionState, order: Seq<u64>, min_active_epoch: u64)
    requires
        extent::sound(s),
        order.no_duplicates(),
        forall|i: int| 0 <= i < order.len() ==> s.allocated.contains(#[trigger] order[i]),
    ensures
        ({
            let (t, n) = extent::sweep_in(s, order, min_active_epoch);
            let gone = collected(s.buffer, order, min_active_epoch);
            &&& extent::sound(t)
            &&& t.buffer.len() == s.buffer.len()
            &&& t.next_offset == s.next_offset
            &&& n == gone.len()
            &&& t.free_list == s.free_list + freed_entries(s, gone)
            &&& forall|a: u64| #[trigger]
                t.allocated.contains(a) <==> (s.allocated.contains(a) && !(order.contains(a)
                    && extent::collectable(s.buffer, a, min_active_epoch)))
            &&& extents_kept(s, t, t.allocated)
        }),
    decreases order.len(),
{
    let (t, n) = extent::sweep_in(s, order, min_active_epoch);
    let gone = collected(s.buffer, order, min_active_epoch);
    if order.len() == 0 {
        assert(t.free_list =~= s.free_list + freed_entries(s, gone));
    } else {
        let front = order.drop_last();
        let off = order.last();
        let (t1, n1) = extent::sweep_in(s, front, min_active_epoch);
        let gone1 = collected(s.buffer, front, min_active_epoch);
        assert forall|i: int| 0 <= i < front.len() implies s.allocated.contains(
            #[trigger] front[i],
        ) by {
            assert(front[i] == order[i]);
        }
        lemma_sweep_keeps(s, front, min_active_epoch);
        assert(order[order.len() - 1] == off);
        assert(!front.contains(off));
        assert(t1.allocated.contains(off));
        assert(extent::collectable(t1.buffer, off, min_active_epoch) == extent::collectable(
            s.buffer,
            off,
            min_active_epoch,
        ));
        assert forall|a: u64| #[trigger] order.contains(a) <==> (front.contains(a) || a == off) by {
            if order.contains(a) {
                let i = choose|i: int| 0 <= i < order.len() && order[i] == a;
                if i < front.len() {
                    assert(front[i] == a);
                }
            }
            if front.contains(a) {
                let i = choose|i: int| 0 <= i < front.len() && front[i] == a;
                assert(order[i] == a);
            }
        }
        assert forall|a: u64| #[trigger]
            t.allocated.contains(a) <==> (s.allocated.contains(a) && !(order.contains(a)
                && extent::collectable(s.buffer, a, min_active_epoch))) by {
            assert(t1.allocated.contains(a) <==> (s.allocated.contains(a) && !(front.contains(a)
                && extent::collectable(s.buffer, a, min_active_epoch))));
        }
        if extent::collectable(t1.buffer, off, min_active_epoch) {
            law_release(t1, off);
            assert(extent::span(t1, off) == extent::span(s, off));
            assert(t.free_list =~= s.free_list + freed_entries(s, gone));
            assert forall|a: u64| #[trigger] t.allocated.contains(a) implies {
                &&& extent::decode_header(t.buffer, a as int) == extent::decode_header(
                    s.buffer,
                    a as int,
                )
                &&& extent::extent_payload(t.buffer, a as int) == extent::extent_payload(
                    s.buffer,
                    a as int,
                )
                &&& extent::extent_checksum(t.buffer, a as int) == extent::extent_checksum(
                    s.buffer,
                    a as int,
                )
            } by {
                assert(t1.allocated.remove(off).contains(a));
                assert(t1.allocated.contains(a));
            }
        }
    }
}

/// A release changes bytes of the released extent only.
proof fn lemma_release_local(s: RegionState, off: u64)
    requires
        extent::sound(s),
        s.allocated.contains(off),
    ensures
        ({
            let h = extent::decode_header(s.buffer, off as int)->0;
            let t = extent::release(s, off, h);
            &&& t.buffer.len() == s.buffer.len()
            &&& forall|i: int|
                0 <= i < t.buffer.len() && !(off <= i < off + extent::span(s, off))
                    ==> t.buffer[i] == s.buffer[i]
        }),
{
    assert(extent::extent_inside(s, off));
    lemma_live_header(s.buffer, off as int);
    let h = extent::decode_header(s.buffer, off as int)->0;
    let zeros = seq![0u8, 0u8, 0u8, 0u8];
    assert(zeros.len() == 4);
    let once = codec::splice(s.buffer, off + h.magic_at, zeros);
    assert(extent::release(s, off, h).buffer == codec::splice(once, off as int, zeros));
}

/// What a sweep collects can no longer be read, and the allocated set shrinks by
/// the number of collected extents.
proof fn lemma_sweep_silences(s: RegionState, order: Seq<u64>, min_active_epoch: u64)
    requires
        extent::sound(s),
        order.no_duplicates(),
        forall|i: int| 0 <= i < order.len() ==> s.allocated.contains(#[trigger] order[i]),
    ensures
        ({
            let (t, n) = extent::sweep_in(s, order, min_active_epoch);
            &&& s.allocated.finite() ==> t.allocated.finite() && t.allocated.len() + n
                == s.allocated.len()
            &&& forall|a: u64| #[trigger]
                s.allocated.contains(a) && !t.allocated.contains(a) ==> {
                    &&& silenced(t.buffer, a as int)
                    &&& extent::extent_payload(t.buffer, a as int) is None
                }
        }),
    decreases order.len(),
{
    if order.len() > 0 {
        let front = order.drop_last();
        let off = order.last();
        let (t1, n1) = extent::sweep_in(s, front, min_active_epoch);
        assert forall|i: int| 0 <= i < front.len() implies s.allocated.contains(
            #[trigger] front[i],
        ) by {
            assert(front[i] == order[i]);
        }
        lemma_sweep_silences(s, front, min_active_epoch);
        lemma_sweep_keeps(s, front, min_active_epoch);
        assert(order[order.len() - 1] == off);
        assert(!front.contains(off));
        assert(t1.allocated.contains(off));
        if extent::collectable(t1.buffer, off, min_active_epoch) {
            let (t, n) = extent::sweep_in(s, order, min_active_epoch);
            law_release(t1, off);
            assert(extent::span(t1, off) == extent::span(s, off));
            assert forall|a: u64| #[trigger]
                s.allocated.contains(a) && !t.allocated.contains(a) implies {
                &&& silenced(t.buffer, a as int)
                &&& extent::extent_payload(t.buffer, a as int) is None
            } by {
                if a != off {
                    assert(!t1.allocated.contains(a));
                    lemma_release_local(t1, off);
                    lemma_stays_silenced(s, t1.buffer, t.buffer, a, off);
                }
            }
        }
    }
}

/// A sweep of a sound region collects the extents whose epoch mark is non-zero
/// and lies before `min_active_epoch`, whatever the order of its visits. Those
/// leave the allocated set, join the free list and can no longer be read, the number
/// that comes back counts them, every other extent stays as it was, and the region
/// stays sound.
pub proof fn law_sweep(s: RegionState, order: Seq<u64>, min_active_epoch: u64)
    requires
        extent::sound(s),
        order.no_duplicates(),
        forall|i: int| 0 <= i < order.len() ==> s.allocated.contains(#[trigger] order[i]),
    ensures
        ({
            let (t, n) = extent::sweep_in(s, order, min_active_epoch);
            let gone = collected(s.buffer, order, min_active_epoch);
            &&& extent::sound(t)
            &&& t.buffer.len() == s.buffer.len()
            &&& t.next_offset == s.next_offset
            &&& n == gone.len()
            &&& t.free_list == s.free_list + freed_entries(s, gone)
            &&& forall|a: u64| #[trigger]
                t.allocated.contains(a) <==> (s.allocated.contains(a) && !(order.contains(a)
                    && extent::collectable(s.buffer, a, min_active_epoch)))
            &&& s.allocated.finite() ==> t.allocated.finite() && t.allocated.len() + n
                == s.allocated.len()
            &&& forall|a: u64| #[trigger]
                s.allocated.contains(a) && !t.allocated.contains(a) ==> {
                    &&& silenced(t.buffer, a as int)
                    &&& extent::extent_payload(t.buffer, a as int) is None
                }
            &&& extents_kept(s, t, t.allocated)
        }),
{
    lemma_sweep_keeps(s, order, min_active_epoch);
    lemma_sweep_silences(s, order, min_active_epoch);
}

// ---------------------------------------------------------------------------
// Occupancy
// ---------------------------------------------------------------------------
proof fn lemma_last_offset(order: Seq<u64>) -> (k: int)
    requires
        order.len() > 0,
    ensures
        0 <= k < order.len(),
        forall|i: int| 0 <= i < order.len() ==> order[i] <= order[k],
    decreases order.len(),
{
    if order.len() == 1 {
        0
    } else {
        let front = order.drop_last();
        let k = lemma_last_offset(front);
        assert forall|i: int| 0 <= i < front.len() implies order[i] <= order[k] by {
            assert(front[i] <= front[k]);
        }
        if order.last() > order[k] {
            order.len() - 1
        } else {
            k
        }
    }
}

proof fn lemma_packed(s: RegionState, order: Seq<u64>, limit: int)
    requires
        extent::sound(s),
        order.no_duplicates(),
        0 <= limit,
        forall|i: int|
            0 <= i < order.len() ==> s.allocated.contains(#[trigger] order[i]) && order[i]
                + extent::span(s, order[i]) <= limit,
    ensures
        extent::occupied_sum(s.buffer, order) <= limit,
    decreases order.len(),
{
    if order.len() > 0 {
        let k = lemma_last_offset(order);
        let top = order[k];
        let rest = order.remove(k);
        extent::lemma_occupied_sum_remove(s.buffer, order, k);
        assert forall|i: int| 0 <= i < rest.len() implies s.allocated.contains(#[trigger] rest[i])
            && rest[i] + extent::span(s, rest[i]) <= top by {
            let i0 = if i < k { i } else { i + 1 };
            assert(rest[i] == order[i0]);
            assert(order[i0] != order[k]);
            assert(extent::extent_inside(s, order[i0]));
            assert(extent::extent_inside(s, top));
            lemma_live_header(s.buffer, order[i0] as int);
            lemma_live_header(s.buffer, top as int);
        }
        assert(rest.no_duplicates()) by {
            assert forall|i: int, j: int|
                0 <= i < rest.len() && 0 <= j < rest.len() && i != j implies rest[i] != rest[j] by {
                assert(rest[i] == order[if i < k { i } else { i + 1 }]);
                assert(rest[j] == order[if j < k { j } else { j + 1 }]);
            }
        }
        lemma_packed(s, rest, top as int);
        assert(extent::extent_inside(s, top));
    }
}

/// The extents of a sound region occupy no more than its used part.
pub proof fn law_occupied_fits(s: RegionState, order: Seq<u64>)
    requires
        extent::sound(s),
        extent::enumerates(order, s.allocated),
    ensures
        0 <= extent::occupied_sum(s.buffer, order) <= s.next_offset <= s.buffer.len(),
{
    assert forall|i: int| 0 <= i < order.len() implies s.allocated.contains(#[trigger] order[i])
        && order[i] + extent::span(s, order[i]) <= s.next_offset by {
        assert(order.to_set().contains(order[i]));
        assert(extent::extent_inside(s, order[i]));
    }
    lemma_packed(s, order, s.next_offset);
    extent::lemma_occupied_nonneg(s.buffer, order);
}

/// A freshly allocated extent occupies its footprint on top of what was
/// occupied before.
pub proof fn law_allocate_occupies(s: RegionState, data: Seq<u8>, before: Seq<u64>, after: Seq<u64>)
    requires
        extent::sound(s),
        data.len() <= u32::MAX,
        extent::allocate_in(s, data).1 is Some,
        extent::enumerates(before, s.allocated),
        extent::enumerates(after, extent::allocate_in(s, data).0.allocated),
    ensures
        extent::occupied_sum(extent::allocate_in(s, data).0.buffer, after)
            == extent::occupied_sum(s.buffer, before) + extent::extent_footprint(
            data.len() as int,
        ),
{
    let (t, r) = extent::allocate_in(s, data);
    let off = r->0;
    law_allocate(s, data);
    let listed = before.push(off);
    assert(listed.drop_last() =~= before);
    assert(before.to_set() == s.allocated);
    assert(!before.contains(off)) by {
        if before.contains(off) {
            assert(before.to_set().contains(off));
        }
    }
    assert(listed.to_set() =~= t.allocated) by {
        assert forall|a: u64| listed.to_set().contains(a) == t.allocated.contains(a) by {
            if listed.contains(a) {
                let i = choose|i: int| 0 <= i < listed.len() && listed[i] == a;
                if i < before.len() {
                    assert(before[i] == a);
                    assert(before.to_set().contains(a));
                }
            }
            if t.allocated.contains(a) {
                if a == off {
                    assert(listed[before.len() as int] == a);
                } else {
                    assert(before.to_set().contains(a));
                    let i = choose|i: int| 0 <= i < before.len() && before[i] == a;
                    assert(listed[i] == a);
                }
            }
        }
    }
    extent::lemma_occupied_sum_order(t.buffer, after, listed);
    assert forall|i: int| 0 <= i < before.len() implies extent::decode_header(
        t.buffer,
        #[trigger] before[i] as int,
    ) == extent::decode_header(s.buffer, before[i] as int) by {
        assert(before.to_set().contains(before[i]));
    }
    lemma_same_occupied(s, t, before);
    let need = extent::extent_footprint(data.len() as int);
    lemma_first_fit(s.free_list, need, 0);
    law_written_extent_reads_back(s.buffer, off as int, data, 0);
}

proof fn lemma_same_occupied(s: RegionState, t: RegionState, order: Seq<u64>)
    requires
        forall|i: int|
            0 <= i < order.len() ==> extent::decode_header(
                t.buffer,
                #[trigger] order[i] as int,
            ) == extent::decode_header(s.buffer, order[i] as int),
    ensures
        extent::occupied_sum(t.buffer, order) == extent::occupied_sum(s.buffer, order),
    decreases order.len(),
{
    if order.len() > 0 {
        let front = order.drop_last();
        assert forall|i: int| 0 <= i < front.len() implies extent::decode_header(
            t.buffer,
            #[trigger] front[i] as int,
        ) == extent::decode_header(s.buffer, front[i] as int) by {
            assert(front[i] == order[i]);
        }
        lemma_same_occupied(s, t, front);
        assert(order[order.len() - 1] == order.last());
    }
}

/// The bytes in a list of freed extents.
pub open spec fn free_bytes(list: Seq<(u64, u64)>) -> int
    decreases list.len(),
{
    if list.len() == 0 {
        0
    } else {
        free_bytes(list.drop_last()) + list.last().1
    }
}

/// The bytes that no allocated extent takes up: those of the freed extents, and those
/// behind the last extent.
pub open spec fn available(s: RegionState) -> int {
    free_bytes(s.free_list) + s.buffer.len() - s.next_offset
}

proof fn lemma_free_bytes_remove(list: Seq<(u64, u64)>, i: int)
    requires
        0 <= i < list.len(),
    ensures
        free_bytes(list.remove(i)) == free_bytes(list) - list[i].1,
    decreases list.len(),
{
    let front = list.drop_last();
    if i == list.len() - 1 {
        assert(list.remove(i) =~= front);
    } else {
        lemma_free_bytes_remove(front, i);
        assert(list.remove(i).drop_last() =~= front.remove(i));
        assert(list.remove(i).last() == list.last());
    }
}

proof fn lemma_free_bytes_push(list: Seq<(u64, u64)>, e: (u64, u64))
    ensures
        free_bytes(list.push(e)) == free_bytes(list) + e.1,
{
    assert(list.push(e).drop_last() =~= list);
}

/// The bytes that an extent for `len` bytes of data takes up: 32 more, as a multiple
/// of eight.
pub open spec fn taken_up(len: int) -> int {
    (32 + len + 7) / 8 * 8
}

/// An allocation is refused only when there is no room: no freed extent is large
/// enough, and neither is the space behind the last extent. It takes the oldest freed
/// extent that is large enough, and the space behind the last extent only when there
/// is none. No byte is lost: what it does not need of a freed extent stays available.
pub proof fn law_allocation_uses_room(s: RegionState, data: Seq<u8>)
    requires
        extent::sound(s),
    ensures
        ({
            let need = taken_up(data.len() as int);
            let (t, r) = extent::allocate_in(s, data);
            &&& r is None <==> s.next_offset + need > s.buffer.len() && forall|i: int|
                0 <= i < s.free_list.len() ==> (#[trigger] s.free_list[i]).1 < need
            &&& forall|i: int|
                0 <= i < s.free_list.len() && (#[trigger] s.free_list[i]).1 >= need && (forall|
                    j: int,
                | 0 <= j < i ==> (#[trigger] s.free_list[j]).1 < need) ==> r == Some(
                    s.free_list[i].0,
                ) && t.next_offset == s.next_offset
            &&& (forall|i: int|
                0 <= i < s.free_list.len() ==> (#[trigger] s.free_list[i]).1 < need) && r is Some
                ==> r == Some(s.next_offset as u64) && t.free_list == s.free_list
                && t.next_offset == s.next_offset + need
            &&& r is Some ==> available(t) == available(s) - need
        }),
{
    let len = data.len() as int;
    let need = taken_up(len);
    assert(extent::extent_footprint(len) == need);
    let i = extent::first_fit(s.free_list, need, 0);
    lemma_first_fit(s.free_list, need, 0);
    if i < s.free_list.len() {
        lemma_free_bytes_remove(s.free_list, i);
        lemma_free_bytes_push(
            s.free_list.remove(i),
            ((s.free_list[i].0 + need) as u64, (s.free_list[i].1 - need) as u64),
        );
        assert(s.free_list[i].1 >= need);
        law_written_extent_reads_back(s.buffer, s.free_list[i].0 as int, data, 0);
    } else if s.next_offset + need <= s.buffer.len() {
        law_written_extent_reads_back(s.buffer, s.next_offset, data, 0);
    }
}

/// Writing behind the last extent, checksummed or in the old format, is refused only
/// when the extent does not fit there, and changes nothing then.
pub proof fn law_bump_uses_room(s: RegionState, need: int, buffer: Seq<u8>)
    requires
        extent::sound(s),
        need >= 0,
    ensures
        ({
            let (t, r) = extent::bump_in(s, need, buffer);
            if s.next_offset + need <= s.buffer.len() {
                &&& r == Some(s.next_offset as u64)
                &&& t.buffer == buffer
                &&& t.next_offset == s.next_offset + need
                &&& t.free_list == s.free_list
                &&& t.allocated == s.allocated.insert(s.next_offset as u64)
            } else {
                r is None && t == s
            }
        }),
{
}

/// Freeing an extent succeeds exactly when it is allocated, and makes the bytes that
/// it takes up available again. Otherwise nothing changes.
pub proof fn law_free_returns_space(s: RegionState, off: u64)
    requires
        extent::sound(s),
    ensures
        ({
            let (t, r) = extent::free_in(s, off);
            let h = extent::decode_header(s.buffer, off as int)->0;
            &&& r is Ok <==> s.allocated.contains(off)
            &&& r is Ok ==> {
                &&& t.allocated == s.allocated.remove(off)
                &&& t.next_offset == s.next_offset
                &&& available(t) == available(s) + if h.is_v2 {
                    taken_up(h.data_len as int)
                } else {
                    24 + h.data_len
                }
            }
            &&& r is Err ==> r == Err::<(), ExtentError>(ExtentError::NotAllocated) && t == s
        }),
{
    if s.allocated.contains(off) {
        assert(extent::extent_inside(s, off));
        let h = extent::decode_header(s.buffer, off as int)->0;
        lemma_free_bytes_push(s.free_list, (off, extent::footprint(h) as u64));
        law_release(s, off);
    }
}

// ---------------------------------------------------------------------------
// Choice of space and refusals
// ---------------------------------------------------------------------------
/// An allocation takes the oldest freed extent that is large enough, at its start. Where
/// there is none, it takes the first bytes that no extent has taken yet.
pub proof fn law_oldest_fit_is_taken(s: RegionState, data: Seq<u8>, i: int)
    requires
        0 <= i <= s.free_list.len(),
        forall|j: int|
            0 <= j < i ==> (#[trigger] s.free_list[j]).1 < extent::extent_footprint(
                data.len() as int,
            ),
        i < s.free_list.len() ==> s.free_list[i].1 >= extent::extent_footprint(data.len() as int),
    ensures
        ({
            let (t, r) = extent::allocate_in(s, data);
            &&& i < s.free_list.len() ==> r == Some(s.free_list[i].0) && t.next_offset
                == s.next_offset
            &&& i == s.free_list.len() && r is Some ==> r == Some(s.next_offset as u64)
                && t.free_list == s.free_list && t.next_offset == s.next_offset
                + extent::extent_footprint(data.len() as int)
        }),
{
    let need = extent::extent_footprint(data.len() as int);
    lemma_first_fit(s.free_list, need, 0);
    let k = extent::first_fit(s.free_list, need, 0);
    if k < i {
        assert(s.free_list[k].1 < need);
    }
    if i < k {
        assert(s.free_list[i].1 < need);
    }
}

/// What a header says is what the bytes say: the payload's length and the epoch stand in
/// a V1 header in the first two words, in a V2 header behind its version.
pub proof fn law_decoded_header(buf: Seq<u8>, off: int)
    requires
        0 <= off,
    ensures
        extent::decode_header(buf, off) matches Some(h) ==> h.magic == EXTENT_MAGIC ==> {
            &&& h.is_v2 ==> {
                &&& off + 32 <= buf.len()
                &&& codec::le_u32_at(buf, off) == 0x5244_4D41
                &&& buf[off + 4] == 1
                &&& h.data_len == codec::le_u32_at(buf, off + 8)
                &&& h.epoch_mark == codec::le_u64_at(buf, off + 16)
            }
            &&& !h.is_v2 ==> {
                &&& off + 24 <= buf.len()
                &&& codec::le_u32_at(buf, off + 16) == 0x5244_4D41 || codec::le_u32_at(buf, off)
                    == 0x5244_4D41 && buf[off + 4] == 0
                &&& h.data_len == codec::le_u64_at(buf, off)
                &&& h.epoch_mark == codec::le_u64_at(buf, off + 8)
            }
        },
{
    reveal_with_fuel(codec::byte_range, 9);
    if off + 5 <= buf.len() {
        codec::lemma_le_value_bound(buf.subrange(off, off + 4));
    }
    if off + 24 <= buf.len() {
        codec::lemma_le_value_bound(buf.subrange(off, off + 8));
        codec::lemma_le_value_bound(buf.subrange(off + 8, off + 16));
    }
    if off + 32 <= buf.len() {
        codec::lemma_le_value_bound(buf.subrange(off + 8, off + 12));
        codec::lemma_le_value_bound(buf.subrange(off + 16, off + 24));
    }
}

/// A header decodes when the bytes show one: a V1 header by the magic in its third word
/// or before a version of zero, a V2 header by the magic before a version of one. Bytes
/// with the magic before another version, and a header that reaches past the end, do
/// not decode.
pub proof fn law_which_headers_decode(buf: Seq<u8>, off: int)
    requires
        0 <= off,
    ensures
        ({
            let third = off + 24 <= buf.len() && codec::le_u32_at(buf, off + 16) == 0x5244_4D41;
            let first = off + 5 <= buf.len() && codec::le_u32_at(buf, off) == 0x5244_4D41;
            let d = extent::decode_header(buf, off);
            &&& third ==> d is Some && d->0.magic == 0x5244_4D41 && !d->0.is_v2
            &&& !third && first && buf[off + 4] == 1 && off + 32 <= buf.len() ==> d is Some
                && d->0.magic == 0x5244_4D41 && d->0.is_v2
            &&& !third && first && buf[off + 4] == 0 && off + 24 <= buf.len() ==> d is Some
                && d->0.magic == 0x5244_4D41 && !d->0.is_v2
            &&& !third && first && buf[off + 4] > 1 ==> d is None
            &&& !third && first && buf[off + 4] == 1 && off + 32 > buf.len() ==> d is None
            &&& !third && first && off + 24 > buf.len() ==> d is None
            &&& off + 5 > buf.len() ==> d is None
            &&& !third && !first && off + 5 <= buf.len() ==> d is Some && d->0.magic
                != 0x5244_4D41
        }),
{
    if off + 5 <= buf.len() {
        reveal_with_fuel(codec::byte_range, 5);
        codec::lemma_le_value_bound(buf.subrange(off, off + 4));
    }
}

/// The payload that is read is as long as the header says and stands behind it. It is
/// there exactly when the header shows the magic and the payload ends inside the
/// region.
pub proof fn law_payload(buf: Seq<u8>, off: int)
    requires
        0 <= off,
    ensures
        ({
            let d = extent::decode_header(buf, off);
            let start: int = if d is Some && d->0.is_v2 {
                off + 32
            } else {
                off + 24
            };
            let p = extent::extent_payload(buf, off);
            &&& p is Some <==> d is Some && d->0.magic == 0x5244_4D41 && start + d->0.data_len
                <= buf.len()
            &&& p is Some ==> p->0.len() == d->0.data_len && forall|i: int|
                0 <= i < p->0.len() ==> #[trigger] p->0[i] == buf[start + i]
        }),
{
}

/// An extent can be freed exactly when its offset is allocated and its header shows the
/// magic; what cannot be freed leaves the region as it was, with the first of these that
/// fails as the error.
pub proof fn law_refused_free(s: RegionState, off: u64)
    ensures
        ({
            let (t, r) = extent::free_in(s, off);
            let d = extent::decode_header(s.buffer, off as int);
            &&& r is Ok <==> s.allocated.contains(off) && d is Some && d->0.magic == 0x5244_4D41
            &&& r is Err ==> t == s
            &&& !s.allocated.contains(off) ==> r == Err::<(), _>(ExtentError::NotAllocated)
            &&& s.allocated.contains(off) && d is None ==> r == Err::<(), _>(
                ExtentError::InvalidOffset,
            )
            &&& s.allocated.contains(off) && d is Some && d->0.magic != 0x5244_4D41 ==> r == Err::<
                (),
                _,
            >(ExtentError::InvalidMagic)
        }),
{
}

/// An extent can be marked exactly when its header shows the magic; what cannot be marked
/// leaves the region as it was.
pub proof fn law_refused_mark(s: RegionState, off: u64, epoch: u64)
    ensures
        ({
            let (t, r) = extent::mark_in(s, off, epoch);
            let d = extent::decode_header(s.buffer, off as int);
            &&& r is Ok <==> d is Some && d->0.magic == 0x5244_4D41
            &&& r is Err ==> t == s
            &&& d is None ==> r == Err::<(), _>(ExtentError::InvalidOffset)
            &&& d is Some && d->0.magic != 0x5244_4D41 ==> r == Err::<(), _>(
                ExtentError::InvalidMagic,
            )
        }),
{
}

/// An extent occupies its header and its payload: a V2 extent rounded up to eight
/// bytes, a V1 extent as it is. One whose magic is gone counts as a header, and one that
/// cannot be decoded as nothing.
pub proof fn law_occupied_bytes(buf: Seq<u8>, off: u64)
    ensures
        ({
            let d = extent::decode_header(buf, off as int);
            let n = extent::occupied(buf, off);
            &&& d is None ==> n == 0
            &&& d is Some && d->0.magic != 0x5244_4D41 ==> n == 32
            &&& d is Some && d->0.magic == 0x5244_4D41 && d->0.is_v2 ==> n % 8 == 0 && 32
                + d->0.data_len <= n < 40 + d->0.data_len
            &&& d is Some && d->0.magic == 0x5244_4D41 && !d->0.is_v2 && 24 + d->0.data_len
                <= u64::MAX ==> n == 24 + d->0.data_len
        }),
{
}

/// The bytes in use are those of each extent, added up.
pub proof fn law_occupied_in_parts(buf: Seq<u8>, first: Seq<u64>, second: Seq<u64>)
    ensures
        extent::occupied_sum(buf, first + second) == extent::occupied_sum(buf, first)
            + extent::occupied_sum(buf, second),
        first.len() == 1 ==> extent::occupied_sum(buf, first) == extent::occupied(buf, first[0]),
    decreases second.len(),
{
    if second.len() == 0 {
        assert(first + second =~= first);
    } else {
        law_occupied_in_parts(buf, first, second.drop_last());
        assert((first + second).drop_last() =~= first + second.drop_last());
        assert((first + second).last() == second.last());
    }
    if first.len() == 1 {
        assert(extent::occupied_sum(buf, first.drop_last()) == 0);
    }
}

/// A new region has all its bytes, each of them zero, and gives them out from its start.
pub proof fn law_new_region(size: nat, i: int)
    requires
        0 <= i < size,
    ensures
        extent::empty_region(size).buffer.len() == size,
        extent::empty_region(size).buffer[i] == 0,
        extent::empty_region(size).free_list.len() == 0,
        extent::empty_region(size).allocated == Set::<u64>::empty(),
        extent::empty_region(size).next_offset == 0,
{
}

/// An extent that is freed joins the end of the free list with all the bytes that it
/// occupied.
pub proof fn law_freed_extent_comes_last(s: RegionState, off: u64)
    requires
        extent::free_in(s, off).1 is Ok,
    ensures
        ({
            let t = extent::free_in(s, off).0;
            &&& t.free_list.len() == s.free_list.len() + 1
            &&& t.free_list.drop_last() == s.free_list
            &&& t.free_list.last().0 == off
            &&& extent::occupied(s.buffer, off) <= u64::MAX ==> t.free_list.last().1
                == extent::occupied(s.buffer, off)
        }),
{
    let t = extent::free_in(s, off).0;
    assert(t.free_list.drop_last() =~= s.free_list);
}

} // verus!
