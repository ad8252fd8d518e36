//! The shared-memory frame ring: a 64-byte header followed by a fixed number
//! of frame slots, written by a single producer and observed by readers
//! through a monotonically increasing write sequence (a seqlock).
//!
//! The byte layout is fixed: all header fields are little-endian, the write
//! sequence sits at offset 32 (8-byte aligned), and the total region size is
//! `64 + frame_count * frame_size` bytes.

use vstd::bytes::{spec_u32_to_le_bytes, spec_u64_to_le_bytes, u32_to_le_bytes, u64_to_le_bytes};
use vstd::prelude::*;

verus! {

/// Size of the ring header in bytes.
pub const HEADER_SIZE: usize = 64;

/// The fields of the 64-byte ring header, in layout order.
///
/// `magic` and `version` never change after creation; `frame_size` is
/// `stride * height`; `write_sequence` only grows; the slot used for write
/// `n` is `n mod frame_count`.
#[derive(Debug, Clone, Copy, PartialEq, Eq, Structural)]
pub struct ShmHeader {
    pub magic: u32,
    pub version: u32,
    pub width: u32,
    pub height: u32,
    pub stride: u32,
    pub format: u32,
    pub frame_count: u32,
    pub frame_size: u32,
    pub write_sequence: u64,
    pub timestamp_qpc: u64,
    pub dirty_rect_count: u32,
}

/// The first 64 bytes of `region` encode `h` little-endian, field by field,
/// with the reserved tail zeroed.
pub open spec fn header_encoded(region: Seq<u8>, h: ShmHeader) -> bool {
    &&& region.len() >= 64
    &&& region.subrange(0, 4) == spec_u32_to_le_bytes(h.magic)
    &&& region.subrange(4, 8) == spec_u32_to_le_bytes(h.version)
    &&& region.subrange(8, 12) == spec_u32_to_le_bytes(h.width)
    &&& region.subrange(12, 16) == spec_u32_to_le_bytes(h.height)
    &&& region.subrange(16, 20) == spec_u32_to_le_bytes(h.stride)
    &&& region.subrange(20, 24) == spec_u32_to_le_bytes(h.format)
    &&& region.subrange(24, 28) == spec_u32_to_le_bytes(h.frame_count)
    &&& region.subrange(28, 32) == spec_u32_to_le_bytes(h.frame_size)
    &&& region.subrange(32, 40) == spec_u64_to_le_bytes(h.write_sequence)
    &&& region.subrange(40, 48) == spec_u64_to_le_bytes(h.timestamp_qpc)
    &&& region.subrange(48, 52) == spec_u32_to_le_bytes(h.dirty_rect_count)
    &&& forall|i: int| 52 <= i < 64 ==> region[i] == 0u8
}

/// A frame ring held in an owned byte region.
///
/// The region is laid out exactly as the shared-memory protocol demands, so
/// mapping the bytes into a shared region is a plain copy. The header
/// mirror makes the current field values available without decoding.
pub struct FrameRing {
    pub region: Vec<u8>,
    pub header: ShmHeader,
}

impl FrameRing {
    /// The region is header plus `frame_count` slots of `frame_size` bytes,
    /// the header bytes encode the mirror, and the configured sizes are
    /// consistent.
    pub open spec fn wf(&self) -> bool {
        &&& self.region@.len() == 64 + self.header.frame_count * self.header.frame_size
        &&& header_encoded(self.region@, self.header)
        &&& self.header.frame_size == self.header.stride * self.header.height
        &&& self.header.frame_count >= 1
    }

    /// The byte offset of frame slot `slot`.
    pub open spec fn slot_offset(&self, slot: int) -> int {
        64 + slot * self.header.frame_size
    }

    /// The slot the next publish writes to.
    pub open spec fn current_slot(&self) -> int {
        self.header.write_sequence as int % self.header.frame_count as int
    }

    /// The contents of frame slot `slot`.
    pub open spec fn slot_bytes(&self, slot: int) -> Seq<u8> {
        self.region@.subrange(self.slot_offset(slot), self.slot_offset(slot)
            + self.header.frame_size as int)
    }

    /// Create a ring for frames of `stride * height` bytes with
    /// `frame_count` slots, every header field initialized and all slots
    /// zeroed. The write sequence starts at zero.
    pub fn new(
        magic: u32,
        version: u32,
        width: u32,
        height: u32,
        stride: u32,
        format: u32,
        frame_count: u32,
    ) -> (ring: Self)
        requires
            frame_count >= 1,
            stride * height <= u32::MAX,
            64 + frame_count * (stride * height) <= usize::MAX,
        ensures
            ring.wf(),
            ring.header == (ShmHeader {
                magic,
                version,
                width,
                height,
                stride,
                format,
                frame_count,
                frame_size: (stride * height) as u32,
                write_sequence: 0,
                timestamp_qpc: 0,
                dirty_rect_count: 0,
            }),
    {
        let frame_size: u32 = stride * height;
        proof {
            assert(frame_count * frame_size >= 0) by (nonlinear_arith)
                requires
                    frame_count >= 1 && frame_size >= 0,
            ;
        }
        let total: usize = 64 + (frame_count as usize) * (frame_size as usize);
        let mut region = zero_region(total);
        let header = ShmHeader {
            magic,
            version,
            width,
            height,
            stride,
            format,
            frame_count,
            frame_size,
            write_sequence: 0,
            timestamp_qpc: 0,
            dirty_rect_count: 0,
        };
        write_u32_at(&mut region, 0, magic);
        write_u32_at(&mut region, 4, version);
        write_u32_at(&mut region, 8, width);
        write_u32_at(&mut region, 12, height);
        write_u32_at(&mut region, 16, stride);
        write_u32_at(&mut region, 20, format);
        write_u32_at(&mut region, 24, frame_count);
        write_u32_at(&mut region, 28, frame_size);
        write_u64_at(&mut region, 32, 0);
        write_u64_at(&mut region, 40, 0);
        write_u32_at(&mut region, 48, 0);
        let ring = FrameRing { region, header };
        proof {
            let r = ring.region@;
            assert(r.subrange(0, 4) == spec_u32_to_le_bytes(magic));
            assert(r.subrange(4, 8) == spec_u32_to_le_bytes(version));
            assert(r.subrange(8, 12) == spec_u32_to_le_bytes(width));
            assert(r.subrange(12, 16) == spec_u32_to_le_bytes(height));
            assert(r.subrange(16, 20) == spec_u32_to_le_bytes(stride));
            assert(r.subrange(20, 24) == spec_u32_to_le_bytes(format));
            assert(r.subrange(24, 28) == spec_u32_to_le_bytes(frame_count));
            assert(r.subrange(28, 32) == spec_u32_to_le_bytes(frame_size));
            assert(r.subrange(32, 40) == spec_u64_to_le_bytes(0u64));
            assert(r.subrange(40, 48) == spec_u64_to_le_bytes(0u64));
            assert(r.subrange(48, 52) == spec_u32_to_le_bytes(0u32));
            assert(header_encoded(ring.region@, ring.header));
        }
        ring
    }

    /// Publish one frame: copy at most `frame_size` bytes of `data` into the
    /// slot selected by the current write sequence (truncating, never
    /// overrunning), store the timestamp and dirty-rectangle count, then
    /// advance the write sequence by one.
    ///
    /// After the call the slot `old_sequence mod frame_count` holds a prefix
    /// of `data`; bytes past `data`'s length keep their previous value, and
    /// no other slot changes.
    pub fn write_frame(&mut self, data: &[u8], timestamp_qpc: u64, dirty_rect_count: u32)
        requires
            old(self).wf(),
            old(self).header.write_sequence < u64::MAX,
        ensures
            final(self).wf(),
            final(self).header == (ShmHeader {
                write_sequence: (old(self).header.write_sequence + 1) as u64,
                timestamp_qpc,
                dirty_rect_count,
                ..old(self).header
            }),
            forall|i: int|
                0 <= i < min_int(data@.len() as int, old(self).header.frame_size as int)
                    ==> final(self).slot_bytes(old(self).current_slot())[i] == data@[i],
            forall|i: int|
                min_int(data@.len() as int, old(self).header.frame_size as int) <= i < old(
                    self,
                ).header.frame_size ==> final(self).slot_bytes(old(self).current_slot())[i] == old(
                    self,
                ).slot_bytes(old(self).current_slot())[i],
            forall|s: int|
                0 <= s < old(self).header.frame_count && s != old(self).current_slot()
                    ==> final(self).slot_bytes(s) == old(self).slot_bytes(s),
    {
        let ghost old_region = self.region@;
        let rlen: usize = self.region.len();
        let frame_size = self.header.frame_size as usize;
        let frame_count = self.header.frame_count;
        let seq = self.header.write_sequence;
        let slot = (seq % (frame_count as u64)) as u32;
        proof {
            lemma_slot_in_region(
                slot as int,
                frame_count as int,
                frame_size as int,
                self.region@.len() as int,
            );
        }
        let offset: usize = 64 + (slot as usize) * frame_size;
        let copy_len: usize = if data.len() < frame_size {
            data.len()
        } else {
            frame_size
        };
        copy_bytes_at(&mut self.region, offset, data, copy_len);
        write_u64_at(&mut self.region, 40, timestamp_qpc);
        write_u32_at(&mut self.region, 48, dirty_rect_count);
        write_u64_at(&mut self.region, 32, seq + 1);
        self.header.timestamp_qpc = timestamp_qpc;
        self.header.dirty_rect_count = dirty_rect_count;
        self.header.write_sequence = seq + 1;
        proof {
            let r = self.region@;
            assert(r.subrange(0, 4) =~= old_region.subrange(0, 4));
            assert(r.subrange(4, 8) =~= old_region.subrange(4, 8));
            assert(r.subrange(8, 12) =~= old_region.subrange(8, 12));
            assert(r.subrange(12, 16) =~= old_region.subrange(12, 16));
            assert(r.subrange(16, 20) =~= old_region.subrange(16, 20));
            assert(r.subrange(20, 24) =~= old_region.subrange(20, 24));
            assert(r.subrange(24, 28) =~= old_region.subrange(24, 28));
            assert(r.subrange(28, 32) =~= old_region.subrange(28, 32));
            assert(forall|i: int| 52 <= i < 64 ==> r[i] == old_region[i]);
            let off = offset as int;
            let fs = frame_size as int;
            assert forall|i: int| 0 <= i < copy_len implies self.slot_bytes(
                old(self).current_slot(),
            )[i] == data@[i] by {
                assert(r[off + i] == data@[i]);
            }
            assert forall|i: int| copy_len <= i < fs implies self.slot_bytes(
                old(self).current_slot(),
            )[i] == old(self).slot_bytes(old(self).current_slot())[i] by {
                assert(r[off + i] == old_region[off + i]);
            }
            assert forall|s: int|
                0 <= s < frame_count && s != old(self).current_slot() implies self.slot_bytes(s) == old(self).slot_bytes(s) by {
                lemma_other_slot_disjoint(s, slot as int, frame_count as int, fs);
                lemma_slot_in_region(s, frame_count as int, fs, old_region.len() as int);
                assert(self.slot_bytes(s) =~= old(self).slot_bytes(s));
            }
        }
    }

    /// The ring's current write sequence.
    pub fn write_sequence(&self) -> (seq: u64)
        ensures
            seq == self.header.write_sequence,
    {
        self.header.write_sequence
    }

    /// Copies the contents of frame slot `slot` out of the region.
    pub fn read_slot(&self, slot: u32) -> (bytes: Vec<u8>)
        requires
            self.wf(),
            slot < self.header.frame_count,
        ensures
            bytes@ == self.slot_bytes(slot as int),
    {
        proof {
            lemma_slot_in_region(
                slot as int,
                self.header.frame_count as int,
                self.header.frame_size as int,
                self.region@.len() as int,
            );
        }
        let rlen: usize = self.region.len();
        let frame_size = self.header.frame_size as usize;
        let offset: usize = 64 + (slot as usize) * frame_size;
        let mut bytes: Vec<u8> = Vec::new();
        let mut i: usize = 0;
        while i < frame_size
            invariant
                i <= frame_size,
                bytes@.len() == i,
                rlen == self.region@.len(),
                self.wf(),
                frame_size == self.header.frame_size,
                offset == 64 + slot * frame_size,
                offset + frame_size <= self.region@.len(),
                forall|k: int| 0 <= k < i ==> bytes@[k] == self.region@[offset + k],
            decreases frame_size - i,
        {
            bytes.push(self.region[offset + i]);
            i = i + 1;
        }
        proof {
            assert(bytes@ =~= self.slot_bytes(slot as int));
        }
        bytes
    }
}

/// The smaller of two integers.
pub open spec fn min_int(a: int, b: int) -> int {
    if a < b {
        a
    } else {
        b
    }
}

proof fn lemma_slot_in_region(slot: int, frame_count: int, frame_size: int, region_len: int)
    requires
        0 <= slot < frame_count,
        0 <= frame_size,
        region_len == 64 + frame_count * frame_size,
    ensures
        64 + slot * frame_size + frame_size <= region_len,
        0 <= slot * frame_size,
{
    assert((slot + 1) * frame_size <= frame_count * frame_size && 0 <= slot * frame_size && (slot
        + 1) * frame_size == slot * frame_size + frame_size) by (nonlinear_arith)
        requires
            0 <= slot < frame_count && 0 <= frame_size,
    ;
}

proof fn lemma_other_slot_disjoint(s: int, slot: int, frame_count: int, frame_size: int)
    requires
        0 <= s < frame_count,
        0 <= slot < frame_count,
        s != slot,
        0 <= frame_size,
    ensures
        s * frame_size + frame_size <= slot * frame_size || slot * frame_size + frame_size <= s
            * frame_size,
{
    if s < slot {
        assert(s * frame_size + frame_size <= slot * frame_size) by (nonlinear_arith)
            requires
                s < slot && 0 <= frame_size,
        ;
    } else {
        assert(slot * frame_size + frame_size <= s * frame_size) by (nonlinear_arith)
            requires
                slot < s && 0 <= frame_size,
        ;
    }
}

fn zero_region(n: usize) -> (v: Vec<u8>)
    ensures
        v@.len() == n,
        forall|i: int| 0 <= i < n ==> v@[i] == 0u8,
{
    let mut v: Vec<u8> = Vec::new();
    let mut k: usize = 0;
    while k < n
        invariant
            k <= n,
            v@.len() == k,
            forall|i: int| 0 <= i < k ==> v@[i] == 0u8,
        decreases n - k,
    {
        v.push(0u8);
        k = k + 1;
    }
    v
}

fn write_u32_at(region: &mut Vec<u8>, off: usize, v: u32)
    requires
        off + 4 <= old(region)@.len(),
    ensures
        final(region)@.len() == old(region)@.len(),
        final(region)@.subrange(off as int, off + 4) == spec_u32_to_le_bytes(v),
        forall|j: int|
            0 <= j < old(region)@.len() && !(off <= j < off + 4) ==> final(region)@[j] == old(
                region,
            )@[j],
        forall|a: int, b: int|
            0 <= a <= b <= old(region)@.len() && (b <= off || off + 4 <= a) ==> final(region)@.subrange(a, b) == old(region)@.subrange(a, b),
{
    let n: usize = region.len();
    let bytes = u32_to_le_bytes(v);
    region.set(off, bytes[0]);
    region.set(off + 1, bytes[1]);
    region.set(off + 2, bytes[2]);
    region.set(off + 3, bytes[3]);
    proof {
        assert(region@.subrange(off as int, off + 4) =~= spec_u32_to_le_bytes(v));
        assert forall|a: int, b: int|
            0 <= a <= b <= old(region)@.len() && (b <= off || off + 4 <= a) implies region@.subrange(
            a,
            b,
        ) == old(region)@.subrange(a, b) by {
            assert(region@.subrange(a, b) =~= old(region)@.subrange(a, b));
        }
    }
}

fn write_u64_at(region: &mut Vec<u8>, off: usize, v: u64)
    requires
        off + 8 <= old(region)@.len(),
    ensures
        final(region)@.len() == old(region)@.len(),
        final(region)@.subrange(off as int, off + 8) == spec_u64_to_le_bytes(v),
        forall|j: int|
            0 <= j < old(region)@.len() && !(off <= j < off + 8) ==> final(region)@[j] == old(
                region,
            )@[j],
        forall|a: int, b: int|
            0 <= a <= b <= old(region)@.len() && (b <= off || off + 8 <= a) ==> final(region)@.subrange(a, b) == old(region)@.subrange(a, b),
{
    let n: usize = region.len();
    let bytes = u64_to_le_bytes(v);
    region.set(off, bytes[0]);
    region.set(off + 1, bytes[1]);
    region.set(off + 2, bytes[2]);
    region.set(off + 3, bytes[3]);
    region.set(off + 4, bytes[4]);
    region.set(off + 5, bytes[5]);
    region.set(off + 6, bytes[6]);
    region.set(off + 7, bytes[7]);
    proof {
        assert(region@.subrange(off as int, off + 8) =~= spec_u64_to_le_bytes(v));
        assert forall|a: int, b: int|
            0 <= a <= b <= old(region)@.len() && (b <= off || off + 8 <= a) implies region@.subrange(
            a,
            b,
        ) == old(region)@.subrange(a, b) by {
            assert(region@.subrange(a, b) =~= old(region)@.subrange(a, b));
        }
    }
}

fn copy_bytes_at(region: &mut Vec<u8>, off: usize, data: &[u8], count: usize)
    requires
        count <= data@.len(),
        off + count <= old(region)@.len(),
    ensures
        final(region)@.len() == old(region)@.len(),
        forall|i: int| 0 <= i < count ==> final(region)@[off + i] == data@[i],
        forall|j: int|
            0 <= j < old(region)@.len() && !(off <= j < off + count) ==> final(region)@[j] == old(
                region,
            )@[j],
        forall|a: int, b: int|
            0 <= a <= b <= old(region)@.len() && (b <= off || off + count <= a) ==> final(region)@.subrange(a, b) == old(region)@.subrange(a, b),
{
    let n: usize = region.len();
    let mut i: usize = 0;
    while i < count
        invariant
            i <= count,
            count <= data@.len(),
            n == old(region)@.len(),
            off + count <= region@.len(),
            region@.len() == old(region)@.len(),
            forall|k: int| 0 <= k < i ==> region@[off + k] == data@[k],
            forall|j: int|
                0 <= j < old(region)@.len() && !(off <= j < off + count) ==> region@[j] == old(
                    region,
                )@[j],
        decreases count - i,
    {
        region.set(off + i, data[i]);
        i = i + 1;
    }
    proof {
        assert forall|a: int, b: int|
            0 <= a <= b <= old(region)@.len() && (b <= off || off + count <= a) implies region@.subrange(
            a,
            b,
        ) == old(region)@.subrange(a, b) by {
            assert(region@.subrange(a, b) =~= old(region)@.subrange(a, b));
        }
    }
}

} // verus!
