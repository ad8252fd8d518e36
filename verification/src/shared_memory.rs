//! The user-mode capturer's shared-memory writer: a frame ring published
//! under a caller-chosen `Local\` name, triple-buffered by default.

use crate::ring::{FrameRing, ShmHeader};
use vstd::prelude::*;
use vstd::string::StringExecFns;

verus! {

/// Magic bytes "DXGI" identifying the user-mode capturer's ring.
pub const SHM_MAGIC: u32 = 0x4458_4749;

/// Layout version of the ring header.
pub const SHM_VERSION: u32 = 1;

/// Pixel-format tag for 8-bit BGRA.
pub const FORMAT_BGRA8: u32 = 87;

/// A named frame ring for one captured display.
pub struct SharedMemoryWriter {
    pub ring: FrameRing,
    pub name: String,
}

impl SharedMemoryWriter {
    pub open spec fn wf(&self) -> bool {
        &&& self.ring.wf()
        &&& self.ring.header.magic == SHM_MAGIC
        &&& self.ring.header.version == SHM_VERSION
    }

    /// Create a ring of `frame_count` slots for frames of
    /// `stride * height` bytes, headed by the fixed magic, version and BGRA
    /// format tag, under the given region name.
    pub fn create(name: &str, width: u32, height: u32, stride: u32, frame_count: u32) -> (w: Self)
        requires
            frame_count >= 1,
            stride * height <= u32::MAX,
            64 + frame_count * (stride * height) <= usize::MAX,
        ensures
            w.wf(),
            w.name@ == name@,
            w.ring.header == (ShmHeader {
                magic: SHM_MAGIC,
                version: SHM_VERSION,
                width,
                height,
                stride,
                format: FORMAT_BGRA8,
                frame_count,
                frame_size: (stride * height) as u32,
                write_sequence: 0,
                timestamp_qpc: 0,
                dirty_rect_count: 0,
            }),
    {
        SharedMemoryWriter {
            ring: FrameRing::new(
                SHM_MAGIC,
                SHM_VERSION,
                width,
                height,
                stride,
                FORMAT_BGRA8,
                frame_count,
            ),
            name: String::from_str(name),
        }
    }

    /// Publish a frame to the ring: at most `frame_size` bytes of `data` go
    /// into the slot selected by the current write sequence, then the
    /// sequence advances. `timestamp_qpc` is a monotonic performance-counter
    /// reading; `dirty_rect_count` is capture metadata handed to readers.
    pub fn write_frame(&mut self, data: &[u8], timestamp_qpc: u64, dirty_rect_count: u32)
        requires
            old(self).wf(),
            old(self).ring.header.write_sequence < u64::MAX,
        ensures
            final(self).wf(),
            final(self).name == old(self).name,
            final(self).ring.header == (ShmHeader {
                write_sequence: (old(self).ring.header.write_sequence + 1) as u64,
                timestamp_qpc,
                dirty_rect_count,
                ..old(self).ring.header
            }),
            forall|i: int|
                0 <= i < crate::ring::min_int(
                    data@.len() as int,
                    old(self).ring.header.frame_size as int,
                ) ==> final(self).ring.slot_bytes(old(self).ring.current_slot())[i] == data@[i],
            forall|s: int|
                0 <= s < old(self).ring.header.frame_count && s != old(self).ring.current_slot()
                    ==> final(self).ring.slot_bytes(s) == old(self).ring.slot_bytes(s),
    {
        self.ring.write_frame(data, timestamp_qpc, dirty_rect_count);
    }

    /// The name readers open the region under.
    pub fn name(&self) -> (n: &str)
        ensures
            n@ == self.name@,
    {
        self.name.as_str()
    }
}

} // verus!
