//! The virtual-display driver's shared-memory writer: a double-buffered
//! frame ring per monitor, published under `Global\VDD_Frame_{monitor_id}`
//! so that readers in other sessions can open it.

use crate::ring::{FrameRing, ShmHeader};
use crate::text::{append_decimal, spec_decimal};
use vstd::prelude::*;
use vstd::string::StringExecFns;

verus! {

/// Magic bytes "VDD\0" identifying the driver's ring.
pub const VDD_MAGIC: u32 = 0x00444456;

/// Layout version of the ring header.
pub const VDD_VERSION: u32 = 1;

/// Number of frame slots: the driver's ring is double-buffered.
pub const VDD_FRAME_COUNT: u32 = 2;

/// The region name for a monitor's frame ring.
pub open spec fn vdd_shm_name(monitor_id: int) -> Seq<char> {
    "Global\\VDD_Frame_"@ + spec_decimal(monitor_id)
}

/// Builds the region name for a monitor's frame ring.
pub fn vdd_shm_name_string(monitor_id: u32) -> (s: String)
    ensures
        s@ == vdd_shm_name(monitor_id as int),
{
    let mut name = String::new();
    name.append("Global\\VDD_Frame_");
    append_decimal(&mut name, monitor_id as u64);
    proof {
        assert(Seq::<char>::empty() + "Global\\VDD_Frame_"@ =~= "Global\\VDD_Frame_"@);
    }
    name
}

/// The driver's view of the 64-byte ring header. The timestamp is a signed
/// performance-counter reading, as the platform clock reports it.
#[derive(Debug, Clone, Copy, PartialEq, Eq, Structural)]
pub struct FrameHeader {
    pub magic: u32,
    pub version: u32,
    pub width: u32,
    pub height: u32,
    pub stride: u32,
    pub format: u32,
    pub frame_count: u32,
    pub frame_size: u32,
    pub write_sequence: u64,
    pub timestamp_qpc: i64,
    pub dirty_rect_count: u32,
}

/// A monitor's named frame ring.
pub struct SharedMemoryWriter {
    pub ring: FrameRing,
    pub name: String,
    pub monitor_id: u32,
}

impl SharedMemoryWriter {
    pub open spec fn wf(&self) -> bool {
        &&& self.ring.wf()
        &&& self.ring.header.magic == VDD_MAGIC
        &&& self.ring.header.version == VDD_VERSION
        &&& self.ring.header.frame_count == VDD_FRAME_COUNT
        &&& self.ring.header.timestamp_qpc <= i64::MAX
        &&& self.name@ == vdd_shm_name(self.monitor_id as int)
    }

    /// Create a double-buffered ring for frames of `stride * height` bytes,
    /// named after the monitor id.
    pub fn new(monitor_id: u32, width: u32, height: u32, stride: u32, format: u32) -> (w: Self)
        requires
            stride * height <= u32::MAX,
            64 + 2 * (stride * height) <= usize::MAX,
        ensures
            w.wf(),
            w.monitor_id == monitor_id,
            w.ring.header == (ShmHeader {
                magic: VDD_MAGIC,
                version: VDD_VERSION,
                width,
                height,
                stride,
                format,
                frame_count: VDD_FRAME_COUNT,
                frame_size: (stride * height) as u32,
                write_sequence: 0,
                timestamp_qpc: 0,
                dirty_rect_count: 0,
            }),
    {
        let name = vdd_shm_name_string(monitor_id);
        SharedMemoryWriter {
            ring: FrameRing::new(
                VDD_MAGIC,
                VDD_VERSION,
                width,
                height,
                stride,
                format,
                VDD_FRAME_COUNT,
            ),
            name,
            monitor_id,
        }
    }

    /// Publish a frame: at most `frame_size` bytes of `data` (that is,
    /// `stride * height`) go into the slot selected by the current write
    /// sequence -- truncating, never overrunning -- the timestamp is stored,
    /// and the sequence advances. Publishing never fails.
    pub fn write_frame(&mut self, data: &[u8], timestamp_qpc: i64)
        requires
            old(self).wf(),
            old(self).ring.header.write_sequence < u64::MAX,
            timestamp_qpc >= 0,
        ensures
            final(self).wf(),
            final(self).name == old(self).name,
            final(self).monitor_id == old(self).monitor_id,
            final(self).ring.header == (ShmHeader {
                write_sequence: (old(self).ring.header.write_sequence + 1) as u64,
                timestamp_qpc: timestamp_qpc as u64,
                ..old(self).ring.header
            }),
            forall|i: int|
                0 <= i < crate::ring::min_int(
                    data@.len() as int,
                    old(self).ring.header.frame_size as int,
                ) ==> final(self).ring.slot_bytes(old(self).ring.current_slot())[i] == data@[i],
            forall|i: int|
                crate::ring::min_int(data@.len() as int, old(self).ring.header.frame_size as int)
                    <= i < old(self).ring.header.frame_size ==> final(self).ring.slot_bytes(
                    old(self).ring.current_slot(),
                )[i] == old(self).ring.slot_bytes(old(self).ring.current_slot())[i],
            forall|s: int|
                0 <= s < old(self).ring.header.frame_count && s != old(self).ring.current_slot()
                    ==> final(self).ring.slot_bytes(s) == old(self).ring.slot_bytes(s),
    {
        let dirty = self.ring.header.dirty_rect_count;
        self.ring.write_frame(data, timestamp_qpc as u64, dirty);
    }

    /// The region name readers open, for reporting to control-plane clients.
    pub fn shm_name(&self) -> (n: String)
        requires
            self.wf(),
        ensures
            n@ == vdd_shm_name(self.monitor_id as int),
    {
        self.name.clone()
    }

    /// The driver's view of the current header.
    pub fn header(&self) -> (h: FrameHeader)
        requires
            self.wf(),
        ensures
            h.magic == self.ring.header.magic,
            h.version == self.ring.header.version,
            h.width == self.ring.header.width,
            h.height == self.ring.header.height,
            h.stride == self.ring.header.stride,
            h.format == self.ring.header.format,
            h.frame_count == self.ring.header.frame_count,
            h.frame_size == self.ring.header.frame_size,
            h.write_sequence == self.ring.header.write_sequence,
            h.timestamp_qpc == self.ring.header.timestamp_qpc as i64,
            h.dirty_rect_count == self.ring.header.dirty_rect_count,
    {
        let h = self.ring.header;
        FrameHeader {
            magic: h.magic,
            version: h.version,
            width: h.width,
            height: h.height,
            stride: h.stride,
            format: h.format,
            frame_count: h.frame_count,
            frame_size: h.frame_size,
            write_sequence: h.write_sequence,
            timestamp_qpc: h.timestamp_qpc as i64,
            dirty_rect_count: h.dirty_rect_count,
        }
    }
}

} // verus!
