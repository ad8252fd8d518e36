//! The per-display capture loop's decision logic: what each acquire outcome
//! leads to, when cached staging resources must be rebuilt, and the
//! stride-aware copy from a mapped texture into the host frame buffer. The
//! platform calls themselves (acquire, GPU copy, map, waits) run outside and
//! feed their outcomes in as plain values.

use crate::text::{append_decimal, spec_decimal};
use vstd::prelude::*;
use vstd::string::StringExecFns;

verus! {

/// Number of frame slots in the user-mode capturer's ring: triple-buffered.
pub const FRAME_SLOTS: u32 = 3;

/// The region name for a captured display's frame ring.
pub open spec fn dxgi_shm_name(adapter_index: int, output_index: int) -> Seq<char> {
    "Local\\DxgiCapture_"@ + spec_decimal(adapter_index) + "_"@ + spec_decimal(output_index)
}

/// Builds the region name for a captured display's frame ring.
pub fn dxgi_shm_name_string(adapter_index: u32, output_index: u32) -> (s: String)
    ensures
        s@ == dxgi_shm_name(adapter_index as int, output_index as int),
{
    let mut name = String::new();
    name.append("Local\\DxgiCapture_");
    append_decimal(&mut name, adapter_index as u64);
    name.append("_");
    append_decimal(&mut name, output_index as u64);
    proof {
        assert(Seq::<char>::empty() + "Local\\DxgiCapture_"@ =~= "Local\\DxgiCapture_"@);
    }
    name
}

/// What one acquire attempt came back with.
pub enum AcquireEvent {
    /// A frame is ready to be copied and published.
    Frame,
    /// The bounded wait ran out; nothing to do this round.
    Timeout,
    /// The duplication was lost (display mode change, ownership change):
    /// recoverable by recreating it.
    AccessLost,
    /// Any other acquire failure: the capture for this display ends.
    Fatal,
}

/// What the capture loop does next.
#[derive(Debug, PartialEq, Eq, Structural)]
pub enum CaptureAction {
    /// Copy, publish, and go round again.
    Process,
    /// Go round again without a frame.
    Retry,
    /// Recreate the duplication object, then go round again.
    RecreateDuplication,
    /// Leave the loop; the capture thread ends.
    Exit,
}

/// One capture-loop decision: the terminate flag ends the loop before
/// anything else; otherwise a frame is processed, a timeout retried, a lost
/// duplication recreated, and any other failure ends the loop.
pub open spec fn spec_capture_step(terminate: bool, ev: AcquireEvent) -> CaptureAction {
    if terminate {
        CaptureAction::Exit
    } else {
        match ev {
            AcquireEvent::Frame => CaptureAction::Process,
            AcquireEvent::Timeout => CaptureAction::Retry,
            AcquireEvent::AccessLost => CaptureAction::RecreateDuplication,
            AcquireEvent::Fatal => CaptureAction::Exit,
        }
    }
}

/// Decides the capture loop's next step from the terminate flag and the
/// acquire outcome.
pub fn capture_step(terminate: bool, ev: AcquireEvent) -> (a: CaptureAction)
    ensures
        a == spec_capture_step(terminate, ev),
{
    if terminate {
        CaptureAction::Exit
    } else {
        match ev {
            AcquireEvent::Frame => CaptureAction::Process,
            AcquireEvent::Timeout => CaptureAction::Retry,
            AcquireEvent::AccessLost => CaptureAction::RecreateDuplication,
            AcquireEvent::Fatal => CaptureAction::Exit,
        }
    }
}

/// Whether the cached staging resources must be rebuilt: there are none yet,
/// or the acquired surface's dimensions differ from the cached ones.
pub open spec fn spec_needs_new_resources(cached: Option<(u32, u32)>, w: u32, h: u32) -> bool {
    match cached {
        Some((cw, ch)) => cw != w || ch != h,
        None => true,
    }
}

/// Decides whether the cached `(staging texture, shared-memory ring)` pair
/// still fits the acquired surface.
pub fn needs_new_resources(cached: Option<(u32, u32)>, w: u32, h: u32) -> (r: bool)
    ensures
        r == spec_needs_new_resources(cached, w, h),
{
    match cached {
        Some((cw, ch)) => cw != w || ch != h,
        None => true,
    }
}

/// Whether the cached capture resources should be freed: recording just
/// turned inactive, so the staging texture and ring can be dropped to
/// release memory.
pub fn drop_cache_on_stop(was_recording: bool, is_recording: bool) -> (r: bool)
    ensures
        r == (was_recording && !is_recording),
{
    was_recording && !is_recording
}

/// The smaller of two sizes.
pub open spec fn min_usize(a: int, b: int) -> int {
    if a < b {
        a
    } else {
        b
    }
}

/// Copies `height` rows from a mapped texture into a tightly packed frame
/// buffer, reading `min(src_pitch, dst_pitch)` bytes per row -- the
/// stride-mismatch copy of the capture loop. Bytes of a destination row past
/// the copied width are zero (they exist only when the source rows are
/// narrower than the destination rows).
pub fn copy_rows(src: &[u8], src_pitch: usize, dst_pitch: usize, height: usize) -> (out: Vec<u8>)
    requires
        src_pitch * height <= src@.len(),
        dst_pitch * height <= usize::MAX,
    ensures
        out@.len() == dst_pitch * height,
        forall|y: int, x: int|
            0 <= y < height && 0 <= x < min_usize(src_pitch as int, dst_pitch as int) ==> #[trigger]
            out@[y * dst_pitch + x] == src@[y * src_pitch + x],
        forall|y: int, x: int|
            0 <= y < height && min_usize(src_pitch as int, dst_pitch as int) <= x < dst_pitch
                ==> #[trigger] out@[y * dst_pitch + x] == 0u8,
{
    let row_bytes: usize = if src_pitch < dst_pitch {
        src_pitch
    } else {
        dst_pitch
    };
    let slen: usize = src.len();
    let mut out: Vec<u8> = Vec::new();
    let mut y: usize = 0;
    while y < height
        invariant
            y <= height,
            slen == src@.len(),
            src_pitch * height <= src@.len(),
            dst_pitch * height <= usize::MAX,
            row_bytes == min_usize(src_pitch as int, dst_pitch as int),
            out@.len() == y * dst_pitch,
            forall|r: int, x: int|
                0 <= r < y && 0 <= x < row_bytes ==> #[trigger] out@[r * dst_pitch + x] == src@[r
                    * src_pitch + x],
            forall|r: int, x: int|
                0 <= r < y && row_bytes <= x < dst_pitch ==> #[trigger] out@[r * dst_pitch + x]
                    == 0u8,
        decreases height - y,
    {
        proof {
            lemma_row_bounds(y as int, src_pitch as int, dst_pitch as int, height as int);
        }
        let mut x: usize = 0;
        while x < dst_pitch
            invariant
                y < height,
                x <= dst_pitch,
                slen == src@.len(),
                src_pitch * height <= src@.len(),
                dst_pitch * height <= usize::MAX,
                row_bytes == min_usize(src_pitch as int, dst_pitch as int),
                (y + 1) * src_pitch <= src@.len(),
                (y + 1) * dst_pitch <= usize::MAX,
                y * src_pitch + src_pitch == (y + 1) * src_pitch,
                y * dst_pitch + dst_pitch == (y + 1) * dst_pitch,
                out@.len() == y * dst_pitch + x,
                forall|r: int, xx: int|
                    0 <= r < y && 0 <= xx < row_bytes ==> #[trigger] out@[r * dst_pitch + xx]
                        == src@[r * src_pitch + xx],
                forall|r: int, xx: int|
                    0 <= r < y && row_bytes <= xx < dst_pitch ==> #[trigger] out@[r * dst_pitch
                        + xx] == 0u8,
                forall|xx: int|
                    0 <= xx < x && xx < row_bytes ==> #[trigger] out@[y * dst_pitch + xx] == src@[y
                        * src_pitch + xx],
                forall|xx: int|
                    row_bytes <= xx < x ==> #[trigger] out@[y * dst_pitch + xx] == 0u8,
            decreases dst_pitch - x,
        {
            if x < row_bytes {
                out.push(src[y * src_pitch + x]);
            } else {
                out.push(0u8);
            }
            proof {
                assert forall|r: int, xx: int|
                    0 <= r < y && 0 <= xx < row_bytes implies #[trigger] out@[r * dst_pitch + xx]
                    == src@[r * src_pitch + xx] by {
                    lemma_prev_row_index(r, xx, y as int, dst_pitch as int);
                }
                assert forall|r: int, xx: int|
                    0 <= r < y && row_bytes <= xx < dst_pitch implies #[trigger] out@[r * dst_pitch
                    + xx] == 0u8 by {
                    lemma_prev_row_index(r, xx, y as int, dst_pitch as int);
                }
            }
            x = x + 1;
        }
        y = y + 1;
    }
    proof {
        assert(height * dst_pitch == dst_pitch * height) by (nonlinear_arith);
    }
    out
}

proof fn lemma_prev_row_index(r: int, xx: int, y: int, dst_pitch: int)
    requires
        0 <= r < y,
        0 <= xx < dst_pitch,
    ensures
        0 <= r * dst_pitch + xx < y * dst_pitch,
{
    assert(r * dst_pitch + xx < y * dst_pitch && 0 <= r * dst_pitch) by (nonlinear_arith)
        requires
            0 <= r < y && 0 <= xx < dst_pitch,
    ;
}

proof fn lemma_row_bounds(y: int, src_pitch: int, dst_pitch: int, height: int)
    requires
        0 <= y < height,
        0 <= src_pitch,
        0 <= dst_pitch,
    ensures
        (y + 1) * src_pitch <= height * src_pitch,
        (y + 1) * dst_pitch <= height * dst_pitch,
        y * src_pitch + src_pitch == (y + 1) * src_pitch,
        y * dst_pitch + dst_pitch == (y + 1) * dst_pitch,
        height * src_pitch == src_pitch * height,
        height * dst_pitch == dst_pitch * height,
    decreases 0int,
{
    assert((y + 1) * src_pitch <= height * src_pitch && y * src_pitch + src_pitch == (y + 1)
        * src_pitch) by (nonlinear_arith)
        requires
            0 <= y < height && 0 <= src_pitch,
    ;
    assert((y + 1) * dst_pitch <= height * dst_pitch && y * dst_pitch + dst_pitch == (y + 1)
        * dst_pitch) by (nonlinear_arith)
        requires
            0 <= y < height && 0 <= dst_pitch,
    ;
    assert(height * src_pitch == src_pitch * height && height * dst_pitch == dst_pitch * height)
        by (nonlinear_arith);
}

/// What the swap-chain wait came back with while no buffer was ready.
pub enum WaitOutcome {
    /// The buffer-available event fired, or the bounded wait timed out:
    /// try the acquire again.
    Ready,
    /// The wait failed in an unexpected way.
    Failed,
}

/// What one round of the swap-chain loop saw.
pub enum SwapChainEvent {
    /// No buffer yet; the loop waited on the available-buffer event.
    Pending(WaitOutcome),
    /// A buffer was acquired.
    Acquired,
    /// The swap chain failed (it was likely abandoned): the loop ends.
    Failed,
}

/// What the swap-chain loop does next.
#[derive(Debug, PartialEq, Eq, Structural)]
pub enum SwapChainAction {
    /// Process the acquired buffer: record it or release it at once.
    Process,
    /// Try the acquire again.
    Retry,
    /// Leave the loop; the processing thread ends.
    Exit,
}

/// One swap-chain loop decision: after a pending acquire the terminate flag
/// is checked first, then a successful or timed-out wait retries and a
/// failed wait ends the loop; an acquired buffer is processed; a failed
/// swap chain ends the loop.
pub open spec fn spec_swap_chain_step(terminate: bool, ev: SwapChainEvent) -> SwapChainAction {
    match ev {
        SwapChainEvent::Pending(w) => if terminate {
            SwapChainAction::Exit
        } else {
            match w {
                WaitOutcome::Ready => SwapChainAction::Retry,
                WaitOutcome::Failed => SwapChainAction::Exit,
            }
        },
        SwapChainEvent::Acquired => SwapChainAction::Process,
        SwapChainEvent::Failed => SwapChainAction::Exit,
    }
}

/// Decides the swap-chain loop's next step.
pub fn swap_chain_step(terminate: bool, ev: SwapChainEvent) -> (a: SwapChainAction)
    ensures
        a == spec_swap_chain_step(terminate, ev),
{
    match ev {
        SwapChainEvent::Pending(w) => {
            if terminate {
                SwapChainAction::Exit
            } else {
                match w {
                    WaitOutcome::Ready => SwapChainAction::Retry,
                    WaitOutcome::Failed => SwapChainAction::Exit,
                }
            }
        },
        SwapChainEvent::Acquired => SwapChainAction::Process,
        SwapChainEvent::Failed => SwapChainAction::Exit,
    }
}

} // verus!
