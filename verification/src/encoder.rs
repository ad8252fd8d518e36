//! BGRA to YUV420 colour conversion for the H.264 encoder, and the
//! frame-accounting core of the MP4 encoder facade.

use vstd::prelude::*;
use vstd::arithmetic::div_mod::{lemma_div_is_ordered, lemma_hoist_over_denominator};

verus! {

/// Clamps a mathematical integer into the `0..=255` byte range.
pub open spec fn clamp_byte(x: int) -> u8 {
    if x < 0 {
        0
    } else if x > 255 {
        255
    } else {
        x as u8
    }
}

/// BT.601 luma of one BGRA pixel:
/// `Y = ((66*R + 129*G + 25*B) >> 8) + 16`, clamped to a byte.
/// (A pure red pixel gives `Y = 81`.)
pub open spec fn yuv_luma(b: u8, g: u8, r: u8) -> u8 {
    clamp_byte((66 * (r as int) + 129 * (g as int) + 25 * (b as int)) / 256 + 16)
}

/// BT.601 blue-difference chroma of one BGRA pixel:
/// `Cb = ((-38*R - 74*G + 112*B) >> 8) + 128`, clamped to a byte.
pub open spec fn yuv_cb(b: u8, g: u8, r: u8) -> u8 {
    clamp_byte((-38 * (r as int) - 74 * (g as int) + 112 * (b as int)) / 256 + 128)
}

/// BT.601 red-difference chroma of one BGRA pixel:
/// `Cr = ((112*R - 94*G - 18*B) >> 8) + 128`, clamped to a byte.
/// (A pure red pixel gives `Cr = 239`.)
pub open spec fn yuv_cr(b: u8, g: u8, r: u8) -> u8 {
    clamp_byte((112 * (r as int) - 94 * (g as int) - 18 * (b as int)) / 256 + 128)
}

fn luma_of(b: u8, g: u8, r: u8) -> (y: u8)
    ensures
        y == yuv_luma(b, g, r),
{
    let t: u32 = 66 * (r as u32) + 129 * (g as u32) + 25 * (b as u32);
    proof {
        lemma_div_is_ordered(t as int, 56100, 256);
    }
    (t / 256 + 16) as u8
}

fn cb_of(b: u8, g: u8, r: u8) -> (cb: u8)
    ensures
        cb == yuv_cb(b, g, r),
{
    // Shifted by 112 * 256 so the numerator stays non-negative.
    let t: u32 = 112 * (b as u32) + 28672 - 38 * (r as u32) - 74 * (g as u32);
    proof {
        let x = -38 * (r as int) - 74 * (g as int) + 112 * (b as int);
        lemma_hoist_over_denominator(x, 112, 256);
        assert(t as int == x + 112 * 256);
        lemma_div_is_ordered(t as int, 57232, 256);
    }
    (t / 256 + 16) as u8
}

fn cr_of(b: u8, g: u8, r: u8) -> (cr: u8)
    ensures
        cr == yuv_cr(b, g, r),
{
    // Shifted by 112 * 256 so the numerator stays non-negative.
    let t: u32 = 112 * (r as u32) + 28672 - 94 * (g as u32) - 18 * (b as u32);
    proof {
        let x = 112 * (r as int) - 94 * (g as int) - 18 * (b as int);
        lemma_hoist_over_denominator(x, 112, 256);
        assert(t as int == x + 112 * 256);
        lemma_div_is_ordered(t as int, 57232, 256);
    }
    (t / 256 + 16) as u8
}

fn zero_bytes(n: usize) -> (v: Vec<u8>)
    ensures
        v@.len() == n,
        forall|i: int| 0 <= i < n ==> v@[i] == 0u8,
{
    let mut v: Vec<u8> = Vec::new();
    let mut k: usize = 0;
    while k < n
        invariant
            k <= n,
            v@.len() == k,
            forall|i: int| 0 <= i < k ==> v@[i] == 0u8,
        decreases n - k,
    {
        v.push(0u8);
        k = k + 1;
    }
    v
}

/// BGRA to YUV420 planar converter with pre-allocated buffers.
///
/// Converts from BGRA pixel order -- the native format of the capture swap
/// chains -- to YUV420 planar as required by the H.264 encoder. Buffers are
/// allocated once at construction to avoid per-frame allocation.
pub struct YuvConverter {
    pub y_plane: Vec<u8>,
    pub u_plane: Vec<u8>,
    pub v_plane: Vec<u8>,
    pub width: u32,
    pub height: u32,
}

impl YuvConverter {
    /// The planes have the sizes YUV420 subsampling dictates for the frame
    /// dimensions: a full-resolution luma plane and quarter-resolution
    /// chroma planes.
    pub open spec fn wf(&self) -> bool {
        &&& self.width * self.height <= u32::MAX
        &&& self.y_plane@.len() == self.width * self.height
        &&& self.u_plane@.len() == (self.width * self.height) as nat / 4
        &&& self.v_plane@.len() == (self.width * self.height) as nat / 4
    }

    /// Create a new converter for the given frame dimensions.
    ///
    /// Both `width` and `height` must be even (required for YUV420
    /// subsampling).
    pub fn new(width: u32, height: u32) -> (conv: Self)
        requires
            width % 2 == 0,
            height % 2 == 0,
            width * height <= u32::MAX,
        ensures
            conv.wf(),
            conv.width == width,
            conv.height == height,
            forall|i: int| 0 <= i < conv.y_plane@.len() ==> conv.y_plane@[i] == 0u8,
            forall|i: int| 0 <= i < conv.u_plane@.len() ==> conv.u_plane@[i] == 0u8,
            forall|i: int| 0 <= i < conv.v_plane@.len() ==> conv.v_plane@[i] == 0u8,
    {
        proof {
            assert(width * height <= u32::MAX);
        }
        let y_size: usize = (width as usize) * (height as usize);
        let uv_size: usize = y_size / 4;
        YuvConverter {
            y_plane: zero_bytes(y_size),
            u_plane: zero_bytes(uv_size),
            v_plane: zero_bytes(uv_size),
            width,
            height,
        }
    }

    /// Convert BGRA pixel data to YUV420 planar.
    ///
    /// `bgra` must be exactly `width * height * 4` bytes in BGRA order.
    /// Every luma sample is the BT.601 luma of its pixel; each chroma sample
    /// is taken from the top-left pixel of its 2x2 block, the standard
    /// subsampling shortcut for real-time encoding.
    pub fn convert(&mut self, bgra: &[u8])
        requires
            old(self).wf(),
            old(self).width % 2 == 0,
            old(self).height % 2 == 0,
            bgra@.len() == old(self).width * old(self).height * 4,
        ensures
            final(self).wf(),
            final(self).width == old(self).width,
            final(self).height == old(self).height,
            forall|p: int|
                0 <= p < final(self).width * final(self).height ==> final(self).y_plane@[p] == yuv_luma(
                    bgra@[4 * p],
                    bgra@[4 * p + 1],
                    bgra@[4 * p + 2],
                ),
            forall|c: int|
                0 <= c < (final(self).width * final(self).height) as int / 4 ==> final(self).u_plane@[c] == yuv_cb(
                    bgra@[4 * chroma_source(c, final(self).width as int)],
                    bgra@[4 * chroma_source(c, final(self).width as int) + 1],
                    bgra@[4 * chroma_source(c, final(self).width as int) + 2],
                ),
            forall|c: int|
                0 <= c < (final(self).width * final(self).height) as int / 4 ==> final(self).v_plane@[c] == yuv_cr(
                    bgra@[4 * chroma_source(c, final(self).width as int)],
                    bgra@[4 * chroma_source(c, final(self).width as int) + 1],
                    bgra@[4 * chroma_source(c, final(self).width as int) + 2],
                ),
    {
        let w = self.width as usize;
        let h = self.height as usize;
        let blen = bgra.len();
        let mut y: usize = 0;
        while y < h
            invariant
                self.wf(),
                self.width == old(self).width,
                self.height == old(self).height,
                w == self.width,
                h == self.height,
                w % 2 == 0,
                h % 2 == 0,
                y <= h,
                blen == bgra@.len(),
                bgra@.len() == w * h * 4,
                forall|p: int|
                    0 <= p < y * w ==> self.y_plane@[p] == yuv_luma(
                        bgra@[4 * p],
                        bgra@[4 * p + 1],
                        bgra@[4 * p + 2],
                    ),
                forall|c: int|
                    0 <= c < ((y as int + 1) / 2) * (w as int / 2) ==> self.u_plane@[c] == yuv_cb(
                        bgra@[4 * chroma_source(c, w as int)],
                        bgra@[4 * chroma_source(c, w as int) + 1],
                        bgra@[4 * chroma_source(c, w as int) + 2],
                    ),
                forall|c: int|
                    0 <= c < ((y as int + 1) / 2) * (w as int / 2) ==> self.v_plane@[c] == yuv_cr(
                        bgra@[4 * chroma_source(c, w as int)],
                        bgra@[4 * chroma_source(c, w as int) + 1],
                        bgra@[4 * chroma_source(c, w as int) + 2],
                    ),
            decreases h - y,
        {
            proof {
                lemma_half_row_step(y as int, w as int);
            }
            let mut x: usize = 0;
            while x < w
                invariant
                    self.wf(),
                    self.width == old(self).width,
                    self.height == old(self).height,
                    w == self.width,
                    h == self.height,
                    w % 2 == 0,
                    h % 2 == 0,
                    y < h,
                    x <= w,
                    blen == bgra@.len(),
                    bgra@.len() == w * h * 4,
                    forall|p: int|
                        0 <= p < y * w + x ==> self.y_plane@[p] == yuv_luma(
                            bgra@[4 * p],
                            bgra@[4 * p + 1],
                            bgra@[4 * p + 2],
                        ),
                    forall|c: int|
                        0 <= c < (y as int / 2) * (w as int / 2) + (if y % 2 == 0 {
                            (x as int + 1) / 2
                        } else {
                            w as int / 2
                        }) ==> self.u_plane@[c] == yuv_cb(
                            bgra@[4 * chroma_source(c, w as int)],
                            bgra@[4 * chroma_source(c, w as int) + 1],
                            bgra@[4 * chroma_source(c, w as int) + 2],
                        ),
                    forall|c: int|
                        0 <= c < (y as int / 2) * (w as int / 2) + (if y % 2 == 0 {
                            (x as int + 1) / 2
                        } else {
                            w as int / 2
                        }) ==> self.v_plane@[c] == yuv_cr(
                            bgra@[4 * chroma_source(c, w as int)],
                            bgra@[4 * chroma_source(c, w as int) + 1],
                            bgra@[4 * chroma_source(c, w as int) + 2],
                        ),
                decreases w - x,
            {
                proof {
                    lemma_pixel_index_bounds(y as int, x as int, w as int, h as int);
                }
                let p: usize = y * w + x;
                let idx: usize = p * 4;
                let b = bgra[idx];
                let g = bgra[idx + 1];
                let r = bgra[idx + 2];
                self.y_plane.set(p, luma_of(b, g, r));
                if y % 2 == 0 && x % 2 == 0 {
                    proof {
                        lemma_chroma_index_bounds(y as int, x as int, w as int, h as int);
                    }
                    let uv_idx: usize = (y / 2) * (w / 2) + x / 2;
                    self.u_plane.set(uv_idx, cb_of(b, g, r));
                    self.v_plane.set(uv_idx, cr_of(b, g, r));
                    proof {
                        lemma_chroma_source_roundtrip(y as int, x as int, w as int);
                    }
                }
                x = x + 1;
            }
            proof {
                lemma_half_row_step(y as int, w as int);
            }
            y = y + 1;
        }
        proof {
            lemma_even_halves_product(w as int, h as int);
            assert(((h as int + 1) / 2) * (w as int / 2) == (h as int / 2) * (w as int / 2));
            assert(h as int * w as int == w as int * h as int) by (nonlinear_arith);
            assert(y * w == w * h);
        }
    }
}

/// Row-to-row bookkeeping for the chroma plane: moving past one pixel row
/// advances the count of finished chroma samples by half a row exactly when
/// the row index was even.
proof fn lemma_half_row_step(y: int, w: int)
    requires
        0 <= y,
        0 <= w,
        w % 2 == 0,
    ensures
        (y / 2 + 1) * (w / 2) == (y / 2) * (w / 2) + w / 2,
        y % 2 == 0 ==> (y + 1) / 2 == y / 2,
        y % 2 == 1 ==> (y + 1) / 2 == y / 2 + 1,
        (y + 1) * w == y * w + w,
        y % 2 == 0 ==> (y + 2) / 2 == y / 2 + 1,
        y % 2 == 1 ==> (y + 2) / 2 == y / 2 + 1,
        (w + 1) / 2 == w / 2,
{
    assert((y / 2 + 1) * (w / 2) == (y / 2) * (w / 2) + w / 2) by (nonlinear_arith);
    assert((y + 1) * w == y * w + w) by (nonlinear_arith);
}

/// The pixel index whose BGRA bytes feed chroma sample `c` of a frame that is
/// `w` pixels wide: the top-left pixel of the 2x2 block the sample covers.
pub open spec fn chroma_source(c: int, w: int) -> int {
    (c / (w / 2)) * 2 * w + (c % (w / 2)) * 2
}

proof fn lemma_pixel_index_bounds(y: int, x: int, w: int, h: int)
    requires
        0 <= y < h,
        0 <= x < w,
    ensures
        0 <= y * w + x < w * h,
        (y * w + x) * 4 + 3 < w * h * 4,
        4 * (y * w + x) == (y * w + x) * 4,
{
    assert(y * w + x < w * h && 0 <= y * w + x) by (nonlinear_arith)
        requires
            0 <= y < h && 0 <= x < w,
    ;
    assert((y * w + x) * 4 + 3 < w * h * 4) by (nonlinear_arith)
        requires
            y * w + x < w * h,
    ;
}

proof fn lemma_chroma_index_bounds(y: int, x: int, w: int, h: int)
    requires
        0 <= y < h,
        0 <= x < w,
        y % 2 == 0,
        x % 2 == 0,
        w % 2 == 0,
        h % 2 == 0,
    ensures
        0 <= (y / 2) * (w / 2) + x / 2 < (w * h) / 4,
{
    lemma_even_halves_product(w, h);
    assert(0 <= (y / 2) * (w / 2) + x / 2 < (h / 2) * (w / 2)) by (nonlinear_arith)
        requires
            0 <= y / 2 < h / 2 && 0 <= x / 2 < w / 2,
    ;
}

proof fn lemma_even_halves_product(w: int, h: int)
    requires
        w % 2 == 0,
        h % 2 == 0,
        0 <= w,
        0 <= h,
    ensures
        (h / 2) * (w / 2) == (w * h) / 4,
{
    let hw = w / 2;
    let hh = h / 2;
    assert(w == 2 * hw && h == 2 * hh);
    assert((2 * hw) * (2 * hh) == 4 * (hh * hw)) by (nonlinear_arith);
    assert((4 * (hh * hw)) / 4 == hh * hw) by {
        vstd::arithmetic::div_mod::lemma_div_multiples_vanish(hh * hw, 4);
    }
}

proof fn lemma_chroma_source_roundtrip(y: int, x: int, w: int)
    requires
        0 <= y,
        0 <= x < w,
        y % 2 == 0,
        x % 2 == 0,
        w % 2 == 0,
        0 < w,
    ensures
        chroma_source((y / 2) * (w / 2) + x / 2, w) == y * w + x,
{
    let hw = w / 2;
    let c = (y / 2) * hw + x / 2;
    assert(0 <= x / 2 < hw);
    assert(c / hw == y / 2 && c % hw == x / 2) by (nonlinear_arith)
        requires
            0 <= x / 2 < hw && 0 < hw && c == (y / 2) * hw + x / 2 && 0 <= y / 2,
    ;
    assert((y / 2) * 2 == y && (x / 2) * 2 == x);
    assert((y / 2) * 2 * w == y * w) by (nonlinear_arith)
        requires
            (y / 2) * 2 == y,
    ;
}

/// What kind of frame the H.264 encoder produced, mirroring the encoder's
/// own frame classification.
#[derive(Debug, Clone, Copy, PartialEq, Eq, Structural)]
pub enum FrameKind {
    Invalid,
    Idr,
    I,
    P,
    Skip,
    IpMixed,
}

/// Declares openh264's encoder so the encode core can own one.
#[verifier::external_type_specification]
#[verifier::external_body]
pub struct ExEncoder(openh264::encoder::Encoder);

/// Declares openh264's error type so wrappers can hand it back.
#[verifier::external_type_specification]
#[verifier::external_body]
pub struct ExEncoderError(openh264::Error);

/// Declares openh264's frame classification for the mapping below.
#[verifier::external_type_specification]
#[verifier::external_body]
pub struct ExFrameType(openh264::encoder::FrameType);

/// Relies on openh264's Encoder::with_api_config, EncoderConfig::bitrate and
/// OpenH264API::from_source: builds an H.264 encoder targeting 2 Mbps; frame
/// dimensions are taken from the first frame encoded.
#[verifier::external_body]
pub fn new_h264_encoder() -> Result<openh264::encoder::Encoder, openh264::Error> {
    let config = openh264::encoder::EncoderConfig::new()
        .bitrate(openh264::encoder::BitRate::from_bps(2_000_000));
    openh264::encoder::Encoder::with_api_config(openh264::OpenH264API::from_source(), config)
}

/// Relies on openh264's Encoder::encode_at and the YUVSlices layout checks:
/// encodes one YUV420 picture at the given timestamp and hands back the
/// Annex B bitstream with the encoder's frame classification. The plane
/// sizes and strides must match the dimensions exactly (the slice wrapper
/// panics otherwise), and the timestamp must fit a signed 64-bit value.
#[verifier::external_body]
fn encode_yuv420(
    enc: &mut openh264::encoder::Encoder,
    y: &Vec<u8>,
    u: &Vec<u8>,
    v: &Vec<u8>,
    width: usize,
    height: usize,
    timestamp_ms: u64,
) -> Result<(Vec<u8>, FrameKind), openh264::Error>
    requires
        width % 2 == 0,
        height % 2 == 0,
        width > 0,
        height > 0,
        width <= i32::MAX,
        height <= i32::MAX,
        y@.len() == width * height,
        u@.len() == (height / 2) * (width / 2),
        v@.len() == (height / 2) * (width / 2),
        timestamp_ms <= i64::MAX,
{
    let slices = openh264::formats::YUVSlices::new(
        (y.as_slice(), u.as_slice(), v.as_slice()),
        (width, height),
        (width, width / 2, width / 2),
    );
    let ts = openh264::Timestamp::from_millis(timestamp_ms);
    let bitstream = enc.encode_at(&slices, ts)?;
    Ok((bitstream.to_vec(), kind_of(bitstream.frame_type())))
}

/// Relies on openh264's FrameType: tells the encoder's frame classes apart,
/// one arm per variant.
#[verifier::external_body]
fn kind_of(t: openh264::encoder::FrameType) -> FrameKind {
    match t {
        openh264::encoder::FrameType::Invalid => FrameKind::Invalid,
        openh264::encoder::FrameType::IDR => FrameKind::Idr,
        openh264::encoder::FrameType::I => FrameKind::I,
        openh264::encoder::FrameType::P => FrameKind::P,
        openh264::encoder::FrameType::Skip => FrameKind::Skip,
        openh264::encoder::FrameType::IPMixed => FrameKind::IpMixed,
    }
}

/// Relies on Display formatting of openh264's error type, for error reports.
#[verifier::external_body]
pub fn describe_encoder_error(e: &openh264::Error) -> String {
    format!("{e}")
}

/// One encoded frame, ready for the MP4 muxer: the Annex B bitstream, the
/// keyframe mark, and the frame's index and timestamp in the stream.
pub struct EncodedFrame {
    pub data: Vec<u8>,
    pub is_keyframe: bool,
    pub frame_index: u64,
    pub timestamp_ms: u64,
}

/// Why a frame was not encoded.
#[derive(Debug)]
pub enum EncodeError {
    /// The input buffer was not `width * height * 4` bytes.
    SizeMismatch { expected: usize, got: usize },
    /// The underlying encoder refused the frame.
    Encoder(String),
}

impl EncodeError {
    /// A one-line description of the error.
    pub fn message(&self) -> (s: String)
        ensures
            self matches EncodeError::Encoder(m) ==> s@ == m@,
            self matches EncodeError::SizeMismatch { expected, got } ==> s@
                == "BGRA buffer size mismatch: expected "@ + crate::text::spec_decimal(
                expected as int,
            ) + " bytes, got "@ + crate::text::spec_decimal(got as int),
    {
        match self {
            EncodeError::SizeMismatch { expected, got } => {
                let mut s = String::new();
                s.append("BGRA buffer size mismatch: expected ");
                crate::text::append_decimal(&mut s, *expected as u64);
                s.append(" bytes, got ");
                crate::text::append_decimal(&mut s, *got as u64);
                proof {
                    assert(Seq::<char>::empty() + "BGRA buffer size mismatch: expected "@
                        =~= "BGRA buffer size mismatch: expected "@);
                }
                s
            },
            EncodeError::Encoder(m) => m.clone(),
        }
    }
}

/// Assembles one encoder output for the muxer: an empty bitstream is a
/// skipped frame and yields nothing; anything else carries its bytes
/// unchanged, is a keyframe exactly when the encoder classified it as an IDR
/// or I frame, and is stamped with the given index and timestamp.
pub fn package_bitstream(data: Vec<u8>, kind: FrameKind, frame_index: u64, timestamp_ms: u64) -> (r:
    Option<EncodedFrame>)
    ensures
        r is None <==> data@.len() == 0,
        r matches Some(f) ==> f.data@ == data@ && f.is_keyframe == (kind is Idr || kind is I)
            && f.frame_index == frame_index && f.timestamp_ms == timestamp_ms,
{
    if data.len() == 0 {
        None
    } else {
        let is_keyframe = match kind {
            FrameKind::Idr => true,
            FrameKind::I => true,
            _ => false,
        };
        Some(EncodedFrame { data, is_keyframe, frame_index, timestamp_ms })
    }
}

/// The compute core of the MP4 encoder facade: converts BGRA frames to
/// YUV420, runs the H.264 encoder, stamps each frame with its index-derived
/// timestamp, and counts accepted frames. The container muxing and file
/// output happen outside, fed by the returned bitstreams.
pub struct Mp4EncoderCore {
    pub enc: openh264::encoder::Encoder,
    pub yuv: YuvConverter,
    pub width: u32,
    pub height: u32,
    pub fps: u32,
    pub frame_count: u64,
}

impl Mp4EncoderCore {
    /// The converter matches the frame dimensions, the rate is positive, and
    /// dimensions are even as YUV420 requires.
    pub open spec fn wf(&self) -> bool {
        &&& self.yuv.wf()
        &&& self.yuv.width == self.width
        &&& self.yuv.height == self.height
        &&& self.width % 2 == 0
        &&& self.height % 2 == 0
        &&& self.width > 0
        &&& self.height > 0
        &&& self.width * self.height * 4 <= u32::MAX
        &&& self.fps >= 1
    }

    /// Wraps an encoder for frames of the given dimensions at the given
    /// rate. The encoder instance comes from [`new_h264_encoder`]; the
    /// caller owns file and muxer.
    pub fn new(enc: openh264::encoder::Encoder, width: u32, height: u32, fps: u32) -> (core: Self)
        requires
            width % 2 == 0,
            height % 2 == 0,
            width > 0,
            height > 0,
            fps >= 1,
            width * height * 4 <= u32::MAX,
        ensures
            core.wf(),
            core.width == width,
            core.height == height,
            core.fps == fps,
            core.frame_count == 0,
    {
        proof {
            assert(width * height <= width * height * 4) by (nonlinear_arith)
                requires
                    width >= 0 && height >= 0,
            ;
        }
        Mp4EncoderCore {
            enc,
            yuv: YuvConverter::new(width, height),
            width,
            height,
            fps,
            frame_count: 0,
        }
    }

    /// The timestamp of frame `k` at this rate, in milliseconds.
    pub open spec fn spec_timestamp_ms(k: int, fps: int) -> int {
        k * 1000 / fps
    }

    /// Encodes one BGRA frame.
    ///
    /// A buffer that is not exactly `width * height * 4` bytes is rejected
    /// and nothing changes. Otherwise the frame is converted and handed to
    /// the encoder at timestamp `frame_count * 1000 / fps`; the frame count
    /// advances whether or not the encoder produced output (a skipped frame
    /// still occupies its slot in the timeline), and the bitstream comes
    /// back only when there is data to mux. An encoder failure is reported
    /// and counts nothing.
    pub fn encode_frame(&mut self, bgra: &[u8]) -> (r: Result<Option<EncodedFrame>, EncodeError>)
        requires
            old(self).wf(),
            old(self).frame_count * 1000 + 1000 <= i64::MAX,
        ensures
            final(self).wf(),
            final(self).width == old(self).width,
            final(self).height == old(self).height,
            final(self).fps == old(self).fps,
            bgra@.len() != old(self).width * old(self).height * 4 ==> {
                &&& r matches Err(EncodeError::SizeMismatch { expected, got }) && expected == old(
                    self,
                ).width * old(self).height * 4 && got == bgra@.len()
                &&& final(self).frame_count == old(self).frame_count
            },
            bgra@.len() == old(self).width * old(self).height * 4 ==> match r {
                Result::Ok(out) => final(self).frame_count == old(self).frame_count + 1 && (
                out matches Some(f) ==> f.frame_index == old(self).frame_count && f.timestamp_ms
                    == Self::spec_timestamp_ms(old(self).frame_count as int, old(self).fps as int)
                    && f.data@.len() > 0),
                Result::Err(e) => e is Encoder && final(self).frame_count == old(
                    self,
                ).frame_count,
            },
    {
        let expected: usize = (self.width as usize) * (self.height as usize) * 4;
        if bgra.len() != expected {
            return Err(EncodeError::SizeMismatch { expected, got: bgra.len() });
        }
        self.yuv.convert(bgra);
        let w = self.width as usize;
        let h = self.height as usize;
        let timestamp_ms: u64 = self.frame_count * 1000 / (self.fps as u64);
        proof {
            vstd::arithmetic::div_mod::lemma_div_is_ordered(
                old(self).frame_count * 1000 as int,
                old(self).frame_count * 1000 + 1000,
                old(self).fps as int,
            );
            vstd::arithmetic::div_mod::lemma_div_is_ordered(
                0,
                old(self).frame_count * 1000 as int,
                old(self).fps as int,
            );
            lemma_even_halves_product(w as int, h as int);
            assert(w <= i32::MAX && h <= i32::MAX) by (nonlinear_arith)
                requires
                    w * h * 4 <= u32::MAX && w >= 1 && h >= 1,
            ;
        }
        match encode_yuv420(
            &mut self.enc,
            &self.yuv.y_plane,
            &self.yuv.u_plane,
            &self.yuv.v_plane,
            w,
            h,
            timestamp_ms,
        ) {
            Result::Ok((data, kind)) => {
                let frame_index = self.frame_count;
                self.frame_count = self.frame_count + 1;
                // A skipped frame (empty bitstream) still advances the
                // timeline but nothing goes to the muxer.
                Ok(package_bitstream(data, kind, frame_index, timestamp_ms))
            },
            Result::Err(e) => Err(EncodeError::Encoder(describe_encoder_error(&e))),
        }
    }

    /// The number of frames accepted so far.
    pub fn frames_encoded(&self) -> (n: u64)
        ensures
            n == self.frame_count,
    {
        self.frame_count
    }
}

} // verus!
