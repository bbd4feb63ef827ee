//! Screen capture: what a capture frame offers, which buffers it accepts,
//! and how the capture time is reported.

use vstd::prelude::*;

verus! {

/// The version of the capture protocol that is served.
pub const SCREENCOPY_VERSION: u32 = 3;

/// The state of the capture manager. It carries nothing: the frames hold
/// what there is to hold.
#[derive(Clone, Copy, Debug, Default, PartialEq, Eq, Hash)]
pub struct ScreencopyManagerState;

/// The buffer that a client is told to provide for a capture: 32 bits per
/// pixel without alpha, rows packed.
#[derive(Clone, Copy, Debug, PartialEq, Eq, Hash, Structural)]
pub struct BufferOffer {
    pub width: u32,
    pub height: u32,
    pub stride: u32,
}

/// What a client's buffer is made of.
#[derive(Clone, Copy, Debug, PartialEq, Eq, Hash, Structural)]
pub struct BufferLayout {
    /// Whether the pixel format is 32 bits per pixel without alpha.
    pub xrgb8888: bool,
    pub width: i32,
    pub height: i32,
    pub stride: i32,
    /// The size of the memory behind the buffer in bytes.
    pub len: usize,
}

/// The state of one capture frame.
#[derive(Clone, Copy, Debug, PartialEq, Eq, Hash, Structural)]
pub enum ScreencopyFrameState {
    /// The capture could not be set up; the client has been told.
    Failed,
    /// The frame waits for the client's buffer, or has got it already.
    Pending { copied: bool },
}

/// A request of a client on a capture frame.
#[derive(Clone, Copy, Debug, PartialEq, Eq, Hash, Structural)]
pub enum FrameRequest {
    Destroy,
    Copy(BufferLayout),
}

/// What is done about a request on a capture frame.
#[derive(Clone, Copy, Debug, PartialEq, Eq, Hash, Structural)]
pub enum CopyDecision {
    /// Nothing.
    Ignore,
    /// The client asked twice: a protocol error.
    AlreadyUsed,
    /// The buffer does not fit the offer: a protocol error.
    InvalidBuffer,
    /// The buffer is taken: the capture goes ahead.
    Accept,
}

/// The offer for an output of `width` by `height` pixels.
pub open spec fn offer_for(width: i32, height: i32) -> BufferOffer {
    BufferOffer { width: width as u32, height: height as u32, stride: (width * 4) as u32 }
}

/// Whether a buffer fits a capture of `width` by `height` pixels: the
/// right format, the same size, packed rows, and memory for exactly
/// `height` rows.
pub open spec fn buffer_fits(layout: BufferLayout, width: i32, height: i32) -> bool {
    &&& layout.xrgb8888
    &&& layout.width == width
    &&& layout.height == height
    &&& layout.stride == width * 4
    &&& 0 <= layout.stride
    &&& 0 <= layout.height
    &&& layout.len == layout.stride * layout.height
}

/// What is done about `request` on a frame in `status` that captures
/// `width` by `height` pixels.
pub open spec fn copy_decision_of(status: ScreencopyFrameState, request: FrameRequest, width: i32, height: i32)
    -> CopyDecision {
    match request {
        FrameRequest::Destroy => CopyDecision::Ignore,
        FrameRequest::Copy(layout) => match status {
            ScreencopyFrameState::Failed => CopyDecision::Ignore,
            ScreencopyFrameState::Pending { copied } => if copied {
                CopyDecision::AlreadyUsed
            } else if buffer_fits(layout, width, height) {
                CopyDecision::Accept
            } else {
                CopyDecision::InvalidBuffer
            },
        },
    }
}

/// The frame after a request: it counts as used once a buffer is taken.
pub open spec fn status_after(status: ScreencopyFrameState, decision: CopyDecision) -> ScreencopyFrameState {
    if decision is Accept {
        ScreencopyFrameState::Pending { copied: true }
    } else {
        status
    }
}

/// The state of a new capture frame: pending if the output has a mode to
/// capture, failed if it has none.
pub fn new_frame(has_mode: bool) -> (status: ScreencopyFrameState)
    ensures
        status == if has_mode {
            ScreencopyFrameState::Pending { copied: false }
        } else {
            ScreencopyFrameState::Failed
        },
{
    if has_mode {
        ScreencopyFrameState::Pending { copied: false }
    } else {
        ScreencopyFrameState::Failed
    }
}

/// Whether the end of the buffer offers is announced to a client that
/// speaks `version` of the protocol.
pub fn announces_buffer_done(version: u32) -> (b: bool)
    ensures
        b == (version >= 3),
{
    version >= 3
}

/// The buffer to offer for an output of `width` by `height` pixels, or
/// nothing where a size is negative or the row length cannot be
/// represented.
pub fn buffer_offer(width: i32, height: i32) -> (offer: Option<BufferOffer>)
    ensures
        offer == if 0 <= width && 0 <= height && width * 4 <= u32::MAX {
            Some(offer_for(width, height))
        } else {
            None::<BufferOffer>
        },
{
    if 0 <= width && 0 <= height && width <= 0x3fff_ffff {
        Some(BufferOffer { width: width as u32, height: height as u32, stride: (width as u32) * 4 })
    } else {
        None
    }
}

/// Whether a client's buffer fits a capture of `width` by `height` pixels.
pub fn validate_buffer(layout: &BufferLayout, width: i32, height: i32) -> (b: bool)
    ensures
        b == buffer_fits(*layout, width, height),
{
    if !layout.xrgb8888 || layout.width != width || layout.height != height {
        return false;
    }
    if layout.stride < 0 || layout.height < 0 {
        return false;
    }
    if (layout.stride as i64) != (width as i64) * 4 {
        return false;
    }
    assert(layout.stride * layout.height <= 0x7fff_ffff * 0x7fff_ffff) by (nonlinear_arith)
        requires
            0 <= layout.stride <= 0x7fff_ffff,
            0 <= layout.height <= 0x7fff_ffff,
    ;
    let bytes: u64 = (layout.stride as u64) * (layout.height as u64);
    (layout.len as u64) == bytes
}

impl ScreencopyFrameState {
    /// Handles a request on a frame that captures `width` by `height`
    /// pixels. A frame takes one buffer, and only one that fits; asking
    /// again is an error, and a failed frame answers nothing.
    pub fn request(&mut self, request: FrameRequest, width: i32, height: i32) -> (decision:
        CopyDecision)
        ensures
            decision == copy_decision_of(*old(self), request, width, height),
            *final(self) == status_after(*old(self), decision),
    {
        match request {
            FrameRequest::Destroy => CopyDecision::Ignore,
            FrameRequest::Copy(layout) => match *self {
                ScreencopyFrameState::Failed => CopyDecision::Ignore,
                ScreencopyFrameState::Pending { copied } => {
                    if copied {
                        CopyDecision::AlreadyUsed
                    } else if validate_buffer(&layout, width, height) {
                        *self = ScreencopyFrameState::Pending { copied: true };
                        CopyDecision::Accept
                    } else {
                        CopyDecision::InvalidBuffer
                    }
                },
            },
        }
    }
}

/// The seconds of a capture time as the protocol carries them: the upper
/// and the lower 32 bits.
pub fn split_seconds(seconds: u64) -> (parts: (u32, u32))
    ensures
        parts.0 == seconds / 0x1_0000_0000,
        parts.1 == seconds % 0x1_0000_0000,
        seconds == parts.0 * 0x1_0000_0000 + parts.1,
{
    let hi: u64 = seconds >> 32;
    let lo: u64 = seconds & 0xffff_ffff;
    assert(hi == seconds / 0x1_0000_0000 && lo == seconds % 0x1_0000_0000 && hi <= 0xffff_ffff
        && lo <= 0xffff_ffff) by (bit_vector)
        requires
            hi == seconds >> 32,
            lo == seconds & 0xffff_ffff,
    ;
    (hi as u32, lo as u32)
}

/// A frame takes at most one buffer: once a buffer is accepted, every
/// further copy request is an error and changes nothing.
pub proof fn lemma_frame_takes_one_buffer(
    status: ScreencopyFrameState,
    first: FrameRequest,
    second: BufferLayout,
    width: i32,
    height: i32,
)
    requires
        copy_decision_of(status, first, width, height) is Accept,
    ensures
        copy_decision_of(
            status_after(status, CopyDecision::Accept),
            FrameRequest::Copy(second),
            width,
            height,
        ) is AlreadyUsed,
{
}

} // verus!
