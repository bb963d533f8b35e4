//! One producer stream per started screen cast: the latest compositor frame,
//! republished as raw video.

use vstd::prelude::*;
use vstd::slice::*;
use vstd::string::*;

use crate::schema::{StreamTarget, WindowId};

verus! {

/// The frame rate that is asked of the compositor and offered to consumers.
pub const STREAM_FPS: u32 = 30;

/// The bytes of one pixel.
pub const PIXEL_BYTES: u32 = 4;

/// The parameters of a running cast.
#[derive(Debug, Clone, Copy, PartialEq, Eq, Structural)]
pub struct CastStarted {
    pub node_id: u32,
    pub width: u32,
    pub height: u32,
}

/// The stream that shows a window, or the whole output.
pub fn stream_target(window: Option<WindowId>) -> (target: StreamTarget)
    ensures
        target == (match window {
            Some(window) => StreamTarget::Window { window },
            None => StreamTarget::Output,
        }),
{
    match window {
        Some(window) => StreamTarget::Window { window },
        None => StreamTarget::Output,
    }
}

/// The bytes of one frame.
pub open spec fn frame_bytes(width: u32, height: u32) -> int {
    width * height * PIXEL_BYTES
}

/// A payload holds exactly one frame.
pub fn frame_fits(width: u32, height: u32, length: usize) -> (yes: bool)
    ensures
        yes == (length == frame_bytes(width, height)),
{
    assert(0 <= width * height <= 0xffff_ffffu32 * 0xffff_ffffu32) by (nonlinear_arith)
        requires
            0 <= width <= 0xffff_ffff,
            0 <= height <= 0xffff_ffff,
    ;
    let pixels: u128 = (width as u128) * (height as u128);
    length as u128 == pixels * 4
}

/// A frame of this extent fits a video buffer.
pub fn usable_extent(width: u32, height: u32) -> (yes: bool)
    ensures
        yes == (frame_bytes(width, height) <= i32::MAX && width * PIXEL_BYTES <= i32::MAX && height
            <= i32::MAX),
{
    assert(0 <= width * height <= 0xffff_ffffu32 * 0xffff_ffffu32) by (nonlinear_arith)
        requires
            0 <= width <= 0xffff_ffff,
            0 <= height <= 0xffff_ffff,
    ;
    let most: u128 = i32::MAX as u128;
    let pixels: u128 = (width as u128) * (height as u128);
    pixels * 4 <= most && width as u128 * 4 <= most && height as u128 <= most
}

/// How the buffers of a stream are laid out: between two and eight of them,
/// one block each, of exactly one frame, in plain or shared memory.
#[derive(Debug, Clone, Copy, PartialEq, Eq, Structural)]
pub struct BufferLayout {
    pub buffers_default: i32,
    pub buffers_min: i32,
    pub buffers_max: i32,
    pub blocks: i32,
    pub size: i32,
    pub stride: i32,
    /// The kind of memory that is preferred.
    pub data_type_default: i32,
    /// The number of plain memory.
    pub data_type_plain: i32,
    /// The number of shared memory.
    pub data_type_shared: i32,
}

/// The layout of the buffers for frames of this extent.
pub fn buffers_pod(width: u32, height: u32) -> (layout: BufferLayout)
    requires
        frame_bytes(width, height) <= i32::MAX,
        width * PIXEL_BYTES <= i32::MAX,
        height <= i32::MAX,
    ensures
        layout == (BufferLayout {
            buffers_default: 4,
            buffers_min: 2,
            buffers_max: 8,
            blocks: 1,
            size: frame_bytes(width, height) as i32,
            stride: (width * PIXEL_BYTES) as i32,
            data_type_default: 1,
            data_type_plain: 1,
            data_type_shared: 2,
        }),
{
    let stride: i32 = width as i32 * 4;
    assert(0 <= stride * height) by (nonlinear_arith)
        requires
            0 <= stride,
            0 <= height,
    ;
    assert(stride * height == frame_bytes(width, height)) by (nonlinear_arith)
        requires
            stride == width * 4,
            frame_bytes(width, height) == width * height * 4,
    ;
    let size: i32 = stride * height as i32;
    BufferLayout {
        buffers_default: 4,
        buffers_min: 2,
        buffers_max: 8,
        blocks: 1,
        size,
        stride,
        data_type_default: 1,
        data_type_plain: 1,
        data_type_shared: 2,
    }
}

/// What arrived from the compositor.
pub enum CastMessage {
    Frame { pixels: Vec<u8> },
    LeaseRenewed,
    Ended { reason: String },
    Failed,
}

/// What the cast does about it.
#[derive(Debug, Clone, Copy, PartialEq, Eq, Structural)]
pub enum CastAction {
    Continue,
    /// Report the end of the stream and stop.
    End,
}

/// The part of a video buffer that holds pixels.
#[derive(Debug, Clone, Copy, PartialEq, Eq, Structural)]
pub struct Chunk {
    pub offset: u32,
    pub size: u32,
    pub stride: i32,
}

/// A running cast.
pub struct Cast {
    pub width: u32,
    pub height: u32,
    /// The latest frame that came whole.
    pub latest: Option<Vec<u8>>,
    /// The parameters were handed out.
    pub reported: bool,
}

/// The latest frame of a cast.
pub open spec fn latest_of(cast: Cast) -> Option<Seq<u8>> {
    match cast.latest {
        Some(frame) => Some(frame@),
        None => None,
    }
}

impl Cast {
    /// A frame fits a buffer, and the latest one is a whole frame.
    pub open spec fn well_formed(self) -> bool {
        &&& frame_bytes(self.width, self.height) <= i32::MAX
        &&& self.width * PIXEL_BYTES <= i32::MAX
        &&& self.latest matches Some(frame) ==> frame@.len() == frame_bytes(
            self.width,
            self.height,
        )
    }

    /// A cast of this extent, without a frame yet.
    pub fn new(width: u32, height: u32) -> (cast: Cast)
        requires
            frame_bytes(width, height) <= i32::MAX,
            width * PIXEL_BYTES <= i32::MAX,
        ensures
            cast.well_formed(),
            cast.width == width,
            cast.height == height,
            cast.latest is None,
            !cast.reported,
    {
        Cast { width, height, latest: None, reported: false }
    }

    /// Takes a message: a whole frame becomes the latest one, any other is
    /// dropped; the end of the stream, or a failure to read it, ends the cast.
    pub fn receive(&mut self, message: CastMessage) -> (action: CastAction)
        requires
            old(self).well_formed(),
        ensures
            final(self).well_formed(),
            final(self).width == old(self).width,
            final(self).height == old(self).height,
            final(self).reported == old(self).reported,
            match message {
                CastMessage::Frame { pixels } => action == CastAction::Continue && latest_of(
                    *final(self),
                ) == (if pixels@.len() == frame_bytes(old(self).width, old(self).height) {
                    Some(pixels@)
                } else {
                    latest_of(*old(self))
                }),
                CastMessage::LeaseRenewed => action == CastAction::Continue && latest_of(
                    *final(self),
                ) == latest_of(*old(self)),
                CastMessage::Ended { .. } | CastMessage::Failed => action == CastAction::End
                    && latest_of(*final(self)) == latest_of(*old(self)),
            },
    {
        match message {
            CastMessage::Frame { pixels } => {
                if frame_fits(self.width, self.height, pixels.len()) {
                    self.latest = Some(pixels);
                }
                CastAction::Continue
            },
            CastMessage::LeaseRenewed => CastAction::Continue,
            CastMessage::Ended { .. } | CastMessage::Failed => CastAction::End,
        }
    }

    /// The stream reached the state in which its node is known: the
    /// parameters are handed out, once.
    pub fn report(&mut self, node_id: u32) -> (started: Option<CastStarted>)
        ensures
            *final(self) == (Cast { reported: true, ..*old(self) }),
            started == (if old(self).reported {
                None
            } else {
                Some(CastStarted { node_id, width: old(self).width, height: old(self).height })
            }),
    {
        if self.reported {
            return None;
        }
        self.reported = true;
        Some(CastStarted { node_id, width: self.width, height: self.height })
    }

    /// Copies the latest frame into a video buffer. Without a frame, or into
    /// a buffer that is too small, nothing is copied and the chunk is empty.
    pub fn process(&self, dest: &mut Vec<u8>) -> (chunk: Chunk)
        requires
            self.well_formed(),
        ensures
            chunk.offset == 0,
            chunk.stride == self.width * PIXEL_BYTES,
            match latest_of(*self) {
                Some(frame) => if frame.len() <= old(dest)@.len() {
                    chunk.size == frame.len() && final(dest)@ == frame + old(dest)@.skip(
                        frame.len() as int,
                    )
                } else {
                    chunk.size == 0 && final(dest)@ == old(dest)@
                },
                None => chunk.size == 0 && final(dest)@ == old(dest)@,
            },
    {
        let stride: i32 = self.width as i32 * 4;
        let mut size: u32 = 0;
        if let Some(frame) = &self.latest {
            if dest.len() >= frame.len() {
                let ghost before = dest@;
                let mut i: usize = 0;
                while i < frame.len()
                    invariant
                        i <= frame@.len() <= before.len(),
                        dest@ =~= frame@.take(i as int) + before.skip(i as int),
                    decreases frame.len() - i,
                {
                    dest.set(i, frame[i]);
                    i = i + 1;
                }
                assert(frame@.take(i as int) =~= frame@);
                size = frame.len() as u32;
            }
        }
        Chunk { offset: 0, size, stride }
    }
}

/// A buffer of one frame takes a whole frame, and then holds it exactly.
pub proof fn one_frame_buffers_hold_the_frame(width: u32, height: u32, frame: Seq<u8>, dest: Seq<u8>)
    requires
        frame.len() == frame_bytes(width, height),
        dest.len() == frame_bytes(width, height),
    ensures
        frame + dest.skip(frame.len() as int) == frame,
{
    assert(frame + dest.skip(frame.len() as int) =~= frame);
}

} // verus!
