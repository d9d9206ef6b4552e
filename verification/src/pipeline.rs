//! The two ends of the pipeline, as the decisions they take: the capture pump
//! numbers the frames and publishes them, and the scan worker accepts the
//! first payload that is a WiFi-join URI.

use crate::grammar::uri_prefix;
use crate::mailbox::{MailboxSlot, SlotView};
use crate::text::starts_with;
use vstd::prelude::*;

verus! {

/// How many captures are thrown away before the first one is published,
/// while the camera settles.
pub const WARMUP_CAPTURES: u32 = 3;

/// The bytes that an RGBA image of this size takes.
pub open spec fn rgba_len(width: u32, height: u32) -> int {
    4 * (width * height)
}

/// One captured image: RGBA pixels in rows from the top, and the number under
/// which it was captured.
#[derive(Debug, PartialEq, Eq)]
pub struct Frame {
    sequence: u64,
    width: u32,
    height: u32,
    pixels: Vec<u8>,
}

/// A frame as a mathematical value.
pub struct FrameView {
    pub sequence: nat,
    pub width: u32,
    pub height: u32,
    pub pixels: Seq<u8>,
}

impl View for Frame {
    type V = FrameView;

    closed spec fn view(&self) -> FrameView {
        FrameView {
            sequence: self.sequence as nat,
            width: self.width,
            height: self.height,
            pixels: self.pixels@,
        }
    }
}

impl Frame {
    #[verifier::type_invariant]
    spec fn filled(self) -> bool {
        self.pixels@.len() == rgba_len(self.width, self.height)
    }

    /// Makes a frame of `pixels`, if they are as many as its size asks for.
    pub fn new(sequence: u64, width: u32, height: u32, pixels: Vec<u8>) -> (frame: Option<Frame>)
        ensures
            match frame {
                Some(frame) => pixels@.len() == rgba_len(width, height) && frame@ == (FrameView {
                    sequence: sequence as nat,
                    width,
                    height,
                    pixels: pixels@,
                }),
                None => pixels@.len() != rgba_len(width, height),
            },
    {
        assert(0 <= width * height <= 0xffff_ffff * 0xffff_ffff) by (nonlinear_arith)
            requires
                0 <= width <= 0xffff_ffff,
                0 <= height <= 0xffff_ffff,
        ;
        let area: u64 = (width as u64) * (height as u64);
        let wanted: u128 = 4 * (area as u128);
        if pixels.len() as u128 == wanted {
            Some(Frame { sequence, width, height, pixels })
        } else {
            None
        }
    }

    /// The number under which the frame was captured.
    pub fn sequence(&self) -> (sequence: u64)
        ensures
            sequence == self@.sequence,
    {
        self.sequence
    }

    /// The width in pixels.
    pub fn width(&self) -> (width: u32)
        ensures
            width == self@.width,
    {
        self.width
    }

    /// The height in pixels.
    pub fn height(&self) -> (height: u32)
        ensures
            height == self@.height,
    {
        self.height
    }

    /// Gives the pixels up, four bytes each.
    pub fn into_pixels(self) -> (pixels: Vec<u8>)
        ensures
            pixels@ == self@.pixels,
            pixels@.len() == rgba_len(self@.width, self@.height),
    {
        proof {
            use_type_invariant(&self);
        }
        self.pixels
    }

    /// The pixels, four bytes each.
    pub fn pixels(&self) -> (pixels: &Vec<u8>)
        ensures
            pixels@ == self@.pixels,
            pixels@.len() == rgba_len(self@.width, self@.height),
    {
        proof {
            use_type_invariant(self);
        }
        &self.pixels
    }
}

/// What the capture pump does next.
#[derive(Debug, Clone, Copy, PartialEq, Eq)]
pub enum PumpStep {
    /// The scan worker is done: capture nothing more.
    Stop,
    /// Capture a frame and publish it under this number.
    Capture { sequence: u64 },
}

/// The producer's end: it counts the frames that it has published.
pub struct CapturePump {
    published: u64,
}

impl CapturePump {
    /// How many frames have been published.
    pub closed spec fn published(&self) -> nat {
        self.published as nat
    }

    /// A pump that has published nothing: its first frame is number 1.
    pub fn new() -> (pump: CapturePump)
        ensures
            pump.published() == 0,
    {
        CapturePump { published: 0 }
    }

    /// How many frames have been published.
    pub fn frames_published(&self) -> (count: u64)
        ensures
            count == self.published(),
    {
        self.published
    }

    /// Decides, before each capture, whether to go on: once the scan worker
    /// has finished nothing more is captured, and until then the next frame
    /// gets the next number.
    pub fn next_step(&self, worker_finished: bool) -> (step: PumpStep)
        requires
            self.published() < u64::MAX,
        ensures
            step == (if worker_finished {
                PumpStep::Stop
            } else {
                PumpStep::Capture { sequence: (self.published() + 1) as u64 }
            }),
    {
        if worker_finished {
            PumpStep::Stop
        } else {
            PumpStep::Capture { sequence: self.published + 1 }
        }
    }

    /// Publishes a captured image under the next number and hands back the
    /// frame that it displaces, if the scan worker had not taken that yet.
    /// `None` where the pixels are not as many as the size asks for: nothing
    /// is published then.
    pub fn publish(
        &mut self,
        slot: &mut MailboxSlot<Frame>,
        width: u32,
        height: u32,
        pixels: Vec<u8>,
    ) -> (published: Option<Option<Frame>>)
        requires
            old(self).published() < u64::MAX,
            old(slot)@.version < u64::MAX,
        ensures
            match published {
                Some(displaced) => {
                    &&& pixels@.len() == rgba_len(width, height)
                    &&& final(self).published() == old(self).published() + 1
                    &&& final(slot)@.pending matches Some(frame) && frame@ == (FrameView {
                        sequence: old(self).published() + 1,
                        width,
                        height,
                        pixels: pixels@,
                    })
                    &&& final(slot)@ == old(slot)@.publish(final(slot)@.pending->0)
                    &&& displaced == old(slot)@.pending
                },
                None => {
                    &&& pixels@.len() != rgba_len(width, height)
                    &&& final(self).published() == old(self).published()
                    &&& final(slot)@ == old(slot)@
                },
            },
    {
        match Frame::new(self.published + 1, width, height, pixels) {
            Some(frame) => {
                self.published = self.published + 1;
                Some(slot.publish(frame))
            },
            None => None,
        }
    }
}

/// Whether a decoded payload is a WiFi-join URI by its prefix.
pub fn is_wifi_payload(payload: &str) -> (yes: bool)
    ensures
        yes == uri_prefix().is_prefix_of(payload@),
{
    proof {
        reveal_strlit("WIFI:");
        assert("WIFI:"@ =~= uri_prefix());
    }
    starts_with(payload, "WIFI:")
}

/// What the scan worker does with what a frame gave.
#[derive(Debug, PartialEq, Eq)]
pub enum ScanStep {
    /// The payload is a WiFi-join URI: the scan ends with it.
    Accept { payload: String },
    /// The frame gave nothing, or something else: go on with the next frame.
    Skip,
}

/// Decides on what the decoder found in one frame: a payload that begins
/// with `WIFI:` ends the scan, and anything else is passed over.
pub fn inspect(decoded: Option<String>) -> (step: ScanStep)
    ensures
        match decoded {
            Some(payload) => if uri_prefix().is_prefix_of(payload@) {
                step == (ScanStep::Accept { payload })
            } else {
                step == ScanStep::Skip
            },
            None => step == ScanStep::Skip,
        },
{
    match decoded {
        Some(payload) => {
            if is_wifi_payload(payload.as_str()) {
                ScanStep::Accept { payload }
            } else {
                ScanStep::Skip
            }
        },
        None => ScanStep::Skip,
    }
}

} // verus!
