//! The capture buffer state machine: one off-screen picking pass at a time,
//! copied to host memory through a non-blocking map request whose
//! completion arrives on a bounded channel.
use vstd::prelude::*;
use tokio::sync::mpsc::{Receiver, Sender};
use vstd::arithmetic::div_mod::lemma_fundamental_div_mod;
use crate::arith::lemma_mul_le_mono;
use crate::geometry::Ray;
use crate::pick::{resolve_pick, spec_pick, PickOutcome};
use crate::scene::SceneState;
use crate::snap::SnapMode;

verus! {

#[verifier::external_type_specification]
#[verifier::external_body]
#[verifier::reject_recursive_types(T)]
pub struct ExSender<T>(Sender<T>);

#[verifier::external_type_specification]
#[verifier::external_body]
#[verifier::reject_recursive_types(T)]
pub struct ExReceiver<T>(Receiver<T>);

/// Capacity of the channel that carries map completions.
pub const MAP_CHANNEL_CAPACITY: usize = 16;

/// Relies on tokio::sync::mpsc::channel: a bounded channel, for a positive
/// capacity.
#[verifier::external_body]
fn completion_channel() -> (r: (Sender<bool>, Receiver<bool>)) {
    tokio::sync::mpsc::channel(MAP_CHANNEL_CAPACITY)
}

/// Relies on tokio's Receiver::try_recv: takes a queued message if there is
/// one and never waits. What it gives depends on timing, so nothing is
/// stated of it.
#[verifier::external_body]
fn try_receive(rx: &mut Receiver<bool>) -> (r: Option<bool>) {
    rx.try_recv().ok()
}

/// Relies on tokio's Sender::clone: another handle to the same channel.
#[verifier::external_body]
fn clone_sender(tx: &Sender<bool>) -> (r: Sender<bool>) {
    tx.clone()
}

/// Where the capture pipeline stands.
#[derive(Clone, Copy, Debug, PartialEq, Eq, Structural)]
pub enum CaptureState {
    /// No capture in flight.
    Idle,
    /// The render pass and the copy into the readback buffer are issued.
    CapturePending,
    /// A map-for-read of the readback buffer has been requested.
    MapRequested,
    /// The readback buffer is mapped and its image can be taken.
    Ready,
}

/// Why a capture could not begin.
#[derive(Clone, Copy, Debug, PartialEq, Eq, Structural)]
pub enum CaptureError {
    /// A capture is already in flight.
    Busy,
    /// The row alignment is zero, or the buffer size does not fit.
    BadShape,
}

/// What the caller needs to issue a capture: the row stride in texels, the
/// row count, whether the readback buffer must be allocated anew, and its
/// size in bytes.
#[derive(Clone, Copy, Debug, PartialEq, Eq, Structural)]
pub struct CaptureTarget {
    pub padded_width: usize,
    pub height: usize,
    pub reallocate: bool,
    pub buffer_bytes: usize,
}

/// `width` rounded up to a multiple of `alignment`.
pub open spec fn align_up(width: int, alignment: int) -> int {
    ((width + alignment - 1) / alignment) * alignment
}

/// The capture state as mathematical values.
pub struct CaptureModel {
    pub state: CaptureState,
    pub width: nat,
    pub height: nat,
    pub padded_width: nat,
    pub image: Seq<i32>,
}

pub struct ScreenCapture {
    window_width: usize,
    window_hight: usize,
    image_width: usize,
    raw_image: Vec<i32>,
    state: CaptureState,
    sender: Sender<bool>,
    receiver: Receiver<bool>,
}

impl View for ScreenCapture {
    type V = CaptureModel;

    closed spec fn view(&self) -> CaptureModel {
        CaptureModel {
            state: self.state,
            width: self.window_width as nat,
            height: self.window_hight as nat,
            padded_width: self.image_width as nat,
            image: self.raw_image@,
        }
    }
}

impl ScreenCapture {
    /// An idle capture with no image, sized for the smallest window.
    pub fn new() -> (r: ScreenCapture)
        ensures
            r@.state == CaptureState::Idle,
            r@.width == 21,
            r@.height == 21,
            r@.padded_width == 21,
            r@.image.len() == 0,
    {
        let (sender, receiver) = completion_channel();
        ScreenCapture {
            window_width: 21,
            window_hight: 21,
            image_width: 21,
            raw_image: Vec::new(),
            state: CaptureState::Idle,
            sender,
            receiver,
        }
    }

    /// Whether a capture is in flight.
    pub fn is_captured(&self) -> (r: bool)
        ensures
            r == (self@.state != CaptureState::Idle),
    {
        self.state != CaptureState::Idle
    }

    pub fn state(&self) -> (r: CaptureState)
        ensures
            r == self@.state,
    {
        self.state
    }

    /// Begins a capture of a `window_width` by `window_hight` viewport with
    /// rows padded to `row_alignment` texels. Only an idle capture begins;
    /// the readback buffer is to be allocated anew only when the viewport
    /// size changed.
    pub fn get_capture_buffer(&mut self, window_width: usize, window_hight: usize, row_alignment: usize) -> (r: Result<
        CaptureTarget,
        CaptureError,
    >)
        ensures
            old(self)@.state != CaptureState::Idle ==> r == Err::<CaptureTarget, CaptureError>(CaptureError::Busy),
            old(self)@.state == CaptureState::Idle ==> (r is Err <==> (row_alignment == 0 || align_up(
                window_width as int,
                row_alignment as int,
            ) > usize::MAX || align_up(window_width as int, row_alignment as int) * window_hight * 16
                > usize::MAX)),
            r is Err ==> r == Err::<CaptureTarget, CaptureError>(CaptureError::Busy) || r == Err::<
                CaptureTarget,
                CaptureError,
            >(CaptureError::BadShape),
            r is Err ==> final(self)@ == old(self)@,
            r matches Ok(t) ==> {
                &&& old(self)@.state == CaptureState::Idle
                &&& t.padded_width == align_up(window_width as int, row_alignment as int)
                &&& t.height == window_hight
                &&& t.buffer_bytes == t.padded_width * window_hight * 16
                &&& t.reallocate == (window_width != old(self)@.width || window_hight != old(self)@.height)
                &&& final(self)@ == CaptureModel {
                    state: CaptureState::CapturePending,
                    width: window_width as nat,
                    height: window_hight as nat,
                    padded_width: t.padded_width as nat,
                    image: old(self)@.image,
                }
            },
    {
        if self.state != CaptureState::Idle {
            return Err(CaptureError::Busy);
        }
        if row_alignment == 0 {
            return Err(CaptureError::BadShape);
        }
        let ghost w: int = window_width as int;
        let ghost a: int = row_alignment as int;
        let blocks: u128 = ((window_width as u128) + (row_alignment as u128) - 1) / (row_alignment as u128);
        proof {
            lemma_fundamental_div_mod(w + a - 1, a);
            assert(a * (blocks as int) <= w + a - 1);
        }
        let padded: u128 = blocks * (row_alignment as u128);
        if padded > usize::MAX as u128 {
            return Err(CaptureError::BadShape);
        }
        proof {
            lemma_mul_le_mono(padded as int, window_hight as int, 0xffff_ffff_ffff_ffffint, 0xffff_ffff_ffff_ffffint);
            lemma_fundamental_div_mod(usize::MAX as int, 16);
        }
        let rows: u128 = padded * (window_hight as u128);
        if rows > (usize::MAX as u128) / 16 {
            return Err(CaptureError::BadShape);
        }
        let bytes: u128 = rows * 16;
        let reallocate: bool = self.window_width != window_width || self.window_hight != window_hight;
        self.window_width = window_width;
        self.window_hight = window_hight;
        self.image_width = padded as usize;
        self.state = CaptureState::CapturePending;
        Ok(CaptureTarget { padded_width: padded as usize, height: window_hight, reallocate, buffer_bytes: bytes as usize })
    }

    /// Requests the map-for-read of the readback buffer once the capture
    /// is issued. Gives whether the caller should now issue the request,
    /// reporting its completion through `completion_sender`.
    pub fn copy_to_host(&mut self) -> (r: bool)
        ensures
            r == (old(self)@.state == CaptureState::CapturePending),
            final(self)@ == (if r {
                CaptureModel { state: CaptureState::MapRequested, ..old(self)@ }
            } else {
                old(self)@
            }),
    {
        if self.state == CaptureState::CapturePending {
            self.state = CaptureState::MapRequested;
            true
        } else {
            false
        }
    }

    /// A sending end of the channel on which a map request reports `true`
    /// when the buffer is mapped and `false` when mapping failed.
    pub fn completion_sender(&self) -> Sender<bool> {
        clone_sender(&self.sender)
    }

    /// Applies what arrived on the completion channel: `Some(true)` when
    /// the buffer was mapped, `Some(false)` when mapping failed, `None` when
    /// nothing arrived. Only a requested map reacts: success makes the image
    /// ready, failure ends the capture. Gives whether the image can now be
    /// taken.
    pub fn apply_map_event(&mut self, event: Option<bool>) -> (r: bool)
        ensures
            final(self)@ == (if old(self)@.state == CaptureState::MapRequested && event is Some {
                CaptureModel {
                    state: if event == Some(true) {
                        CaptureState::Ready
                    } else {
                        CaptureState::Idle
                    },
                    ..old(self)@
                }
            } else {
                old(self)@
            }),
            r == (final(self)@.state == CaptureState::Ready),
    {
        if self.state == CaptureState::MapRequested {
            match event {
                Some(true) => {
                    self.state = CaptureState::Ready;
                },
                Some(false) => {
                    self.state = CaptureState::Idle;
                },
                None => {},
            }
        }
        self.state == CaptureState::Ready
    }

    /// Checks, without waiting, whether the requested map has completed.
    /// Gives whether the image can now be taken. The channel is read only
    /// while a map is requested, so an idle or pending capture never
    /// becomes ready here; a failed map ends the capture.
    pub fn poll_map(&mut self) -> (r: bool)
        ensures
            r == (final(self)@.state == CaptureState::Ready),
            old(self)@.state != CaptureState::MapRequested ==> final(self)@ == old(self)@,
            old(self)@.state == CaptureState::MapRequested ==> final(self)@ == (CaptureModel {
                state: final(self)@.state,
                ..old(self)@
            }),
            old(self)@.state == CaptureState::MapRequested ==> final(self)@.state != CaptureState::CapturePending,
    {
        if self.state != CaptureState::MapRequested {
            return self.state == CaptureState::Ready;
        }
        let event: Option<bool> = try_receive(&mut self.receiver);
        self.apply_map_event(event)
    }

    /// Takes the image read from the mapped buffer and ends the capture.
    /// Only a ready capture takes it, and only an image of the capture's
    /// full size: `padded_width * height` texels of four channels.
    pub fn consume(&mut self, image: Vec<i32>) -> (r: bool)
        ensures
            r == (old(self)@.state == CaptureState::Ready && image@.len() == old(self)@.padded_width
                * old(self)@.height * 4),
            final(self)@ == (if r {
                CaptureModel { state: CaptureState::Idle, image: image@, ..old(self)@ }
            } else {
                old(self)@
            }),
    {
        let n: usize = image.len();
        proof {
            lemma_mul_le_mono(
                self.image_width as int,
                self.window_hight as int,
                0xffff_ffff_ffff_ffffint,
                0xffff_ffff_ffff_ffffint,
            );
        }
        let fits: bool = n % 4 == 0 && (n / 4) as u128 == (self.image_width as u128) * (self.window_hight as u128);
        if self.state == CaptureState::Ready && fits {
            self.raw_image = image;
            self.state = CaptureState::Idle;
            true
        } else {
            false
        }
    }

    /// The last image taken.
    pub fn image(&self) -> (r: &Vec<i32>)
        ensures
            r@ == self@.image,
    {
        &self.raw_image
    }

    /// Picks at (`x`, `y`) in the last image taken.
    pub fn pick(&self, x: i64, y: i64, mode: SnapMode, ray: &Ray, scene: &SceneState) -> (r: PickOutcome)
        requires
            ray.wf(),
        ensures
            r == spec_pick(
                self@.image,
                self@.padded_width as int,
                self@.width as int,
                self@.height as int,
                x as int,
                y as int,
                mode,
                *ray,
                *scene,
            ),
    {
        resolve_pick(
            &self.raw_image,
            self.image_width,
            self.window_width,
            self.window_hight,
            x,
            y,
            mode,
            ray,
            scene,
        )
    }
}

} // verus!
