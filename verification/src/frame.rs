//! The per-frame synchronization and submission protocol.
//!
//! One fence ("may begin drawing") and two semaphores ("image available",
//! "rendering finished") exist per swapchain image slot, together with that
//! slot's command buffer. The GPU is an opaque second actor whose progress
//! the single frame-loop thread observes only through those primitives; this
//! module is the thread's decision logic. The application performs the
//! actual acquire, wait, record, submit and present calls, and reports each
//! step back here; the contracts force the steps into the order
//! acquire → wait-and-reset → update → record → submit → present, and in
//! particular forbid re-recording a slot's command buffer while a previous
//! submission against that slot may still be read by the GPU.
//!
//! Slot selection: the rotating `current_image` cursor picks which "image
//! available" semaphore the next acquire uses; the fence and the command
//! buffer that the rest of the frame touches belong to the image index the
//! acquire actually returned. (Were both keyed by the cursor while the
//! presentation subsystem returned images in a different order, the fence
//! wait could guard the wrong command buffer.)
use vstd::pervasive::VecAdditionalExecFns;
use vstd::prelude::*;

verus! {

/// Where the frame-loop thread stands within the current frame.
#[derive(Clone, Copy, Debug, PartialEq, Eq, Structural)]
pub enum FramePhase {
    /// No frame in progress; the next step advances the cursor and requests
    /// an image from the presentation subsystem.
    Idle,
    /// The acquire request is out, tied to the cursor slot's "image
    /// available" semaphore; the image index is not known yet. The request
    /// may block without bound and may fail (a stale surface is fatal here).
    Acquiring,
    /// An image slot is acquired; its fence may still guard in-flight work,
    /// so no buffer this slot reads may be written yet.
    Acquired,
    /// The slot's fence has been observed signaled and was reset: the GPU
    /// is done with the slot's previous submission, and CPU-side buffer
    /// updates for this frame are safe.
    Safe,
    /// The slot's command buffer has been re-recorded for this frame.
    Recorded,
    /// The submission is enqueued; it waits on "image available", will
    /// signal "rendering finished", and will signal the slot's fence when
    /// the GPU retires it.
    Submitted,
}

/// The synchronizer: the cursor, the acquired slot, and per-slot knowledge
/// of whether a submission is still in flight (fence not yet observed
/// signaled since the last submit against that slot).
pub struct FrameSync {
    pub amount_of_images: usize,
    pub current_image: usize,
    pub acquired_image: usize,
    pub in_flight: Vec<bool>,
    pub phase: FramePhase,
}

impl FrameSync {
    /// Well-formedness: at least one image slot, both indices in range, one
    /// in-flight flag per slot.
    pub open spec fn wf(self) -> bool {
        &&& self.amount_of_images > 0
        &&& self.current_image < self.amount_of_images
        &&& self.acquired_image < self.amount_of_images
        &&& self.in_flight@.len() == self.amount_of_images
    }

    /// Recording the acquired slot's command buffer is permitted only once
    /// this frame's fence wait has been observed — never while a previous
    /// submission against that slot is still in flight.
    pub open spec fn recording_permitted(self) -> bool {
        &&& self.phase is Safe
        &&& !self.in_flight@[self.acquired_image as int]
    }

    /// A fresh synchronizer for `amount_of_images` image slots: cursor at
    /// the first slot, nothing in flight, no frame in progress. (Fences are
    /// created signaled by the application, matching "nothing in flight".)
    pub fn new(amount_of_images: usize) -> (s: FrameSync)
        requires
            amount_of_images > 0,
        ensures
            s.wf(),
            s.amount_of_images == amount_of_images,
            s.current_image == 0,
            s.acquired_image == 0,
            s.in_flight@ == Seq::new(amount_of_images as nat, |i: int| false),
            s.phase is Idle,
    {
        let in_flight = vec![false; amount_of_images];
        proof {
            assert(in_flight@ =~= Seq::new(amount_of_images as nat, |i: int| false));
        }
        FrameSync {
            amount_of_images,
            current_image: 0,
            acquired_image: 0,
            in_flight,
            phase: FramePhase::Idle,
        }
    }

    /// Begin a frame: advance the rotating cursor and hand back the slot
    /// whose "image available" semaphore the acquire request must use.
    pub fn begin_frame(&mut self) -> (slot: usize)
        requires
            old(self).wf(),
            old(self).phase is Idle,
        ensures
            final(self).wf(),
            slot == final(self).current_image,
            final(self).current_image == (old(self).current_image + 1) % (
            old(self).amount_of_images as int),
            final(self).phase is Acquiring,
            final(self).amount_of_images == old(self).amount_of_images,
            final(self).acquired_image == old(self).acquired_image,
            final(self).in_flight == old(self).in_flight,
    {
        self.current_image = (self.current_image + 1) % self.amount_of_images;
        self.phase = FramePhase::Acquiring;
        self.current_image
    }

    /// The presentation subsystem answered the acquire request with an
    /// image index; that slot's fence and command buffer govern the rest of
    /// this frame.
    pub fn image_acquired(&mut self, image_index: usize)
        requires
            old(self).wf(),
            old(self).phase is Acquiring,
            image_index < old(self).amount_of_images,
        ensures
            final(self).wf(),
            final(self).phase is Acquired,
            final(self).acquired_image == image_index,
            final(self).amount_of_images == old(self).amount_of_images,
            final(self).current_image == old(self).current_image,
            final(self).in_flight == old(self).in_flight,
    {
        self.acquired_image = image_index;
        self.phase = FramePhase::Acquired;
    }

    /// The wait on the acquired slot's "may begin drawing" fence returned
    /// and the fence was reset: the GPU has retired whatever was last
    /// submitted against this slot, so nothing of this slot's is in flight
    /// any more and CPU writes are safe.
    pub fn fence_observed(&mut self)
        requires
            old(self).wf(),
            old(self).phase is Acquired,
        ensures
            final(self).wf(),
            final(self).phase is Safe,
            final(self).recording_permitted(),
            final(self).in_flight@ == old(self).in_flight@.update(
                old(self).acquired_image as int,
                false,
            ),
            final(self).amount_of_images == old(self).amount_of_images,
            final(self).current_image == old(self).current_image,
            final(self).acquired_image == old(self).acquired_image,
    {
        let slot = self.acquired_image;
        self.in_flight.set(slot, false);
        self.phase = FramePhase::Safe;
    }

    /// Whether re-recording the acquired slot's command buffer is permitted
    /// right now.
    pub fn recording_allowed(&self) -> (r: bool)
        requires
            self.wf(),
        ensures
            r == self.recording_permitted(),
    {
        match self.phase {
            FramePhase::Safe => !self.in_flight[self.acquired_image],
            _ => false,
        }
    }

    /// Re-record the acquired slot's command buffer. Permitted only after
    /// this frame's fence wait: this precondition is the engine's sole
    /// protection against the CPU rewriting a command buffer (or the
    /// buffers it reads) that the GPU is still consuming.
    pub fn begin_recording(&mut self)
        requires
            old(self).wf(),
            old(self).recording_permitted(),
        ensures
            final(self).wf(),
            final(self).phase is Recorded,
            final(self).amount_of_images == old(self).amount_of_images,
            final(self).current_image == old(self).current_image,
            final(self).acquired_image == old(self).acquired_image,
            final(self).in_flight == old(self).in_flight,
    {
        self.phase = FramePhase::Recorded;
    }

    /// The recorded command buffer was enqueued on the graphics queue,
    /// arranged to signal the acquired slot's fence when the GPU retires
    /// it: from now until that fence is next observed, the slot is in
    /// flight.
    pub fn submitted(&mut self)
        requires
            old(self).wf(),
            old(self).phase is Recorded,
        ensures
            final(self).wf(),
            final(self).phase is Submitted,
            final(self).in_flight@ == old(self).in_flight@.update(
                old(self).acquired_image as int,
                true,
            ),
            !final(self).recording_permitted(),
            final(self).amount_of_images == old(self).amount_of_images,
            final(self).current_image == old(self).current_image,
            final(self).acquired_image == old(self).acquired_image,
    {
        let slot = self.acquired_image;
        self.in_flight.set(slot, true);
        self.phase = FramePhase::Submitted;
    }

    /// Presentation of the acquired image was enqueued, gated on "rendering
    /// finished"; the frame is over. The slot stays in flight until its
    /// fence is observed at the start of some later frame that acquires it.
    pub fn presented(&mut self)
        requires
            old(self).wf(),
            old(self).phase is Submitted,
        ensures
            final(self).wf(),
            final(self).phase is Idle,
            final(self).amount_of_images == old(self).amount_of_images,
            final(self).current_image == old(self).current_image,
            final(self).acquired_image == old(self).acquired_image,
            final(self).in_flight == old(self).in_flight,
    {
        self.phase = FramePhase::Idle;
    }

    /// Law: two consecutive submissions against the same image slot never
    /// overlap. While a submission against the acquired slot is in flight —
    /// from `submitted` until the next `fence_observed` for that slot —
    /// recording its command buffer is not permitted, whatever the phase.
    pub proof fn law_no_overlapping_submissions(s: FrameSync, k: usize)
        requires
            s.wf(),
            k < s.amount_of_images,
            s.acquired_image == k,
            s.in_flight@[k as int],
        ensures
            !s.recording_permitted(),
    {
    }
}

} // verus!
