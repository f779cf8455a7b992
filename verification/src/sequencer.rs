//! The handoff sequencer: a strict, linear state machine governing the
//! only-once transition out of firmware services.
//!
//! The surrounding program performs the firmware calls; the sequencer
//! decides which operation is acceptable in which state. Allocation-
//! performing operations are permitted only up to the kernel-loaded
//! state. Once the final memory-map snapshot is taken, its map key must
//! be consumed by the very next exit call; a stale key grants exactly one
//! fresh snapshot and one more exit attempt, and a second stale report is
//! fatal.

use vstd::prelude::*;

use crate::memmap::FrameAllocatorHandle;

verus! {

/// The states of the handoff, in their one-way order. `Transferred` is
/// terminal; `Halted` is the fatal dead end reached when the retry
/// budget is exhausted.
#[derive(Clone, Copy, Debug, PartialEq, Eq, Structural)]
pub enum HandoffState {
    Init,
    BaselineCaptured,
    GraphicsConfigured,
    KernelLoaded,
    FinalSnapshotTaken,
    ExitedServices,
    Transferred,
    Halted,
}

/// What an exit attempt decides.
#[derive(Clone, Copy, Debug, PartialEq, Eq, Structural)]
pub enum ExitOutcome {
    /// The firmware accepted the key: services are now permanently gone.
    Completed,
    /// The key was stale; the single permitted retry snapshot is granted.
    RetrySnapshot,
    /// The key was stale again; the handoff is abandoned.
    Fatal,
}

/// Position of a state along the handoff, for one-way-ordering claims.
pub open spec fn state_rank(s: HandoffState) -> int {
    match s {
        HandoffState::Init => 0,
        HandoffState::BaselineCaptured => 1,
        HandoffState::GraphicsConfigured => 2,
        HandoffState::KernelLoaded => 3,
        HandoffState::FinalSnapshotTaken => 4,
        HandoffState::ExitedServices => 5,
        HandoffState::Transferred => 6,
        HandoffState::Halted => 7,
    }
}

/// Allocation-performing operations (file reads, pool or page
/// allocation, mode negotiation) are acceptable only in states up to and
/// including `KernelLoaded`.
pub open spec fn allocation_allowed(s: HandoffState) -> bool {
    ||| s == HandoffState::Init
    ||| s == HandoffState::BaselineCaptured
    ||| s == HandoffState::GraphicsConfigured
    ||| s == HandoffState::KernelLoaded
}

/// The sequencer. Its fields are the whole of its decision state: the
/// current handoff state, whether the single stale-key retry has been
/// spent, and the map key owed to the next exit call, when one is held.
pub struct HandoffSequencer {
    state: HandoffState,
    retry_used: bool,
    key_valid: bool,
    map_key: u64,
}

impl HandoffSequencer {
    /// The current state.
    pub closed spec fn state(self) -> HandoffState {
        self.state
    }

    /// Whether the single stale-key retry has been consumed.
    pub closed spec fn retry_used(self) -> bool {
        self.retry_used
    }

    /// Whether a fresh map key is held for the next exit call.
    pub closed spec fn key_valid(self) -> bool {
        self.key_valid
    }

    /// The held map key; meaningful only while `key_valid()`.
    pub closed spec fn map_key(self) -> u64 {
        self.map_key
    }

    /// Start a handoff.
    pub fn new() -> (s: HandoffSequencer)
        ensures
            s.state() == HandoffState::Init,
            !s.retry_used(),
            !s.key_valid(),
    {
        HandoffSequencer { state: HandoffState::Init, retry_used: false, key_valid: false, map_key: 0 }
    }

    /// Read the current state.
    pub fn current_state(&self) -> (s: HandoffState)
        ensures
            s == self.state(),
    {
        self.state
    }

    /// Whether an allocation-performing operation is acceptable now.
    pub fn allocation_permitted(&self) -> (r: bool)
        ensures
            r == allocation_allowed(self.state()),
    {
        match self.state {
            HandoffState::Init => true,
            HandoffState::BaselineCaptured => true,
            HandoffState::GraphicsConfigured => true,
            HandoffState::KernelLoaded => true,
            _ => false,
        }
    }

    /// Record that the pre-load, diagnostic-only memory map was captured.
    pub fn capture_baseline(&mut self)
        requires
            old(self).state() == HandoffState::Init,
        ensures
            final(self).state() == HandoffState::BaselineCaptured,
            final(self).retry_used() == old(self).retry_used(),
            final(self).key_valid() == old(self).key_valid(),
    {
        self.state = HandoffState::BaselineCaptured;
    }

    /// Record that a display mode was selected and committed.
    pub fn configure_graphics(&mut self)
        requires
            old(self).state() == HandoffState::BaselineCaptured,
        ensures
            final(self).state() == HandoffState::GraphicsConfigured,
            final(self).retry_used() == old(self).retry_used(),
            final(self).key_valid() == old(self).key_valid(),
    {
        self.state = HandoffState::GraphicsConfigured;
    }

    /// Record that the kernel image is placed in memory and its entry
    /// address resolved.
    pub fn kernel_loaded(&mut self)
        requires
            old(self).state() == HandoffState::GraphicsConfigured,
        ensures
            final(self).state() == HandoffState::KernelLoaded,
            final(self).retry_used() == old(self).retry_used(),
            final(self).key_valid() == old(self).key_valid(),
    {
        self.state = HandoffState::KernelLoaded;
    }

    /// Record the final memory-map snapshot and hold its map key for the
    /// exit call. From here on no allocation is acceptable.
    pub fn take_final_snapshot(&mut self, map_key: u64)
        requires
            old(self).state() == HandoffState::KernelLoaded,
        ensures
            final(self).state() == HandoffState::FinalSnapshotTaken,
            final(self).retry_used() == old(self).retry_used(),
            final(self).key_valid(),
            final(self).map_key() == map_key,
    {
        self.state = HandoffState::FinalSnapshotTaken;
        self.key_valid = true;
        self.map_key = map_key;
    }

    /// The key the next exit call must consume.
    pub fn exit_key(&self) -> (k: u64)
        requires
            self.state() == HandoffState::FinalSnapshotTaken,
            self.key_valid(),
        ensures
            k == self.map_key(),
    {
        self.map_key
    }

    /// Decide on the firmware's answer to an exit call, which must have
    /// been made with exactly the held key. Success poisons firmware
    /// services for good; the first stale report grants the single retry
    /// snapshot; a second one is fatal.
    pub fn exit_attempt(&mut self, key_used: u64, stale: bool) -> (outcome: ExitOutcome)
        requires
            old(self).state() == HandoffState::FinalSnapshotTaken,
            old(self).key_valid(),
            key_used == old(self).map_key(),
        ensures
            !stale ==> {
                &&& outcome == ExitOutcome::Completed
                &&& final(self).state() == HandoffState::ExitedServices
            },
            stale && !old(self).retry_used() ==> {
                &&& outcome == ExitOutcome::RetrySnapshot
                &&& final(self).state() == HandoffState::FinalSnapshotTaken
                &&& final(self).retry_used()
                &&& !final(self).key_valid()
            },
            stale && old(self).retry_used() ==> {
                &&& outcome == ExitOutcome::Fatal
                &&& final(self).state() == HandoffState::Halted
            },
            final(self).retry_used() == (old(self).retry_used() || stale),
    {
        if !stale {
            self.state = HandoffState::ExitedServices;
            self.key_valid = false;
            ExitOutcome::Completed
        } else if !self.retry_used {
            self.retry_used = true;
            self.key_valid = false;
            ExitOutcome::RetrySnapshot
        } else {
            self.state = HandoffState::Halted;
            self.key_valid = false;
            ExitOutcome::Fatal
        }
    }

    /// Hold the key of the single permitted retry snapshot. Acceptable
    /// only after the first stale report, and only once: afterwards a
    /// fresh key is held again and this state cannot recur.
    pub fn retry_snapshot(&mut self, map_key: u64)
        requires
            old(self).state() == HandoffState::FinalSnapshotTaken,
            old(self).retry_used(),
            !old(self).key_valid(),
        ensures
            final(self).state() == HandoffState::FinalSnapshotTaken,
            final(self).retry_used(),
            final(self).key_valid(),
            final(self).map_key() == map_key,
    {
        self.key_valid = true;
        self.map_key = map_key;
    }

    /// Register the snapshot's own scratch buffer as free memory.
    /// Acceptable only after the exit call has succeeded, when nothing
    /// will read the buffer again: registering it earlier would hand out
    /// a range that is still in use.
    pub fn register_scratch_buffer(
        &self,
        allocator: &mut FrameAllocatorHandle,
        scratch_start: u64,
        scratch_size: u64,
    )
        requires
            self.state() == HandoffState::ExitedServices,
            scratch_start + old(allocator).bias() + scratch_size <= u64::MAX,
        ensures
            final(allocator).bias() == old(allocator).bias(),
            final(allocator).ranges() == old(allocator).ranges().push(
                ((scratch_start + old(allocator).bias()) as u64, scratch_size),
            ),
    {
        allocator.free_range(scratch_start, scratch_size);
    }

    /// Record the non-returning jump into the kernel. Acceptable only
    /// once services are exited; reaching `Transferred` means the
    /// loader's own state is abandoned.
    pub fn transfer(&mut self)
        requires
            old(self).state() == HandoffState::ExitedServices,
        ensures
            final(self).state() == HandoffState::Transferred,
    {
        self.state = HandoffState::Transferred;
    }
}

/// Once the handoff has reached the final-snapshot state, no
/// allocation-performing operation is acceptable: every state from
/// `FinalSnapshotTaken` on refuses allocation. The single permitted
/// retry snapshot is the separate `retry_snapshot` step, which can fire
/// at most once because it demands a spent retry and an invalidated key.
pub proof fn lemma_no_allocation_after_final_snapshot(s: HandoffState)
    requires
        state_rank(s) >= state_rank(HandoffState::FinalSnapshotTaken),
    ensures
        !allocation_allowed(s),
{
}

/// Allocation is acceptable exactly in the states strictly before the
/// final snapshot.
pub proof fn lemma_allocation_window(s: HandoffState)
    ensures
        allocation_allowed(s) <==> state_rank(s) < state_rank(HandoffState::FinalSnapshotTaken),
{
}

} // verus!
