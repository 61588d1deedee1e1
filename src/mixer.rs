//! Software volume control: a shared, lock-free volume level and the filter
//! that reads it for every block of samples.

use std::sync::atomic::{AtomicUsize, Ordering};
use std::sync::Arc;

use vstd::prelude::*;

verus! {

/// The volume level at which samples pass through unchanged.
pub const MAX_VOLUME: u16 = 0xFFFF;

/// The gain the filter applies at `level`: `None` leaves samples untouched,
/// `Some(l)` scales every sample by `l / MAX_VOLUME`.
pub open spec fn gain_spec(level: u16) -> Option<u16> {
    if level == MAX_VOLUME {
        None
    } else {
        Some(level)
    }
}

/// Decides how the filter treats samples at volume `level`.
pub fn gain_for(level: u16) -> (r: Option<u16>)
    ensures
        r == gain_spec(level),
{
    if level != MAX_VOLUME {
        Some(level)
    } else {
        None
    }
}

/// At full volume the filter is the identity; at volume zero every sample is
/// scaled by a factor of zero.
pub proof fn lemma_volume_extremes()
    ensures
        gain_spec(MAX_VOLUME) is None,
        gain_spec(0) == Some(0u16),
{
}

/// The mixer: owns the shared volume cell.
pub struct SoftMixer {
    volume: Arc<AtomicUsize>,
}

/// The stream filter: shares the mixer's volume cell and reads it once per
/// block of samples.
pub struct SoftVolumeApplier {
    volume: Arc<AtomicUsize>,
}

impl SoftMixer {
    /// A mixer at full volume.
    pub fn open() -> (r: SoftMixer) {
        SoftMixer { volume: Arc::new(AtomicUsize::new(MAX_VOLUME as usize)) }
    }

    /// The level last stored, by this or any other handle of the cell.
    pub fn volume(&self) -> (r: u16) {
        self.volume.load(Ordering::Relaxed) as u16
    }

    pub fn set_volume(&self, volume: u16) {
        self.volume.store(volume as usize, Ordering::Relaxed);
    }

    /// A filter that follows this mixer's volume.
    pub fn get_audio_filter(&self) -> (r: SoftVolumeApplier) {
        SoftVolumeApplier { volume: self.volume.clone() }
    }
}

impl SoftVolumeApplier {
    /// The gain for the next block of samples, taken from the current level.
    pub fn gain(&self) -> (r: Option<u16>)
        ensures
            r matches Some(l) ==> l < MAX_VOLUME,
    {
        let level = self.volume.load(Ordering::Relaxed) as u16;
        gain_for(level)
    }
}

} // verus!
