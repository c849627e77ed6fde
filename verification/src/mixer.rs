//! Volume control: a level from 0 (silent) to 100 (full).
use vstd::prelude::*;

verus! {

/// The smaller of `v` and 100.
pub open spec fn clamp_volume(v: u8) -> u8 {
    if v > 100 {
        100
    } else {
        v
    }
}

/// Volume control. The level never exceeds 100.
#[derive(Debug)]
pub struct Mixer {
    volume: u8,
}

impl Mixer {
    #[verifier::type_invariant]
    spec fn level_in_range(self) -> bool {
        self.volume <= 100
    }

    /// The current level.
    pub closed spec fn level(&self) -> u8 {
        self.volume
    }

    /// A mixer at the given initial volume, clamped to 0-100.
    pub fn new(initial_volume: u8) -> (m: Mixer)
        ensures
            m.level() == clamp_volume(initial_volume),
    {
        let v = if initial_volume > 100 {
            100
        } else {
            initial_volume
        };
        Mixer { volume: v }
    }

    /// Sets the volume, clamped to 0-100.
    pub fn set_volume(&mut self, volume: u8)
        ensures
            final(self).level() == clamp_volume(volume),
    {
        let v = if volume > 100 {
            100
        } else {
            volume
        };
        self.volume = v;
    }

    /// The current volume (0-100).
    pub fn get_volume(&self) -> (v: u8)
        ensures
            v == self.level(),
            v <= 100,
    {
        proof {
            use_type_invariant(self);
        }
        self.volume
    }
}

/// A volume that was set reads back as set, clamped to 100.
pub proof fn lemma_volume_roundtrip(v: u8)
    ensures
        clamp_volume(v) <= 100,
        v <= 100 ==> clamp_volume(v) == v,
        clamp_volume(clamp_volume(v)) == clamp_volume(v),
{
}

} // verus!
