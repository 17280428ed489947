//! The sink that discards audio and only counts the samples it was given.

use vstd::prelude::*;

verus! {

/// The backend whose sessions discard audio.
#[derive(Clone, Copy, Debug)]
pub struct NullBackend;

/// A session of the null backend: the number of samples received since the
/// last flush.
#[derive(Debug)]
pub struct NullSession {
    pub sample_count: usize,
}

impl NullSession {
    /// A session that has received nothing.
    pub fn new() -> (s: Self)
        ensures
            s.sample_count == 0,
    {
        NullSession { sample_count: 0 }
    }

    /// Counts `n` more samples.
    pub fn audio_process(&mut self, n: usize)
        requires
            old(self).sample_count + n <= usize::MAX,
        ensures
            final(self).sample_count == old(self).sample_count + n,
    {
        self.sample_count = self.sample_count + n;
    }

    /// Starts counting again from zero.
    pub fn audio_flush(&mut self)
        ensures
            final(self).sample_count == 0,
    {
        self.sample_count = 0;
    }
}

} // verus!
