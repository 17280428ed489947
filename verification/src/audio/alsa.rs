//! The ALSA sink: which device it opens, and how a buffer of interleaved
//! samples is handed to the device in whole frames.

use vstd::prelude::*;
use crate::config::opt_view;
use super::{effective_name, effective_name_of};

verus! {

/// The device used when none, or a blank one, is configured.
pub open spec fn default_alsa_device() -> Seq<char> {
    "default"@
}

/// The backend whose sessions play through an ALSA device.
#[derive(Clone, Debug)]
pub struct AlsaBackend {
    device: Option<String>,
}

impl AlsaBackend {
    /// The configured device.
    pub closed spec fn device_view(&self) -> Option<Seq<char>> {
        opt_view(self.device)
    }

    /// A backend for `device`.
    pub fn new(device: Option<String>) -> (b: Self)
        ensures
            b.device_view() == opt_view(device),
    {
        Self { device }
    }

    /// The device a session opens: the configured one without surrounding
    /// whitespace, or `default` when it is absent or blank.
    pub fn device_name(&self) -> (d: String)
        ensures
            d@ == effective_name(self.device_view(), default_alsa_device()),
    {
        effective_name_of(&self.device, "default")
    }
}

/// What to do next with a buffer of interleaved samples.
#[derive(Debug, PartialEq, Eq, Structural)]
pub enum WriteStep {
    /// Hand the samples `start..end` to the device.
    Write { start: usize, end: usize },
    /// Stop: nothing is left that makes a whole frame.
    Finish,
}

/// Progress through a buffer of `total` interleaved samples of `channels`
/// channels: `offset` samples have been written.
#[derive(Debug)]
pub struct FrameCursor {
    total: usize,
    channels: usize,
    offset: usize,
}

impl FrameCursor {
    #[verifier::type_invariant]
    spec fn well_formed(&self) -> bool {
        self.offset <= self.total
    }

    /// The number of samples in the buffer.
    pub closed spec fn total_samples(&self) -> nat {
        self.total as nat
    }

    /// The number of interleaved channels.
    pub closed spec fn channel_count(&self) -> nat {
        self.channels as nat
    }

    /// The number of samples written so far.
    pub closed spec fn written(&self) -> nat {
        self.offset as nat
    }

    /// The step that `next_step` takes at this point.
    pub closed spec fn step(&self) -> WriteStep {
        if self.channels == 0 || (self.total - self.offset) / (self.channels as int) == 0 {
            WriteStep::Finish
        } else {
            WriteStep::Write {
                start: self.offset,
                end: (self.offset + ((self.total - self.offset) / (self.channels as int))
                    * self.channels) as usize,
            }
        }
    }

    /// A cursor at the start of a buffer of `total` samples.
    pub fn new(total: usize, channels: usize) -> (c: Self)
        ensures
            c.total_samples() == total,
            c.channel_count() == channels,
            c.written() == 0,
    {
        FrameCursor { total, channels, offset: 0 }
    }

    /// The next step: all the whole frames that are left, or the end when no
    /// whole frame is left (or there are no channels).
    pub fn next_step(&self) -> (s: WriteStep)
        ensures
            s == self.step(),
            s matches WriteStep::Write { start, end } ==> {
                &&& start == self.written()
                &&& start < end <= self.total_samples()
                &&& (end - start) % (self.channel_count() as int) == 0
                &&& self.total_samples() - end < self.channel_count()
            },
            s is Finish ==> self.channel_count() == 0 || self.total_samples() - self.written()
                < self.channel_count(),
    {
        proof {
            use_type_invariant(self);
        }
        if self.channels == 0 {
            return WriteStep::Finish;
        }
        let remaining: usize = self.total - self.offset;
        let frames: usize = remaining / self.channels;
        if frames == 0 {
            assert(remaining < self.channels) by (nonlinear_arith)
                requires
                    frames == remaining / self.channels,
                    frames == 0,
                    self.channels > 0,
            ;
            return WriteStep::Finish;
        }
        assert(frames * self.channels <= remaining) by (nonlinear_arith)
            requires
                frames == remaining / self.channels,
                self.channels > 0,
        ;
        assert(remaining - frames * self.channels < self.channels) by (nonlinear_arith)
            requires
                frames == remaining / self.channels,
                self.channels > 0,
        ;
        assert(frames * self.channels > 0) by (nonlinear_arith)
            requires
                frames > 0,
                self.channels > 0,
        ;
        assert((frames * self.channels) % (self.channels as int) == 0) by (nonlinear_arith)
            requires
                self.channels > 0,
        ;
        let to_write: usize = frames * self.channels;
        WriteStep::Write { start: self.offset, end: self.offset + to_write }
    }

    /// Records that the device took `frames` frames of the last step; gives
    /// whether to go on (a device that takes nothing ends the writing).
    pub fn on_written(&mut self, frames: usize) -> (go_on: bool)
        requires
            frames * old(self).channel_count() <= old(self).total_samples() - old(self).written(),
        ensures
            go_on == (frames > 0),
            final(self).written() == old(self).written() + frames * old(self).channel_count(),
            final(self).total_samples() == old(self).total_samples(),
            final(self).channel_count() == old(self).channel_count(),
    {
        proof {
            use_type_invariant(&*self);
        }
        if frames == 0 {
            return false;
        }
        let advance: usize = frames * self.channels;
        self.offset = self.offset + advance;
        true
    }
}

} // verus!
