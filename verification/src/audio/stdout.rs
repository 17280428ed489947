//! The sink that writes raw PCM to standard output.

use vstd::prelude::*;
use crate::config::OutputSampleFormat;

verus! {

/// The backend whose sessions write PCM to standard output.
#[derive(Clone, Copy, Debug)]
pub struct StdoutBackend {
    output_format: OutputSampleFormat,
}

impl StdoutBackend {
    /// The sample format written.
    pub closed spec fn format(&self) -> OutputSampleFormat {
        self.output_format
    }

    /// A backend that writes samples in `output_format`.
    pub fn new(output_format: OutputSampleFormat) -> (b: Self)
        ensures
            b.format() == output_format,
    {
        StdoutBackend { output_format }
    }

    /// The sample format written.
    pub fn output_format(&self) -> (f: OutputSampleFormat)
        ensures
            f == self.format(),
    {
        self.output_format
    }
}

} // verus!
