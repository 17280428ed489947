//! The sink that appends raw PCM to a file or named pipe.

use vstd::prelude::*;
use crate::config::{OutputSampleFormat, opt_view};
use super::{effective_name, effective_name_of};

verus! {

/// The path used when none, or a blank one, is configured.
pub open spec fn default_pipe_path() -> Seq<char> {
    "/tmp/shairport-sync-rs.pcm"@
}

/// The backend whose sessions append PCM to a file.
#[derive(Clone, Debug)]
pub struct PipeBackend {
    path: Option<String>,
    output_format: OutputSampleFormat,
}

impl PipeBackend {
    /// The configured path.
    pub closed spec fn path_view(&self) -> Option<Seq<char>> {
        opt_view(self.path)
    }

    /// The sample format written.
    pub closed spec fn format(&self) -> OutputSampleFormat {
        self.output_format
    }

    /// A backend writing `output_format` samples to `path`.
    pub fn new(path: Option<String>, output_format: OutputSampleFormat) -> (b: Self)
        ensures
            b.path_view() == opt_view(path),
            b.format() == output_format,
    {
        PipeBackend { path, output_format }
    }

    /// The sample format written.
    pub fn output_format(&self) -> (f: OutputSampleFormat)
        ensures
            f == self.format(),
    {
        self.output_format
    }

    /// The path that a session opens: the configured one without
    /// surrounding whitespace, or the default when it is absent or blank.
    pub fn output_path(&self) -> (p: String)
        ensures
            p@ == effective_name(self.path_view(), default_pipe_path()),
    {
        effective_name_of(&self.path, "/tmp/shairport-sync-rs.pcm")
    }
}

} // verus!
