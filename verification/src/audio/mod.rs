//! Audio sinks: which sink a stream goes to, the names and paths the sinks
//! open, how PCM is packed into bytes, and how a buffer is handed to ALSA in
//! whole frames. Opening devices and writing bytes are the application's part.

pub mod alsa;
pub mod null;
pub mod pcm;
pub mod pipe;
pub mod stdout;

use vstd::prelude::*;
use crate::config::{AppConfig, AudioBackend, OutputSampleFormat, opt_view};
use crate::text::{is_blank, is_white_space, lemma_trim_whitespace_cuts_only_ends, trim, trim_whitespace};
use self::alsa::AlsaBackend;
use self::null::NullBackend;
use self::pipe::PipeBackend;
use self::stdout::StdoutBackend;

verus! {

/// A configured name with surrounding whitespace removed, or `fallback` when
/// it is absent or blank.
pub open spec fn effective_name(given: Option<Seq<char>>, fallback: Seq<char>) -> Seq<char> {
    match given {
        Some(s) => if trim(s).len() > 0 {
            trim(s)
        } else {
            fallback
        },
        None => fallback,
    }
}

/// A configured device or path that is not blank is used as it is given,
/// with only the whitespace at its two ends cut off: the result is a piece
/// `s[a..b]` of it, everything outside that piece is whitespace, and the piece
/// starts and ends with a character that is not. An absent or blank one gives
/// the fallback.
pub proof fn lemma_effective_name_keeps_given(s: Seq<char>, fallback: Seq<char>) -> (bounds: (
    int,
    int,
))
    ensures
        !is_blank(s) ==> {
            let r = effective_name(Some(s), fallback);
            &&& 0 <= bounds.0 < bounds.1 <= s.len()
            &&& r == s.subrange(bounds.0, bounds.1)
            &&& forall|i: int| 0 <= i < bounds.0 ==> is_white_space(#[trigger] s[i])
            &&& forall|i: int| bounds.1 <= i < s.len() ==> is_white_space(#[trigger] s[i])
            &&& !is_white_space(r[0])
            &&& !is_white_space(r.last())
        },
        is_blank(s) ==> effective_name(Some(s), fallback) == fallback,
        effective_name(None, fallback) == fallback,
{
    lemma_trim_whitespace_cuts_only_ends(s)
}

/// `effective_name` of an optional text, with `fallback` as a literal.
pub fn effective_name_of(given: &Option<String>, fallback: &str) -> (r: String)
    ensures
        r@ == effective_name(opt_view(*given), fallback@),
{
    match given {
        Some(s) => {
            let t = trim_whitespace(s.as_str());
            if t.as_str().is_empty() {
                String::from_str(fallback)
            } else {
                t
            }
        },
        None => String::from_str(fallback),
    }
}

/// The output settings the audio handler keeps from the configuration.
#[derive(Clone, Debug)]
pub struct AudioOutput {
    pub backend: AudioBackend,
    pub output_format: OutputSampleFormat,
    pub alsa_device: Option<String>,
    pub pipe_path: Option<String>,
}

/// The sink that a new audio stream is given.
pub enum SinkChoice {
    Null(NullBackend),
    Stdout(StdoutBackend),
    Pipe(PipeBackend),
    Alsa(AlsaBackend),
}

impl AudioOutput {
    /// The output settings of `cfg`.
    pub fn from_config(cfg: &AppConfig) -> (o: Self)
        ensures
            o.backend == cfg.backend,
            o.output_format == cfg.output_format,
            o.alsa_device == cfg.alsa_device,
            o.pipe_path == cfg.pipe_path,
    {
        AudioOutput {
            backend: cfg.backend,
            output_format: cfg.output_format,
            alsa_device: cfg.alsa_device.clone(),
            pipe_path: cfg.pipe_path.clone(),
        }
    }

    /// The sink for the configured backend, set up with the settings that
    /// backend uses.
    pub fn choose_sink(&self) -> (s: SinkChoice)
        ensures
            match self.backend {
                AudioBackend::Null => s is Null,
                AudioBackend::Stdout => s matches SinkChoice::Stdout(b) && b.format()
                    == self.output_format,
                AudioBackend::Pipe => s matches SinkChoice::Pipe(b) && b.format()
                    == self.output_format && b.path_view() == opt_view(self.pipe_path),
                AudioBackend::Alsa => s matches SinkChoice::Alsa(b) && b.device_view() == opt_view(
                    self.alsa_device,
                ),
            },
    {
        match self.backend {
            AudioBackend::Null => SinkChoice::Null(NullBackend),
            AudioBackend::Stdout => SinkChoice::Stdout(StdoutBackend::new(self.output_format)),
            AudioBackend::Pipe => SinkChoice::Pipe(
                PipeBackend::new(self.pipe_path.clone(), self.output_format),
            ),
            AudioBackend::Alsa => SinkChoice::Alsa(AlsaBackend::new(self.alsa_device.clone())),
        }
    }
}

} // verus!
