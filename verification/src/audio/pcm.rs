//! Packing of PCM samples into little-endian bytes. Each sample arrives as a
//! 32-bit word already in the output encoding (the bit pattern of an f32, or
//! a two's-complement integer); quantizing floats is the application's part.

use vstd::prelude::*;
use crate::config::OutputSampleFormat;

verus! {

/// The bytes per sample of each output format.
pub open spec fn sample_width(f: OutputSampleFormat) -> nat {
    match f {
        OutputSampleFormat::F32Le => 4,
        OutputSampleFormat::S16Le => 2,
        OutputSampleFormat::S24Le => 3,
    }
}

/// The lowest `width` bytes of `w`, least significant first.
pub open spec fn le_bytes(w: u32, width: nat) -> Seq<u8> {
    seq![
        (w & 0xff) as u8,
        ((w >> 8) & 0xff) as u8,
        ((w >> 16) & 0xff) as u8,
        ((w >> 24) & 0xff) as u8,
    ].take(width as int)
}

/// The words one after another, each as `le_bytes` of `width`.
pub open spec fn encode_words(ws: Seq<u32>, width: nat) -> Seq<u8>
    decreases ws.len(),
{
    if ws.len() == 0 {
        seq![]
    } else {
        encode_words(ws.drop_last(), width) + le_bytes(ws.last(), width)
    }
}

/// The word of a 16-bit sample: its two's complement in the low 16 bits.
pub fn s16_word(v: i16) -> (w: u32)
    ensures
        w == (v as u16) as u32,
{
    (v as u16) as u32
}

/// The word of a 24-bit sample held in an `i32`: its two's complement, of
/// which the low 24 bits are written.
pub fn s24_word(v: i32) -> (w: u32)
    ensures
        w == v as u32,
{
    v as u32
}

/// The bytes per sample of `format`.
pub fn sample_width_of(format: OutputSampleFormat) -> (n: usize)
    ensures
        n == sample_width(format),
{
    match format {
        OutputSampleFormat::F32Le => 4,
        OutputSampleFormat::S16Le => 2,
        OutputSampleFormat::S24Le => 3,
    }
}

fn push_word_le(out: &mut Vec<u8>, w: u32, width: usize)
    requires
        1 <= width <= 4,
    ensures
        final(out)@ == old(out)@ + le_bytes(w, width as nat),
{
    out.push((w & 0xff) as u8);
    if width >= 2 {
        out.push(((w >> 8) & 0xff) as u8);
    }
    if width >= 3 {
        out.push(((w >> 16) & 0xff) as u8);
    }
    if width >= 4 {
        out.push(((w >> 24) & 0xff) as u8);
    }
    assert(out@ =~= old(out)@ + le_bytes(w, width as nat));
}

/// The bytes written for `words` in `format`.
pub fn encode_samples(format: OutputSampleFormat, words: &[u32]) -> (bytes: Vec<u8>)
    ensures
        bytes@ == encode_words(words@, sample_width(format)),
        bytes@.len() == words@.len() * sample_width(format),
{
    let width: usize = sample_width_of(format);
    let mut out: Vec<u8> = Vec::new();
    for i in 0..words.len()
        invariant
            width == sample_width(format),
            out@ == encode_words(words@.take(i as int), width as nat),
            out@.len() == i * width,
    {
        assert(words@.take(i + 1).drop_last() =~= words@.take(i as int));
        push_word_le(&mut out, words[i], width);
        assert(out@.len() == (i + 1) * width) by (nonlinear_arith)
            requires
                out@.len() == i * width + width,
        ;
    }
    assert(words@.take(words.len() as int) =~= words@);
    out
}

} // verus!
