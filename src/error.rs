//! Why a conversion was refused.
use vstd::prelude::*;

verus! {

/// A parameter that some input cannot do without.
#[derive(Debug, Clone, Copy, PartialEq, Eq, Structural)]
pub enum Field {
    SamplingFrequency,
    ChannelCount,
}

/// A marker that the parsers look for.
#[derive(Debug, Clone, Copy, PartialEq, Eq, Structural)]
pub enum Chunk {
    /// `data` in a DSF file.
    Data,
    /// `FS  ` in a DSDIFF file.
    SampleRate,
    /// `CHNL` in a DSDIFF file.
    Channels,
    /// The second `DSD ` in a DSDIFF file, where the audio starts.
    Sound,
}

#[derive(Debug, Clone, Copy, PartialEq, Eq, Structural)]
pub enum ConvertError {
    /// The parameters could not be read into their expected shape.
    InvalidConfiguration,
    MissingRequiredField(Field),
    /// The input is a RIFF (WAV) file.
    UnsupportedFormat,
    FileTooSmall,
    SizeNotDivisible { total: usize, divisor: usize },
    MissingChunk(Chunk),
    ChunkCorrupt(Chunk),
    DataPositionOutOfRange,
}

} // verus!
