//! Errors raised while reading a song or converting it to a tracker format.
use vstd::prelude::*;

verus! {

/// Why a conversion step refused its input.
#[derive(Debug, Clone)]
pub enum ConversionError {
    /// The MOD writer only supports `None`/`Sample` volume scaling.
    InvalidVolumeScalingMode,
    /// The portamento loss threshold must lie in `0..=4`.
    InvalidPortamentoLossThreshold,
    /// A MOD note name (e.g. `"C-2"`) that does not name a period-table entry.
    NoteNameOutOfRange(String),
    /// A triggered note whose period-table index falls outside the allowed range.
    NoteOutOfRange(String),
    /// An absolute note number whose period-table index falls outside the allowed range.
    NoteNumberOutOfRange(i32),
    /// Both the effect column and a volume/panning column ask for a glide.
    GlideConflict,
    /// A period-table index outside the table.
    NoteIndexOutOfTable(i32),
    /// A period-table index with no following entry to interpolate towards.
    NoteIndexWithoutUpperNeighbor(i32),
    /// A glide with no speed and no previous glide speed to reuse.
    TonePortamentoZeroValue,
    /// A pitch slide on a channel where no note was triggered yet.
    NoPreviousNote,
    /// A pitch slide command other than up (`'U'`) or down (`'D'`).
    InvalidPortamentoCommand,
    /// A pitch slide that would not move the period at all.
    PortamentoResultedZero,
    /// A tone portamento speed that rounded down to zero.
    TonePortamentoDiscarded,
    /// An XM pitch slide speed that rounded down to zero.
    PortamentoDiscarded,
    /// An effect cell with no effect number.
    EmptyEffectNumber,
    /// An effect number with a single character.
    TruncatedEffectNumber,
    /// An effect value that is not a hexadecimal number.
    InvalidEffectValue(String),
    /// MOD files need at least four channels.
    TooFewChannels,
    /// An encoded MOD sample longer than the format allows.
    SampleTooLarge { sample_number: usize, max_length: usize, length: usize },
    /// Sample data reported with no channels (1-based instrument and sample numbers).
    SampleWithoutChannels { instrument: usize, sample: usize },
    /// A sample-offset command whose offset into the sample it plays leaves `i32` arithmetic
    /// for the length the sample came to.
    SampleOffsetOverflow,
    /// A sample loop point that does not fit the XM sample header at the bit depth and channel
    /// count the sample came to (1-based instrument and sample numbers).
    SampleLoopOverflow { instrument: usize, sample: usize },
    /// The pattern order table names a pattern the song does not have.
    MissingPattern(usize),
    /// A column volume scaling that would exceed the nominal volume.
    VolumeScalingFailed(i32),
    /// A sample rate choice that is no word, rate or note name.
    InvalidSampleRate(String),
    /// The pattern that finds embedded sample files does not compile.
    InvalidSampleLookupPattern,
    /// An embedded sample stored in AAC, which cannot be decoded.
    UnsupportedAac(String),
    /// Any other conversion failure, described in words.
    Other(String),
}

/// Errors of the whole library.
#[derive(Debug, Clone)]
pub enum Error {
    /// Reading the `.xrns` file failed.
    Io(String),
    /// The `.xrns` file is not a readable zip archive.
    Zip(String),
    /// The archive holds no `Song.xml`.
    MissingSongXml,
    /// `Song.xml` is not well-formed XML.
    Xml(String),
    /// `Song.xml` lacks something the converter needs.
    MalformedSong(String),
    /// A conversion step refused its input.
    Conversion(ConversionError),
}

} // verus!
