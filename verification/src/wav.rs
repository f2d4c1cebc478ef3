//! Classification of WAV impulse-response files: a minimal header sniff that
//! reads the sample rate, and a 64-bit content checksum used as the file's
//! identity.
//!
//! A file is `Damaged` when it cannot be read, is shorter than the minimal
//! header, or fails the RIFF/WAVE magic check; the checksum `0` is reserved as
//! the sentinel for exactly those files.

use std::rc::Rc;
use vstd::prelude::*;
use crate::descriptions::{rc_clone_metadata, HRTFMetadata};

verus! {

/// Detected sample rate of a WAV file.
#[derive(Debug, Clone, Copy, PartialEq, Eq, Structural)]
pub enum WaveSampleRate {
    F48000,
    F44100,
    F96000,
    /// Readable and well-formed, but with a sample rate other than the three
    /// named ones.
    Unknown,
    /// Unreadable, shorter than the minimal header, or failing the magic
    /// check.
    Damaged,
}

/// The checksum value reserved for damaged or unreadable files.
pub const DAMAGED_CHECKSUM: u64 = 0;

/// The 64-bit content digest of a byte sequence, as computed by the xxh3
/// algorithm. The digest is a function of the bytes alone.
pub uninterp spec fn xxh3_of(data: Seq<u8>) -> u64;

/// Relies on xxhash_rust::xxh3::xxh3_64: a 64-bit digest computed from the
/// input bytes alone.
#[verifier::external_body]
fn xxh3_checksum(data: &[u8]) -> (r: u64)
    ensures
        r == xxh3_of(data@),
{
    xxhash_rust::xxh3::xxh3_64(data)
}

/// The little-endian 32-bit value stored in the four bytes `b0..b3`.
pub open spec fn spec_le32(b0: u8, b1: u8, b2: u8, b3: u8) -> int {
    b0 + 256 * b1 + 65536 * b2 + 16777216 * b3
}

/// Whether the bytes form a minimally well-formed WAV file: at least 28 bytes,
/// `"RIFF"` at offset 0 and `"WAVE"` at offset 8.
pub open spec fn wav_header_ok(data: Seq<u8>) -> bool {
    &&& data.len() >= 28
    &&& data[0] == 0x52u8  // 'R'
    &&& data[1] == 0x49u8  // 'I'
    &&& data[2] == 0x46u8  // 'F'
    &&& data[3] == 0x46u8  // 'F'
    &&& data[8] == 0x57u8  // 'W'
    &&& data[9] == 0x41u8  // 'A'
    &&& data[10] == 0x56u8  // 'V'
    &&& data[11] == 0x45u8  // 'E'
}

/// The sample rate stored little-endian at byte offset 24.
pub open spec fn spec_sample_rate(data: Seq<u8>) -> int
    recommends
        data.len() >= 28,
{
    spec_le32(data[24], data[25], data[26], data[27])
}

/// The class a raw sample-rate value falls into.
pub open spec fn spec_rate_class(rate: int) -> WaveSampleRate {
    if rate == 44100 {
        WaveSampleRate::F44100
    } else if rate == 48000 {
        WaveSampleRate::F48000
    } else if rate == 96000 {
        WaveSampleRate::F96000
    } else {
        WaveSampleRate::Unknown
    }
}

/// What `classify_bytes` returns: the damaged sentinel pair for a malformed
/// header, otherwise the rate class and the content digest.
pub open spec fn spec_classify(data: Seq<u8>) -> (WaveSampleRate, u64) {
    if wav_header_ok(data) {
        (spec_rate_class(spec_sample_rate(data)), xxh3_of(data))
    } else {
        (WaveSampleRate::Damaged, DAMAGED_CHECKSUM)
    }
}

/// Classifies the full content of a WAV file: checks the minimal header,
/// reads the sample rate at offset 24, and computes the content checksum.
pub fn classify_bytes(data: &[u8]) -> (r: (WaveSampleRate, u64))
    ensures
        r == spec_classify(data@),
        !wav_header_ok(data@) ==> r == (WaveSampleRate::Damaged, DAMAGED_CHECKSUM),
{
    if data.len() < 28 {
        return (WaveSampleRate::Damaged, DAMAGED_CHECKSUM);
    }
    if !(data[0] == 0x52 && data[1] == 0x49 && data[2] == 0x46 && data[3] == 0x46) {
        return (WaveSampleRate::Damaged, DAMAGED_CHECKSUM);
    }
    if !(data[8] == 0x57 && data[9] == 0x41 && data[10] == 0x56 && data[11] == 0x45) {
        return (WaveSampleRate::Damaged, DAMAGED_CHECKSUM);
    }
    let rate: u32 = (data[24] as u32) + 256 * (data[25] as u32) + 65536 * (data[26] as u32)
        + 16777216 * (data[27] as u32);
    let class = if rate == 44100 {
        WaveSampleRate::F44100
    } else if rate == 48000 {
        WaveSampleRate::F48000
    } else if rate == 96000 {
        WaveSampleRate::F96000
    } else {
        WaveSampleRate::Unknown
    };
    let checksum = xxh3_checksum(data);
    (class, checksum)
}

/// Everything recorded about one discovered WAV file.
#[derive(Debug)]
pub struct WaveFileData {
    /// Absolute filesystem location, owned by the record.
    pub path: String,
    /// Location relative to the scan root, used for display and search.
    pub relative_path: String,
    /// The class read from the header, or `Damaged`.
    pub sample_rate: WaveSampleRate,
    /// Shared descriptive metadata looked up by file stem, when known.
    pub metadata: Option<Rc<HRTFMetadata>>,
    /// Content checksum; `0` exactly for damaged files.
    pub checksum: u64,
}

impl Clone for WaveFileData {
    fn clone(&self) -> (r: Self)
        ensures
            r == *self,
    {
        WaveFileData {
            path: self.path.clone(),
            relative_path: self.relative_path.clone(),
            sample_rate: self.sample_rate,
            metadata: match &self.metadata {
                Some(rc) => Some(rc_clone_metadata(rc)),
                None => None,
            },
            checksum: self.checksum,
        }
    }
}

/// Classifies the outcome of reading a WAV file: a failed read is damaged,
/// otherwise the bytes are classified as `classify_bytes` does.
pub fn classify_read(data: &Option<Vec<u8>>) -> (r: (WaveSampleRate, u64))
    ensures
        match data {
            Some(bytes) => r == spec_classify(bytes@),
            None => r == (WaveSampleRate::Damaged, DAMAGED_CHECKSUM),
        },
{
    match data {
        Some(bytes) => classify_bytes(bytes.as_slice()),
        None => (WaveSampleRate::Damaged, DAMAGED_CHECKSUM),
    }
}

} // verus!
