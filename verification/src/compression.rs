//! Dictionary-based zstd compression for structured project data, the
//! dictionary file format, and dictionary training.
//!
//! A dictionary file is the magic "ODIC", one version byte (1), and the
//! raw dictionary; a file without the magic is read as a raw dictionary.

use std::io::Read;
use std::io::Write;
use vstd::prelude::*;
use crate::text::{decimal, push_decimal};
use crate::project::{zstd_encode_all, zstd_encoded};

verus! {

/// Default compression level for dictionary compression.
pub const DEFAULT_COMPRESSION_LEVEL: i32 = 3;

/// Default dictionary size in bytes (64KB).
pub const DEFAULT_DICTIONARY_SIZE: usize = 65536;

/// Minimum number of samples required for effective training.
pub const MIN_TRAINING_SAMPLES: usize = 5;

/// Minimum total sample size for training (100KB).
pub const MIN_TRAINING_SIZE: usize = 102400;

/// Dictionary file version.
pub const DICTIONARY_VERSION: u8 = 1;

/// The magic bytes of a dictionary file, "ODIC".
pub open spec fn dictionary_magic() -> Seq<u8> {
    seq![0x4Fu8, 0x44u8, 0x49u8, 0x43u8]
}

/// What zstd's streaming encoder with a dictionary produces for `data` at
/// `level` (`None` where it reports an error).
pub uninterp spec fn dict_compressed(data: Seq<u8>, level: i32, dict: Seq<u8>) -> Option<Seq<u8>>;

/// What zstd's streaming decoder with a dictionary produces for
/// `compressed` (`None` where it reports an error).
pub uninterp spec fn dict_decompressed(compressed: Seq<u8>, dict: Seq<u8>) -> Option<Seq<u8>>;

/// Compresses with a dictionary.
///
/// Creates `zstd::stream::Encoder::with_dictionary` over a new vector,
/// writes all of `data` and calls `finish`. The output (or the failure)
/// is named `dict_compressed`; the error text is that of the `io::Error`.
#[verifier::external_body]
fn zstd_dict_compress(data: &[u8], level: i32, dict: &[u8]) -> (r: Result<Vec<u8>, String>)
    ensures
        match r {
            Ok(v) => dict_compressed(data@, level, dict@) == Some(v@),
            Err(_) => dict_compressed(data@, level, dict@) is None,
        },
{
    let mut encoder = zstd::stream::Encoder::with_dictionary(Vec::new(), level, dict)
        .map_err(|e| e.to_string())?;
    encoder.write_all(data).map_err(|e| e.to_string())?;
    encoder.finish().map_err(|e| e.to_string())
}

/// Decompresses with a dictionary.
///
/// Creates `zstd::stream::Decoder::with_dictionary` over `compressed` and
/// reads it to the end. The output (or the failure) is named
/// `dict_decompressed`; zstd is lossless, so a frame that the encoder made
/// from some data with the same dictionary decodes to that data.
#[verifier::external_body]
fn zstd_dict_decompress(compressed: &[u8], dict: &[u8]) -> (r: Result<Vec<u8>, String>)
    ensures
        match r {
            Ok(v) => dict_decompressed(compressed@, dict@) == Some(v@),
            Err(_) => dict_decompressed(compressed@, dict@) is None,
        },
        forall|x: Seq<u8>, level: i32|
            dict_compressed(x, level, dict@) == Some(compressed@) ==> (r is Ok && r->Ok_0@ == x),
{
    let mut decoder = zstd::stream::Decoder::with_dictionary(compressed, dict)
        .map_err(|e| e.to_string())?;
    let mut out = Vec::new();
    decoder.read_to_end(&mut out).map_err(|e| e.to_string())?;
    Ok(out)
}

/// Whether `dict` is a dictionary that zstd's trainer produced from
/// `samples` when asked for one of at most `max_size` bytes.
pub uninterp spec fn trained_from(dict: Seq<u8>, samples: Seq<Seq<u8>>, max_size: usize) -> bool;

/// The bytes of each sample.
pub open spec fn sample_bytes(samples: Seq<Vec<u8>>) -> Seq<Seq<u8>> {
    samples.map_values(|v: Vec<u8>| v@)
}

/// Trains a dictionary of at most about `max_size` bytes.
///
/// Calls `zstd::dict::from_samples`. The dictionary's content depends on
/// the capacity that the allocator gives its buffer, so it is not named;
/// what is stated is only that a dictionary returned came from training
/// on these samples for this size (`trained_from`). Whether training
/// fails is not stated.
#[verifier::external_body]
fn zstd_train(samples: &Vec<Vec<u8>>, max_size: usize) -> (r: Result<Vec<u8>, String>)
    ensures
        r matches Ok(d) ==> trained_from(d@, sample_bytes(samples@), max_size),
{
    zstd::dict::from_samples(samples, max_size).map_err(|e| e.to_string())
}

/// Errors related to dictionary compression.
#[derive(Debug, Clone)]
pub enum CompressionError {
    /// IO error
    Io(String),
    /// Training error
    Training(String),
    /// Compression error
    Compress(String),
    /// Decompression error
    Decompress(String),
    /// Invalid dictionary
    InvalidDictionary(String),
    /// Not enough training samples
    InsufficientSamples { have: usize, need: usize },
}

/// The message of a compression error.
pub open spec fn compression_message(e: CompressionError) -> Seq<char> {
    match e {
        CompressionError::Io(s) => "IO error: "@ + s@,
        CompressionError::Training(s) => "Training error: "@ + s@,
        CompressionError::Compress(s) => "Compression error: "@ + s@,
        CompressionError::Decompress(s) => "Decompression error: "@ + s@,
        CompressionError::InvalidDictionary(s) => "Invalid dictionary: "@ + s@,
        CompressionError::InsufficientSamples { have, need } => "Insufficient training samples: have "@
            + decimal(have as nat) + " samples, need at least "@ + decimal(need as nat),
    }
}

impl CompressionError {
    /// The error's message.
    pub fn message(&self) -> (s: String)
        ensures
            s@ == compression_message(*self),
    {
        match self {
            CompressionError::Io(e) => String::from_str("IO error: ").concat(e.as_str()),
            CompressionError::Training(e) => String::from_str("Training error: ").concat(e.as_str()),
            CompressionError::Compress(e) => String::from_str("Compression error: ").concat(
                e.as_str(),
            ),
            CompressionError::Decompress(e) => String::from_str("Decompression error: ").concat(
                e.as_str(),
            ),
            CompressionError::InvalidDictionary(e) => String::from_str("Invalid dictionary: ").concat(
                e.as_str(),
            ),
            CompressionError::InsufficientSamples { have, need } => {
                let mut s = String::from_str("Insufficient training samples: have ");
                push_decimal(&mut s, *have as u64);
                s.append(" samples, need at least ");
                push_decimal(&mut s, *need as u64);
                s
            },
        }
    }
}

/// A level clamped to zstd's range 1..=22.
pub open spec fn clamp_level(level: i32) -> i32 {
    if level < 1 {
        1
    } else if level > 22 {
        22
    } else {
        level
    }
}

/// A level clamped to zstd's range 1..=22.
pub fn clamp_compression_level(level: i32) -> (r: i32)
    ensures
        r == clamp_level(level),
{
    if level < 1 {
        1
    } else if level > 22 {
        22
    } else {
        level
    }
}

/// What a dictionary is: its raw bytes and the level it compresses at.
pub struct DictionaryView {
    pub bytes: Seq<u8>,
    pub level: i32,
}

/// A trained compression dictionary with the level it compresses at; each
/// constructor keeps the level within 1..=22.
#[derive(Debug, Clone)]
pub struct CompressionDictionary {
    /// Raw dictionary bytes
    dict_data: Vec<u8>,
    /// Compression level to use
    compression_level: i32,
}

impl View for CompressionDictionary {
    type V = DictionaryView;

    closed spec fn view(&self) -> DictionaryView {
        DictionaryView { bytes: self.dict_data@, level: self.compression_level }
    }
}

impl CompressionDictionary {
    /// The level this dictionary compresses at.
    pub fn compression_level(&self) -> (l: i32)
        ensures
            l == self@.level,
    {
        self.compression_level
    }

    /// Create a dictionary from raw dictionary data (level 3).
    pub fn from_bytes(dict_data: Vec<u8>) -> (d: CompressionDictionary)
        ensures
            d@.bytes == dict_data@,
            d@.level == DEFAULT_COMPRESSION_LEVEL,
    {
        CompressionDictionary { dict_data, compression_level: DEFAULT_COMPRESSION_LEVEL }
    }

    /// Create a dictionary from raw bytes with a compression level
    /// (clamped to 1..=22).
    pub fn from_bytes_with_level(dict_data: Vec<u8>, compression_level: i32) -> (d:
        CompressionDictionary)
        ensures
            d@.bytes == dict_data@,
            d@.level == clamp_level(compression_level),
    {
        CompressionDictionary {
            dict_data,
            compression_level: clamp_compression_level(compression_level),
        }
    }

    /// Read a dictionary file's bytes: with the "ODIC" header and a known
    /// version the raw dictionary follows it; without the header the whole
    /// file is the dictionary.
    pub fn from_file_bytes(data: Vec<u8>) -> (r: Result<CompressionDictionary, CompressionError>)
        ensures
            data@.len() < 5 ==> r is Err && r->Err_0 is InvalidDictionary
                && r->Err_0->InvalidDictionary_0@ == "File too small"@,
            data@.len() >= 5 && data@.subrange(0, 4) != dictionary_magic() ==> r is Ok
                && r->Ok_0@.bytes == data@ && r->Ok_0@.level == DEFAULT_COMPRESSION_LEVEL,
            data@.len() >= 5 && data@.subrange(0, 4) == dictionary_magic() && data@[4] > DICTIONARY_VERSION
                ==> r is Err && r->Err_0 is InvalidDictionary
                && r->Err_0->InvalidDictionary_0@ == "Unsupported dictionary version: "@ + decimal(
                data@[4] as nat) + " (max: 1)"@,
            data@.len() >= 5 && data@.subrange(0, 4) == dictionary_magic() && data@[4]
                <= DICTIONARY_VERSION ==> r is Ok && r->Ok_0@.bytes == data@.subrange(
                5,
                data@.len() as int,
            ) && r->Ok_0@.level == DEFAULT_COMPRESSION_LEVEL,
    {
        if data.len() < 5 {
            return Err(CompressionError::InvalidDictionary(String::from_str("File too small")));
        }
        proof {
            reveal_strlit("ODIC");
        }
        if !(data[0] == 0x4F && data[1] == 0x44 && data[2] == 0x49 && data[3] == 0x43) {
            proof {
                assert(data@.subrange(0, 4) != dictionary_magic()) by {
                    if data@.subrange(0, 4) == dictionary_magic() {
                        assert(data@.subrange(0, 4)[0] == data@[0]);
                        assert(data@.subrange(0, 4)[1] == data@[1]);
                        assert(data@.subrange(0, 4)[2] == data@[2]);
                        assert(data@.subrange(0, 4)[3] == data@[3]);
                    }
                }
            }
            return Ok(CompressionDictionary::from_bytes(data));
        }
        proof {
            assert(data@.subrange(0, 4) =~= dictionary_magic());
        }
        let version = data[4];
        if version > DICTIONARY_VERSION {
            let mut msg = String::from_str("Unsupported dictionary version: ");
            push_decimal(&mut msg, version as u64);
            msg.append(" (max: 1)");
            return Err(CompressionError::InvalidDictionary(msg));
        }
        let mut raw: Vec<u8> = Vec::new();
        let mut i: usize = 5;
        while i < data.len()
            invariant
                5 <= i <= data@.len(),
                raw@ == data@.subrange(5, i as int),
            decreases data@.len() - i,
        {
            raw.push(data[i]);
            proof {
                assert(data@.subrange(5, i + 1) =~= data@.subrange(5, i as int).push(data@[i as int]));
            }
            i = i + 1;
        }
        Ok(CompressionDictionary::from_bytes(raw))
    }

    /// The bytes of this dictionary's file: "ODIC", the version, the raw
    /// dictionary.
    pub fn to_file_bytes(&self) -> (r: Vec<u8>)
        ensures
            r@ == dictionary_magic() + seq![DICTIONARY_VERSION] + self@.bytes,
    {
        let mut out: Vec<u8> = vec![0x4F, 0x44, 0x49, 0x43, DICTIONARY_VERSION];
        let ghost head = out@;
        let mut i: usize = 0;
        while i < self.dict_data.len()
            invariant
                i <= self@.bytes.len(),
                head == dictionary_magic() + seq![DICTIONARY_VERSION],
                out@ == head + self@.bytes.subrange(0, i as int),
            decreases self@.bytes.len() - i,
        {
            out.push(self.dict_data[i]);
            proof {
                assert(head + self@.bytes.subrange(0, i + 1) =~= (head + self@.bytes.subrange(0, i as int)).push(self@.bytes[i as int]));
            }
            i = i + 1;
        }
        proof {
            assert(self@.bytes.subrange(0, self@.bytes.len() as int) =~= self@.bytes);
        }
        out
    }

    /// Get the dictionary size in bytes.
    pub fn size(&self) -> (n: usize)
        ensures
            n == self@.bytes.len(),
    {
        self.dict_data.len()
    }

    /// Get the raw dictionary bytes.
    pub fn as_bytes(&self) -> (b: &[u8])
        ensures
            b@ == self@.bytes,
    {
        self.dict_data.as_slice()
    }

    /// Set the compression level (clamped to 1..=22).
    pub fn with_compression_level(self, level: i32) -> (d: CompressionDictionary)
        ensures
            d@.bytes == self@.bytes,
            d@.level == clamp_level(level),
    {
        CompressionDictionary { dict_data: self.dict_data, compression_level: clamp_compression_level(level) }
    }

    /// Compress data using this dictionary at its level.
    pub fn compress(&self, data: &[u8]) -> (r: Result<Vec<u8>, CompressionError>)
        ensures
            match r {
                Ok(v) => dict_compressed(data@, self@.level, self@.bytes) == Some(v@),
                Err(e) => e is Compress && dict_compressed(
                    data@,
                    self@.level,
                    self@.bytes,
                ) is None,
            },
    {
        self.compress_with_level(data, self.compression_level)
    }

    /// Compress data with a specific compression level.
    pub fn compress_with_level(&self, data: &[u8], level: i32) -> (r: Result<Vec<u8>, CompressionError>)
        ensures
            match r {
                Ok(v) => dict_compressed(data@, level, self@.bytes) == Some(v@),
                Err(e) => e is Compress && dict_compressed(data@, level, self@.bytes) is None,
            },
    {
        match zstd_dict_compress(data, level, self.dict_data.as_slice()) {
            Ok(v) => Ok(v),
            Err(msg) => Err(CompressionError::Compress(msg)),
        }
    }

    /// Decompress data using this dictionary.
    pub fn decompress(&self, compressed: &[u8]) -> (r: Result<Vec<u8>, CompressionError>)
        ensures
            match r {
                Ok(v) => dict_decompressed(compressed@, self@.bytes) == Some(v@),
                Err(e) => e is Decompress && dict_decompressed(compressed@, self@.bytes) is None,
            },
            forall|x: Seq<u8>, level: i32|
                dict_compressed(x, level, self@.bytes) == Some(compressed@) ==> (r is Ok && r->Ok_0@
                    == x),
    {
        match zstd_dict_decompress(compressed, self.dict_data.as_slice()) {
            Ok(v) => Ok(v),
            Err(msg) => Err(CompressionError::Decompress(msg)),
        }
    }
}

/// Reading a dictionary's file gives back its bytes, at the default
/// level.
pub proof fn lemma_dictionary_file_round_trip(d: CompressionDictionary, file: Seq<u8>)
    requires
        file == dictionary_magic() + seq![DICTIONARY_VERSION] + d@.bytes,
    ensures
        file.len() >= 5,
        file.subrange(0, 4) == dictionary_magic(),
        file[4] <= DICTIONARY_VERSION,
        file.subrange(5, file.len() as int) == d@.bytes,
{
    assert(file.subrange(0, 4) =~= dictionary_magic());
    assert(file.subrange(5, file.len() as int) =~= d@.bytes);
}

/// The total length of samples.
pub open spec fn total_length(samples: Seq<Vec<u8>>) -> nat
    decreases samples.len(),
{
    if samples.len() == 0 {
        0
    } else {
        total_length(samples.drop_last()) + samples.last()@.len()
    }
}

/// What a trainer holds: its samples, the dictionary size it aims at and
/// the level of the dictionary it makes.
pub struct TrainerView {
    pub samples: Seq<Vec<u8>>,
    pub dictionary_size: usize,
    pub level: i32,
}

/// Dictionary trainer: collects samples and trains a dictionary on them.
pub struct DictionaryTrainer {
    /// Collected training samples
    samples: Vec<Vec<u8>>,
    /// Target dictionary size
    dictionary_size: usize,
    /// Compression level for the resulting dictionary
    compression_level: i32,
}

impl View for DictionaryTrainer {
    type V = TrainerView;

    closed spec fn view(&self) -> TrainerView {
        TrainerView {
            samples: self.samples@,
            dictionary_size: self.dictionary_size,
            level: self.compression_level,
        }
    }
}

impl DictionaryTrainer {
    /// A trainer without samples, for a 64KB dictionary at level 3.
    pub fn new() -> (t: DictionaryTrainer)
        ensures
            t@.samples.len() == 0,
            t@.dictionary_size == DEFAULT_DICTIONARY_SIZE,
            t@.level == DEFAULT_COMPRESSION_LEVEL,
    {
        DictionaryTrainer {
            samples: Vec::new(),
            dictionary_size: DEFAULT_DICTIONARY_SIZE,
            compression_level: DEFAULT_COMPRESSION_LEVEL,
        }
    }

    /// Set the target dictionary size.
    pub fn with_dictionary_size(self, size: usize) -> (t: DictionaryTrainer)
        ensures
            t@.samples == self@.samples,
            t@.dictionary_size == size,
            t@.level == self@.level,
    {
        let mut t = self;
        t.dictionary_size = size;
        t
    }

    /// Set the compression level for the resulting dictionary (clamped to
    /// 1..=22).
    pub fn with_compression_level(self, level: i32) -> (t: DictionaryTrainer)
        ensures
            t@.samples == self@.samples,
            t@.dictionary_size == self@.dictionary_size,
            t@.level == clamp_level(level),
    {
        let mut t = self;
        t.compression_level = clamp_compression_level(level);
        t
    }

    /// Add a training sample; an empty one is ignored.
    pub fn add_sample(&mut self, sample: &[u8])
        ensures
            sample@.len() == 0 ==> final(self)@.samples == old(self)@.samples,
            sample@.len() > 0 ==> final(self)@.samples.len() == old(self)@.samples.len() + 1
                && final(self)@.samples.drop_last() == old(self)@.samples
                && final(self)@.samples.last()@ == sample@,
            final(self)@.dictionary_size == old(self)@.dictionary_size,
            final(self)@.level == old(self)@.level,
    {
        if sample.len() > 0 {
            let mut copy: Vec<u8> = Vec::new();
            let mut i: usize = 0;
            while i < sample.len()
                invariant
                    i <= sample@.len(),
                    copy@ == sample@.subrange(0, i as int),
                decreases sample@.len() - i,
            {
                copy.push(sample[i]);
                i = i + 1;
            }
            assert(copy@ =~= sample@);
            let ghost before = self@.samples;
            self.samples.push(copy);
            assert(self@.samples.drop_last() =~= before);
        }
    }

    /// Get the number of samples collected.
    pub fn sample_count(&self) -> (n: usize)
        ensures
            n == self@.samples.len(),
    {
        self.samples.len()
    }

    /// Get the total size of collected samples.
    pub fn total_sample_size(&self) -> (n: usize)
        requires
            total_length(self@.samples) <= usize::MAX,
        ensures
            n == total_length(self@.samples),
    {
        let mut total: usize = 0;
        let mut i: usize = 0;
        while i < self.samples.len()
            invariant
                i <= self@.samples.len(),
                total_length(self@.samples) <= usize::MAX,
                total == total_length(self@.samples.subrange(0, i as int)),
            decreases self@.samples.len() - i,
        {
            proof {
                assert(self@.samples.subrange(0, i + 1).drop_last() =~= self@.samples.subrange(0, i as int));
                lemma_total_length_prefix(self@.samples, i + 1);
            }
            total = total + self.samples[i].len();
            i = i + 1;
        }
        proof {
            assert(self@.samples.subrange(0, self@.samples.len() as int) =~= self@.samples);
        }
        total
    }

    /// Check if there are enough samples for training: at least five,
    /// of at least 100KB together.
    pub fn has_sufficient_samples(&self) -> (b: bool)
        requires
            total_length(self@.samples) <= usize::MAX,
        ensures
            b == (self@.samples.len() >= MIN_TRAINING_SAMPLES && total_length(self@.samples)
                >= MIN_TRAINING_SIZE),
    {
        self.samples.len() >= MIN_TRAINING_SAMPLES && self.total_sample_size() >= MIN_TRAINING_SIZE
    }

    /// Train a dictionary from the collected samples; fewer than five
    /// samples are refused.
    pub fn train(self) -> (r: Result<CompressionDictionary, CompressionError>)
        ensures
            self@.samples.len() < MIN_TRAINING_SAMPLES ==> r == Err::<
                CompressionDictionary,
                CompressionError,
            >(
                CompressionError::InsufficientSamples {
                    have: self@.samples.len() as usize,
                    need: MIN_TRAINING_SAMPLES,
                },
            ),
            self@.samples.len() >= MIN_TRAINING_SAMPLES ==> match r {
                Ok(d) => d@.level == clamp_level(self@.level) && trained_from(
                    d@.bytes,
                    sample_bytes(self@.samples),
                    self@.dictionary_size,
                ),
                Err(e) => e is Training,
            },
    {
        if self.samples.len() < MIN_TRAINING_SAMPLES {
            return Err(
                CompressionError::InsufficientSamples {
                    have: self.samples.len(),
                    need: MIN_TRAINING_SAMPLES,
                },
            );
        }
        let trained = zstd_train(&self.samples, self.dictionary_size);
        dictionary_from_training(trained, self.compression_level)
    }

    /// Train a dictionary, or `None` where the samples are insufficient
    /// or training fails.
    pub fn try_train(self) -> (r: Option<CompressionDictionary>)
        requires
            total_length(self@.samples) <= usize::MAX,
        ensures
            !(self@.samples.len() >= MIN_TRAINING_SAMPLES && total_length(self@.samples)
                >= MIN_TRAINING_SIZE) ==> r is None,
            r matches Some(d) ==> d@.level == clamp_level(self@.level)
                && trained_from(d@.bytes, sample_bytes(self@.samples), self@.dictionary_size),
    {
        if !self.has_sufficient_samples() {
            return None;
        }
        match self.train() {
            Ok(d) => Some(d),
            Err(_) => None,
        }
    }
}

/// The dictionary that a training outcome gives: its bytes at the given
/// level (clamped), or the training error.
pub fn dictionary_from_training(trained: Result<Vec<u8>, String>, level: i32) -> (r: Result<
    CompressionDictionary,
    CompressionError,
>)
    ensures
        match trained {
            Ok(bytes) => r is Ok && r->Ok_0@.bytes == bytes@ && r->Ok_0@.level
                == clamp_level(level),
            Err(msg) => r is Err && r->Err_0 == CompressionError::Training(msg),
        },
{
    match trained {
        Ok(bytes) => Ok(CompressionDictionary::from_bytes_with_level(bytes, level)),
        Err(msg) => Err(CompressionError::Training(msg)),
    }
}

/// The total length of a prefix is at most the total.
pub proof fn lemma_total_length_prefix(samples: Seq<Vec<u8>>, n: int)
    requires
        0 <= n <= samples.len(),
    ensures
        total_length(samples.subrange(0, n)) <= total_length(samples),
    decreases samples.len() - n,
{
    if n < samples.len() {
        lemma_total_length_prefix(samples, n + 1);
        assert(samples.subrange(0, n + 1).drop_last() =~= samples.subrange(0, n));
    } else {
        assert(samples.subrange(0, n) =~= samples);
    }
}

/// Named dictionaries that ship with the application. Where they are
/// kept on disk is chosen by the caller.
pub struct BuiltinDictionary;

impl BuiltinDictionary {
    /// Default dictionary ID for project files.
    pub const PROJECT_DICTIONARY_ID: &'static str = "orpheus-project-v1";

    /// Default dictionary ID for MIDI data.
    pub const MIDI_DICTIONARY_ID: &'static str = "orpheus-midi-v1";

    /// The file name of a named dictionary: the name and ".dict".
    pub fn file_name(id: &str) -> (s: String)
        ensures
            s@ == id@ + ".dict"@,
    {
        String::from_str(id).concat(".dict")
    }
}

/// The sizes that compression statistics are drawn from: the original,
/// compressed plainly, and compressed with a dictionary where one is given.
#[derive(Debug, Clone)]
pub struct CompressionStats {
    /// Original data size in bytes
    pub original_size: usize,
    /// Compressed size without dictionary
    pub compressed_size: usize,
    /// Compressed size with dictionary (if available)
    pub dict_compressed_size: Option<usize>,
}

impl CompressionStats {
    /// Compress the data plainly at the level, and with the dictionary at
    /// its own level where one is given, and record the sizes.
    pub fn calculate(
        original: &[u8],
        dictionary: Option<&CompressionDictionary>,
        compression_level: i32,
    ) -> (r: Result<CompressionStats, CompressionError>)
        ensures
            match zstd_encoded(original@, compression_level) {
                None => r is Err && r->Err_0 is Compress,
                Some(plain) => match dictionary {
                    None => r is Ok && r->Ok_0.original_size == original@.len()
                        && r->Ok_0.compressed_size == plain.len() && r->Ok_0.dict_compressed_size is None,
                    Some(d) => match dict_compressed(original@, d@.level, d@.bytes) {
                        None => r is Err && r->Err_0 is Compress,
                        Some(packed) => r is Ok && r->Ok_0.original_size == original@.len()
                            && r->Ok_0.compressed_size == plain.len()
                            && r->Ok_0.dict_compressed_size == Some(packed.len() as usize),
                    },
                },
            },
    {
        let original_size = original.len();
        let compressed = match zstd_encode_all(original, compression_level) {
            Ok(v) => v,
            Err(msg) => {
                return Err(CompressionError::Compress(msg));
            },
        };
        let dict_compressed_size = match dictionary {
            Some(d) => {
                let packed = d.compress(original)?;
                Some(packed.len())
            },
            None => None,
        };
        Ok(CompressionStats { original_size, compressed_size: compressed.len(), dict_compressed_size })
    }
}

} // verus!
