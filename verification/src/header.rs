//! Fixed-layout 52-byte stream header: encoding, parsing and strict
//! validation.
//!
//! Every multi-byte field is little-endian on the wire.  In memory the
//! header stores each such field as the integer value of its little-endian
//! bytes; the two reserved ranges of the layout must be zero, are written as
//! zero, and are ignored when parsing.

use crate::error::BiolepticError;
use vstd::bytes::{
    spec_u16_to_le_bytes, spec_u32_to_le_bytes, u16_to_le_bytes, u32_to_le_bytes,
};
use vstd::prelude::*;

verus! {

/// Fixed size of the header in bytes.
pub const BIOLEPTIC_HEADER_SIZE: usize = 52;

/// Little-endian value of the magic bytes `b"BILP"`.
pub const BIOLEPTIC_MAGIC: u32 = 0x504C_4942;

/// Current format version, encoded on the wire as bytes `[1, 0]`.
pub const BIOLEPTIC_VERSION: u16 = 1;

/// Little-endian value of the 4-byte tag `b"cf53"`.
pub const CDF53_TAG: u32 = 0x3335_6663;

/// Little-endian value of the 4-byte tag `b"cf97"`.
pub const CDF97_TAG: u32 = 0x3739_6663;

/// Little-endian value of the 4-byte tag `b"db04"`.
pub const DB4_TAG: u32 = 0x3430_6264;

/// Little-endian value of the 4-byte tag `b"sym4"`.
pub const SYM4_TAG: u32 = 0x346D_7973;

/// Little-endian value of the 2-byte tag `b"f3"`.
pub const FLOAT32_TAG: u16 = 0x3366;

/// The wavelet used by the multi-level transform.
#[derive(Copy, Clone, Debug, PartialEq, Eq, Structural)]
pub enum CompressionMethod {
    Cdf53,
    Cdf97,
    Db4,
    Sym4,
}

impl CompressionMethod {
    /// The 4-byte wire tag of this method, as a little-endian value.
    pub open spec fn spec_tag(self) -> u32 {
        match self {
            CompressionMethod::Cdf53 => CDF53_TAG,
            CompressionMethod::Cdf97 => CDF97_TAG,
            CompressionMethod::Db4 => DB4_TAG,
            CompressionMethod::Sym4 => SYM4_TAG,
        }
    }

    /// Whether a 4-byte wire value names a known method.
    pub open spec fn spec_is_tag(value: u32) -> bool {
        value == CDF53_TAG || value == CDF97_TAG || value == DB4_TAG || value == SYM4_TAG
    }

    /// The method a valid 4-byte wire value names.
    pub open spec fn spec_of_tag(value: u32) -> CompressionMethod
        recommends
            CompressionMethod::spec_is_tag(value),
    {
        if value == CDF53_TAG {
            CompressionMethod::Cdf53
        } else if value == CDF97_TAG {
            CompressionMethod::Cdf97
        } else if value == DB4_TAG {
            CompressionMethod::Db4
        } else {
            CompressionMethod::Sym4
        }
    }

    /// Encodes this method as its little-endian 4-byte tag value.
    pub fn tag(self) -> (r: u32)
        ensures
            r == self.spec_tag(),
    {
        match self {
            CompressionMethod::Cdf53 => CDF53_TAG,
            CompressionMethod::Cdf97 => CDF97_TAG,
            CompressionMethod::Db4 => DB4_TAG,
            CompressionMethod::Sym4 => SYM4_TAG,
        }
    }

    /// Parses a little-endian 4-byte tag value; unknown tags are rejected
    /// with the tag's bytes.
    pub fn try_from(value: u32) -> (r: Result<Self, BiolepticError>)
        ensures
            CompressionMethod::spec_is_tag(value) ==> r == Ok::<_, BiolepticError>(
                CompressionMethod::spec_of_tag(value),
            ),
            !CompressionMethod::spec_is_tag(value) ==> (r matches Err(e) && e matches
                BiolepticError::InvalidCompressionMethod(b) && b@ == spec_u32_to_le_bytes(value)),
    {
        if value == CDF53_TAG {
            Ok(CompressionMethod::Cdf53)
        } else if value == CDF97_TAG {
            Ok(CompressionMethod::Cdf97)
        } else if value == DB4_TAG {
            Ok(CompressionMethod::Db4)
        } else if value == SYM4_TAG {
            Ok(CompressionMethod::Sym4)
        } else {
            Err(BiolepticError::InvalidCompressionMethod(le_bytes_of_u32(value)))
        }
    }
}

/// The sample data type of the original signal.
#[derive(Copy, Clone, Debug, PartialEq, Eq, Structural)]
pub enum DataType {
    Float32,
}

impl DataType {
    /// The 2-byte wire tag of this data type, as a little-endian value.
    pub open spec fn spec_tag(self) -> u16 {
        match self {
            DataType::Float32 => FLOAT32_TAG,
        }
    }

    /// Whether a 2-byte wire value names a known data type.
    pub open spec fn spec_is_tag(value: u16) -> bool {
        value == FLOAT32_TAG
    }

    /// Encodes this data type as its little-endian 2-byte tag value.
    pub fn tag(self) -> (r: u16)
        ensures
            r == self.spec_tag(),
    {
        match self {
            DataType::Float32 => FLOAT32_TAG,
        }
    }

    /// Parses a little-endian 2-byte tag value; unknown tags are rejected
    /// with the tag's bytes.
    pub fn try_from(value: u16) -> (r: Result<Self, BiolepticError>)
        ensures
            DataType::spec_is_tag(value) ==> r == Ok::<_, BiolepticError>(DataType::Float32),
            !DataType::spec_is_tag(value) ==> (r matches Err(e) && e matches
                BiolepticError::InvalidDataType(b) && b@ == spec_u16_to_le_bytes(value)),
    {
        if value == FLOAT32_TAG {
            Ok(DataType::Float32)
        } else {
            Err(BiolepticError::InvalidDataType(le_bytes_of_u16(value)))
        }
    }
}

/// Whether a `u32` is the bit pattern of a finite `f32`: an IEEE-754 single
/// is finite exactly when its exponent field is not all ones.
pub open spec fn spec_is_finite_bits(b: u32) -> bool {
    (b >> 23) & 0xFF != 0xFF
}

/// Decides finiteness of an `f32` bit pattern.
pub fn is_finite_bits(b: u32) -> (r: bool)
    ensures
        r == spec_is_finite_bits(b),
{
    (b >> 23) & 0xFF != 0xFF
}

/// The little-endian bytes of a `u32`, as a fixed array.
fn le_bytes_of_u32(x: u32) -> (r: [u8; 4])
    ensures
        r@ == spec_u32_to_le_bytes(x),
{
    proof {
        vstd::bytes::lemma_auto_spec_u32_to_from_le_bytes();
    }
    let b = u32_to_le_bytes(x);
    let r = [b[0], b[1], b[2], b[3]];
    assert(r@ =~= spec_u32_to_le_bytes(x));
    r
}

/// The little-endian bytes of a `u16`, as a fixed array.
fn le_bytes_of_u16(x: u16) -> (r: [u8; 2])
    ensures
        r@ == spec_u16_to_le_bytes(x),
{
    proof {
        vstd::bytes::lemma_auto_spec_u16_to_from_le_bytes();
    }
    let b = u16_to_le_bytes(x);
    let r = [b[0], b[1]];
    assert(r@ =~= spec_u16_to_le_bytes(x));
    r
}

/// The fixed-layout stream header.  Multi-byte fields hold the integer value
/// of their little-endian wire bytes; `min`, `max` and `mean` hold `f32` bit
/// patterns.  The reserved ranges must be zero in headers this codec builds,
/// but parsing copies whatever a stream carries there, so re-encoding a
/// parsed header reproduces the accepted input bytes exactly.
#[derive(Copy, Clone, Debug, PartialEq, Eq, Structural)]
pub struct BiolepticHeader {
    /// Magic identifying the format: the little-endian value of `b"BILP"`.
    pub magic: u32,
    /// Format version for forward compatibility.
    pub version: u16,
    /// Data type of the original signal, as a little-endian 2-byte tag value.
    pub data_type: u16,
    /// Compression method, as a little-endian 4-byte tag value.
    pub compression_method: u32,
    /// Number of decomposition levels applied during compression.
    pub levels: u8,
    /// Quantization scale: coefficients were multiplied by `1 << scale`
    /// before being clamped to `i16`.
    pub scale: u8,
    /// Reserved for future use — written as zero; the little-endian value of
    /// the 2 bytes at offset 14.
    pub reserved0: u16,
    /// Number of samples in the original signal.
    pub signal_length: u32,
    /// Minimum of the signal after non-finite substitution, as `f32` bits.
    pub min: u32,
    /// Maximum of the signal after non-finite substitution, as `f32` bits.
    pub max: u32,
    /// Mean subtracted from the normalized signal, as `f32` bits.
    pub mean: u32,
    /// Byte length of the entropy-coded payload that follows the header.
    pub compressed_size: u32,
    /// Reserved for future use — written as zero; the little-endian value of
    /// the 8 bytes at offset 36.
    pub reserved1_lo: u64,
    /// Reserved for future use — written as zero; the little-endian value of
    /// the 8 bytes at offset 44.
    pub reserved1_hi: u64,
}

/// The exact 52 bytes a header serializes to.
pub open spec fn spec_header_bytes(h: BiolepticHeader) -> Seq<u8> {
    spec_u32_to_le_bytes(h.magic) + spec_u16_to_le_bytes(h.version) + spec_u16_to_le_bytes(
        h.data_type,
    ) + spec_u32_to_le_bytes(h.compression_method) + seq![h.levels, h.scale]
        + spec_u16_to_le_bytes(h.reserved0) + spec_u32_to_le_bytes(h.signal_length)
        + spec_u32_to_le_bytes(h.min) + spec_u32_to_le_bytes(h.max) + spec_u32_to_le_bytes(h.mean)
        + spec_u32_to_le_bytes(h.compressed_size) + vstd::bytes::spec_u64_to_le_bytes(
        h.reserved1_lo,
    ) + vstd::bytes::spec_u64_to_le_bytes(h.reserved1_hi)
}

/// The header read field-by-field from the first 52 bytes of a stream;
/// meaningful only when `s` holds at least 52 bytes.
pub open spec fn spec_parse_header(s: Seq<u8>) -> BiolepticHeader {
    BiolepticHeader {
        magic: spec_u32_from_le_bytes_at(s, 0),
        version: spec_u16_from_le_bytes_at(s, 4),
        data_type: spec_u16_from_le_bytes_at(s, 6),
        compression_method: spec_u32_from_le_bytes_at(s, 8),
        levels: s[12],
        scale: s[13],
        reserved0: spec_u16_from_le_bytes_at(s, 14),
        signal_length: spec_u32_from_le_bytes_at(s, 16),
        min: spec_u32_from_le_bytes_at(s, 20),
        max: spec_u32_from_le_bytes_at(s, 24),
        mean: spec_u32_from_le_bytes_at(s, 28),
        compressed_size: spec_u32_from_le_bytes_at(s, 32),
        reserved1_lo: spec_u64_from_le_bytes_at(s, 36),
        reserved1_hi: spec_u64_from_le_bytes_at(s, 44),
    }
}

/// The `u32` whose little-endian bytes sit at `s[i..i + 4]`.
pub open spec fn spec_u32_from_le_bytes_at(s: Seq<u8>, i: int) -> u32 {
    vstd::bytes::spec_u32_from_le_bytes(s.subrange(i, i + 4))
}

/// The `u64` whose little-endian bytes sit at `s[i..i + 8]`.
pub open spec fn spec_u64_from_le_bytes_at(s: Seq<u8>, i: int) -> u64 {
    vstd::bytes::spec_u64_from_le_bytes(s.subrange(i, i + 8))
}

/// The `u16` whose little-endian bytes sit at `s[i..i + 2]`.
pub open spec fn spec_u16_from_le_bytes_at(s: Seq<u8>, i: int) -> u16 {
    vstd::bytes::spec_u16_from_le_bytes(s.subrange(i, i + 2))
}

/// Whether a byte sequence begins with a header that strict validation
/// accepts: long enough, magic, version, data-type tag and method tag all
/// known, and finite `min`/`max`/`mean` bit patterns.
pub open spec fn spec_header_ok(s: Seq<u8>) -> bool {
    let h = spec_parse_header(s);
    &&& s.len() >= BIOLEPTIC_HEADER_SIZE
    &&& h.magic == BIOLEPTIC_MAGIC
    &&& h.version == BIOLEPTIC_VERSION
    &&& DataType::spec_is_tag(h.data_type)
    &&& CompressionMethod::spec_is_tag(h.compression_method)
    &&& spec_is_finite_bits(h.min)
    &&& spec_is_finite_bits(h.max)
    &&& spec_is_finite_bits(h.mean)
}

/// Whether a header value is one that strict validation accepts, so that its
/// encoding parses back to itself.
pub open spec fn spec_header_valid(h: BiolepticHeader) -> bool {
    &&& h.magic == BIOLEPTIC_MAGIC
    &&& h.version == BIOLEPTIC_VERSION
    &&& DataType::spec_is_tag(h.data_type)
    &&& CompressionMethod::spec_is_tag(h.compression_method)
    &&& spec_is_finite_bits(h.min)
    &&& spec_is_finite_bits(h.max)
    &&& spec_is_finite_bits(h.mean)
}

impl BiolepticHeader {
    /// Creates a header with the current magic and version.  `min`, `max`
    /// and `mean` are `f32` bit patterns.
    pub fn new(
        data_type: DataType,
        compression_method: CompressionMethod,
        levels: u8,
        scale: crate::compressor::QuantizationScale,
        signal_length: u32,
        min: u32,
        max: u32,
        mean: u32,
        compressed_size: u32,
    ) -> (r: BiolepticHeader)
        ensures
            r == (BiolepticHeader {
                magic: BIOLEPTIC_MAGIC,
                version: BIOLEPTIC_VERSION,
                data_type: data_type.spec_tag(),
                compression_method: compression_method.spec_tag(),
                levels,
                scale: scale.spec_as_u8(),
                reserved0: 0u16,
                signal_length,
                min,
                max,
                mean,
                compressed_size,
                reserved1_lo: 0u64,
                reserved1_hi: 0u64,
            }),
    {
        BiolepticHeader {
            magic: BIOLEPTIC_MAGIC,
            version: BIOLEPTIC_VERSION,
            data_type: data_type.tag(),
            compression_method: compression_method.tag(),
            levels,
            scale: scale.as_u8(),
            reserved0: 0,
            signal_length,
            min,
            max,
            mean,
            compressed_size,
            reserved1_lo: 0,
            reserved1_hi: 0,
        }
    }

    /// Serializes the header to its exact 52 wire bytes.
    pub fn to_bytes(&self) -> (r: Vec<u8>)
        ensures
            r@ == spec_header_bytes(*self),
            r@.len() == BIOLEPTIC_HEADER_SIZE,
    {
        let mut buf: Vec<u8> = Vec::new();
        let mut part = u32_to_le_bytes(self.magic);
        buf.append(&mut part);
        let mut part = u16_to_le_bytes(self.version);
        buf.append(&mut part);
        let mut part = u16_to_le_bytes(self.data_type);
        buf.append(&mut part);
        let mut part = u32_to_le_bytes(self.compression_method);
        buf.append(&mut part);
        buf.push(self.levels);
        buf.push(self.scale);
        let mut part = u16_to_le_bytes(self.reserved0);
        buf.append(&mut part);
        let mut part = u32_to_le_bytes(self.signal_length);
        buf.append(&mut part);
        let mut part = u32_to_le_bytes(self.min);
        buf.append(&mut part);
        let mut part = u32_to_le_bytes(self.max);
        buf.append(&mut part);
        let mut part = u32_to_le_bytes(self.mean);
        buf.append(&mut part);
        let mut part = u32_to_le_bytes(self.compressed_size);
        buf.append(&mut part);
        let mut part = vstd::bytes::u64_to_le_bytes(self.reserved1_lo);
        buf.append(&mut part);
        let mut part = vstd::bytes::u64_to_le_bytes(self.reserved1_hi);
        buf.append(&mut part);
        proof {
            vstd::bytes::lemma_auto_spec_u64_to_from_le_bytes();
            assert(buf@ =~= spec_header_bytes(*self));
        }
        buf
    }

    /// Parses and strictly validates a header from the front of a stream.
    ///
    /// Exactly when the stream is at least 52 bytes long, begins with the
    /// magic, carries the current version, known data-type and method tags,
    /// and finite `min`/`max`/`mean` bit patterns, the parsed header is
    /// returned, every field a verbatim copy of its byte range — the
    /// reserved ranges included, so re-encoding reproduces the accepted
    /// bytes exactly.  Each violation is reported by its own error, checked
    /// in that order.  The scale byte is deliberately not range-checked
    /// here; the decompressor re-validates it before use.
    pub fn from_bytes(buf: &[u8]) -> (r: Result<BiolepticHeader, BiolepticError>)
        ensures
            r matches Ok(h) ==> spec_header_ok(buf@) && h == spec_parse_header(buf@),
            spec_header_ok(buf@) ==> r == Ok::<_, BiolepticError>(spec_parse_header(buf@)),
            buf@.len() < BIOLEPTIC_HEADER_SIZE ==> r == Err::<BiolepticHeader, _>(
                BiolepticError::InvalidHeader,
            ),
            (buf@.len() >= BIOLEPTIC_HEADER_SIZE && spec_parse_header(buf@).magic
                != BIOLEPTIC_MAGIC) ==> (r matches Err(e) && e matches BiolepticError::InvalidMagic(
                m,
            ) && m@ == buf@.subrange(0, 4)),
            (buf@.len() >= BIOLEPTIC_HEADER_SIZE && spec_parse_header(buf@).magic
                == BIOLEPTIC_MAGIC && spec_parse_header(buf@).version != BIOLEPTIC_VERSION) ==> (
            r matches Err(e) && e matches BiolepticError::InvalidVersion(m) && m@ == buf@.subrange(
                4,
                6,
            )),
            (buf@.len() >= BIOLEPTIC_HEADER_SIZE && spec_parse_header(buf@).magic
                == BIOLEPTIC_MAGIC && spec_parse_header(buf@).version == BIOLEPTIC_VERSION
                && !DataType::spec_is_tag(spec_parse_header(buf@).data_type)) ==> (r matches Err(e)
                && e matches BiolepticError::InvalidDataType(m) && m@ == buf@.subrange(6, 8)),
            (buf@.len() >= BIOLEPTIC_HEADER_SIZE && spec_parse_header(buf@).magic
                == BIOLEPTIC_MAGIC && spec_parse_header(buf@).version == BIOLEPTIC_VERSION
                && DataType::spec_is_tag(spec_parse_header(buf@).data_type)
                && !CompressionMethod::spec_is_tag(spec_parse_header(buf@).compression_method)) ==> (
            r matches Err(e) && e matches BiolepticError::InvalidCompressionMethod(m) && m@
                == buf@.subrange(8, 12)),
            (buf@.len() >= BIOLEPTIC_HEADER_SIZE && spec_parse_header(buf@).magic
                == BIOLEPTIC_MAGIC && spec_parse_header(buf@).version == BIOLEPTIC_VERSION
                && DataType::spec_is_tag(spec_parse_header(buf@).data_type)
                && CompressionMethod::spec_is_tag(spec_parse_header(buf@).compression_method)
                && !(spec_is_finite_bits(spec_parse_header(buf@).min) && spec_is_finite_bits(
                spec_parse_header(buf@).max,
            ) && spec_is_finite_bits(spec_parse_header(buf@).mean))) ==> r == Err::<
                BiolepticHeader,
                _,
            >(BiolepticError::InvalidHeader),
    {
        if buf.len() < BIOLEPTIC_HEADER_SIZE {
            return Err(BiolepticError::InvalidHeader);
        }
        proof {
            vstd::bytes::lemma_auto_spec_u32_to_from_le_bytes();
            vstd::bytes::lemma_auto_spec_u16_to_from_le_bytes();
        }
        let magic = read_u32_le(buf, 0);
        if magic != BIOLEPTIC_MAGIC {
            proof {
                assert(spec_u32_to_le_bytes(spec_u32_from_le_bytes_at(buf@, 0)) =~= buf@.subrange(
                    0,
                    4,
                ));
            }
            return Err(BiolepticError::InvalidMagic(le_bytes_of_u32(magic)));
        }
        let version = read_u16_le(buf, 4);
        if version != BIOLEPTIC_VERSION {
            proof {
                assert(spec_u16_to_le_bytes(spec_u16_from_le_bytes_at(buf@, 4)) =~= buf@.subrange(
                    4,
                    6,
                ));
            }
            return Err(BiolepticError::InvalidVersion(le_bytes_of_u16(version)));
        }
        let data_type = read_u16_le(buf, 6);
        if data_type != FLOAT32_TAG {
            proof {
                assert(spec_u16_to_le_bytes(spec_u16_from_le_bytes_at(buf@, 6)) =~= buf@.subrange(
                    6,
                    8,
                ));
            }
            return Err(BiolepticError::InvalidDataType(le_bytes_of_u16(data_type)));
        }
        let compression_method = read_u32_le(buf, 8);
        if CompressionMethod::try_from(compression_method).is_err() {
            proof {
                assert(spec_u32_to_le_bytes(spec_u32_from_le_bytes_at(buf@, 8)) =~= buf@.subrange(
                    8,
                    12,
                ));
            }
            return Err(BiolepticError::InvalidCompressionMethod(le_bytes_of_u32(
                compression_method,
            )));
        }
        let f_min = read_u32_le(buf, 20);
        let f_max = read_u32_le(buf, 24);
        let f_mean = read_u32_le(buf, 28);
        if !is_finite_bits(f_min) {
            return Err(BiolepticError::InvalidHeader);
        }
        if !is_finite_bits(f_max) {
            return Err(BiolepticError::InvalidHeader);
        }
        if !is_finite_bits(f_mean) {
            return Err(BiolepticError::InvalidHeader);
        }
        Ok(
            BiolepticHeader {
                magic,
                version,
                data_type,
                compression_method,
                levels: buf[12],
                scale: buf[13],
                reserved0: read_u16_le(buf, 14),
                signal_length: read_u32_le(buf, 16),
                min: f_min,
                max: f_max,
                mean: f_mean,
                compressed_size: read_u32_le(buf, 32),
                reserved1_lo: read_u64_le(buf, 36),
                reserved1_hi: read_u64_le(buf, 44),
            },
        )
    }

    /// Returns the compression method named by the stored tag.
    pub fn compression_method(&self) -> (r: Result<CompressionMethod, BiolepticError>)
        ensures
            CompressionMethod::spec_is_tag(self.compression_method) ==> r == Ok::<
                _,
                BiolepticError,
            >(CompressionMethod::spec_of_tag(self.compression_method)),
            !CompressionMethod::spec_is_tag(self.compression_method) ==> (r matches Err(e)
                && e matches BiolepticError::InvalidCompressionMethod(b) && b@
                == spec_u32_to_le_bytes(self.compression_method)),
    {
        CompressionMethod::try_from(self.compression_method)
    }

    /// Returns the data type named by the stored tag.
    pub fn data_type(&self) -> (r: Result<DataType, BiolepticError>)
        ensures
            DataType::spec_is_tag(self.data_type) ==> r == Ok::<_, BiolepticError>(
                DataType::Float32,
            ),
            !DataType::spec_is_tag(self.data_type) ==> (r matches Err(e) && e matches
                BiolepticError::InvalidDataType(b) && b@ == spec_u16_to_le_bytes(self.data_type)),
    {
        DataType::try_from(self.data_type)
    }
}

/// Reads the `u32` whose little-endian bytes sit at `buf[i..i + 4]`.
fn read_u32_le(buf: &[u8], i: usize) -> (r: u32)
    requires
        i + 4 <= buf@.len(),
    ensures
        r == spec_u32_from_le_bytes_at(buf@, i as int),
{
    // binding the executable length bounds `i + 4` within usize
    let _len = buf.len();
    vstd::bytes::u32_from_le_bytes(vstd::slice::slice_subrange(buf, i, i + 4))
}

/// Reads the `u16` whose little-endian bytes sit at `buf[i..i + 2]`.
fn read_u16_le(buf: &[u8], i: usize) -> (r: u16)
    requires
        i + 2 <= buf@.len(),
    ensures
        r == spec_u16_from_le_bytes_at(buf@, i as int),
{
    // binding the executable length bounds `i + 2` within usize
    let _len = buf.len();
    vstd::bytes::u16_from_le_bytes(vstd::slice::slice_subrange(buf, i, i + 2))
}

/// Reads the `u64` whose little-endian bytes sit at `buf[i..i + 8]`.
fn read_u64_le(buf: &[u8], i: usize) -> (r: u64)
    requires
        i + 8 <= buf@.len(),
    ensures
        r == spec_u64_from_le_bytes_at(buf@, i as int),
{
    // binding the executable length bounds `i + 8` within usize
    let _len = buf.len();
    vstd::bytes::u64_from_le_bytes(vstd::slice::slice_subrange(buf, i, i + 8))
}

/// Parsing copies every field verbatim, the reserved ranges included, so
/// re-encoding a parsed header reproduces the first 52 input bytes exactly.
pub proof fn lemma_header_reencode(s: Seq<u8>)
    requires
        s.len() >= BIOLEPTIC_HEADER_SIZE,
    ensures
        spec_header_bytes(spec_parse_header(s)) == s.subrange(0, BIOLEPTIC_HEADER_SIZE as int),
{
    vstd::bytes::lemma_auto_spec_u32_to_from_le_bytes();
    vstd::bytes::lemma_auto_spec_u16_to_from_le_bytes();
    vstd::bytes::lemma_auto_spec_u64_to_from_le_bytes();
    let h = spec_parse_header(s);
    assert(spec_u32_to_le_bytes(h.magic) == s.subrange(0, 4));
    assert(spec_u16_to_le_bytes(h.version) == s.subrange(4, 6));
    assert(spec_u16_to_le_bytes(h.data_type) == s.subrange(6, 8));
    assert(spec_u32_to_le_bytes(h.compression_method) == s.subrange(8, 12));
    assert(spec_u16_to_le_bytes(h.reserved0) == s.subrange(14, 16));
    assert(spec_u32_to_le_bytes(h.signal_length) == s.subrange(16, 20));
    assert(spec_u32_to_le_bytes(h.min) == s.subrange(20, 24));
    assert(spec_u32_to_le_bytes(h.max) == s.subrange(24, 28));
    assert(spec_u32_to_le_bytes(h.mean) == s.subrange(28, 32));
    assert(spec_u32_to_le_bytes(h.compressed_size) == s.subrange(32, 36));
    assert(vstd::bytes::spec_u64_to_le_bytes(h.reserved1_lo) == s.subrange(36, 44));
    assert(vstd::bytes::spec_u64_to_le_bytes(h.reserved1_hi) == s.subrange(44, 52));
    assert(spec_header_bytes(h) =~= s.subrange(0, BIOLEPTIC_HEADER_SIZE as int));
}

/// Corrupting any single magic byte of a stream whose header validation
/// accepts makes the parsed magic wrong, so by the parsing contract the
/// stream is rejected with `InvalidMagic` — never read further.
pub proof fn lemma_corrupted_magic_rejected(s: Seq<u8>, pos: int, b: u8)
    requires
        spec_header_ok(s),
        0 <= pos < 4,
        b != s[pos],
    ensures
        s.update(pos, b).len() == s.len(),
        spec_parse_header(s.update(pos, b)).magic != BIOLEPTIC_MAGIC,
{
    vstd::bytes::lemma_auto_spec_u32_to_from_le_bytes();
    let c = s.update(pos, b);
    let s4 = s.subrange(0, 4);
    let c4 = c.subrange(0, 4);
    assert(c4[pos] == b && s4[pos] == s[pos]);
    if vstd::bytes::spec_u32_from_le_bytes(c4) == BIOLEPTIC_MAGIC {
        assert(vstd::bytes::spec_u32_to_le_bytes(vstd::bytes::spec_u32_from_le_bytes(c4)) == c4);
        assert(vstd::bytes::spec_u32_to_le_bytes(vstd::bytes::spec_u32_from_le_bytes(s4)) == s4);
        assert(c4 == s4);
        assert(false);
    }
}

/// Corrupting either version byte of a stream whose header validation
/// accepts leaves the magic intact but makes the parsed version wrong, so
/// by the parsing contract the stream is rejected with `InvalidVersion`.
pub proof fn lemma_corrupted_version_rejected(s: Seq<u8>, pos: int, b: u8)
    requires
        spec_header_ok(s),
        4 <= pos < 6,
        b != s[pos],
    ensures
        s.update(pos, b).len() == s.len(),
        spec_parse_header(s.update(pos, b)).magic == BIOLEPTIC_MAGIC,
        spec_parse_header(s.update(pos, b)).version != BIOLEPTIC_VERSION,
{
    vstd::bytes::lemma_auto_spec_u32_to_from_le_bytes();
    vstd::bytes::lemma_auto_spec_u16_to_from_le_bytes();
    let c = s.update(pos, b);
    assert(c.subrange(0, 4) =~= s.subrange(0, 4));
    let s2 = s.subrange(4, 6);
    let c2 = c.subrange(4, 6);
    assert(c2[pos - 4] == b && s2[pos - 4] == s[pos]);
    if vstd::bytes::spec_u16_from_le_bytes(c2) == BIOLEPTIC_VERSION {
        assert(vstd::bytes::spec_u16_to_le_bytes(vstd::bytes::spec_u16_from_le_bytes(c2)) == c2);
        assert(vstd::bytes::spec_u16_to_le_bytes(vstd::bytes::spec_u16_from_le_bytes(s2)) == s2);
        assert(c2 == s2);
        assert(false);
    }
}

/// Any header that strict validation accepts round-trips: parsing its exact
/// 52-byte encoding yields it back, field for field.
pub proof fn lemma_header_round_trip(h: BiolepticHeader)
    requires
        spec_header_valid(h),
    ensures
        spec_header_bytes(h).len() == BIOLEPTIC_HEADER_SIZE,
        spec_header_ok(spec_header_bytes(h)),
        spec_parse_header(spec_header_bytes(h)) == h,
{
    let s = spec_header_bytes(h);
    vstd::bytes::lemma_auto_spec_u32_to_from_le_bytes();
    vstd::bytes::lemma_auto_spec_u16_to_from_le_bytes();
    vstd::bytes::lemma_auto_spec_u64_to_from_le_bytes();
    assert(s.len() == 52);
    assert(s.subrange(0, 4) =~= spec_u32_to_le_bytes(h.magic));
    assert(s.subrange(4, 6) =~= spec_u16_to_le_bytes(h.version));
    assert(s.subrange(6, 8) =~= spec_u16_to_le_bytes(h.data_type));
    assert(s.subrange(8, 12) =~= spec_u32_to_le_bytes(h.compression_method));
    assert(s[12] == h.levels);
    assert(s[13] == h.scale);
    assert(s.subrange(14, 16) =~= spec_u16_to_le_bytes(h.reserved0));
    assert(s.subrange(16, 20) =~= spec_u32_to_le_bytes(h.signal_length));
    assert(s.subrange(20, 24) =~= spec_u32_to_le_bytes(h.min));
    assert(s.subrange(24, 28) =~= spec_u32_to_le_bytes(h.max));
    assert(s.subrange(28, 32) =~= spec_u32_to_le_bytes(h.mean));
    assert(s.subrange(32, 36) =~= spec_u32_to_le_bytes(h.compressed_size));
    assert(s.subrange(36, 44) =~= vstd::bytes::spec_u64_to_le_bytes(h.reserved1_lo));
    assert(s.subrange(44, 52) =~= vstd::bytes::spec_u64_to_le_bytes(h.reserved1_hi));
}

} // verus!
