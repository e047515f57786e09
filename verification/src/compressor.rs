//! Compression options and the compression half of the codec pipeline.

use crate::error::BiolepticError;
use crate::header::{
    BiolepticHeader, CompressionMethod, DataType, spec_header_bytes, BIOLEPTIC_MAGIC,
    BIOLEPTIC_VERSION, FLOAT32_TAG,
};
use vstd::bytes::{spec_u16_to_le_bytes, u16_to_le_bytes};
use vstd::prelude::*;

verus! {

/// How aggressively small detail coefficients are discarded.
#[derive(Copy, Clone, Debug, PartialEq, Eq, Structural)]
pub enum CutoffLevel {
    Low,
    Medium,
    High,
}

impl Default for CutoffLevel {
    /// The default cutoff discards the least detail.
    fn default() -> (r: Self)
        ensures
            r == CutoffLevel::Low,
    {
        CutoffLevel::Low
    }
}

/// Quantization scale: coefficients are multiplied by `1 << scale` before
/// being clamped to `i16`.  Only scales 6..=12 are supported.
#[derive(Copy, Clone, Debug, PartialEq, Eq, Structural)]
pub enum QuantizationScale {
    S6,
    S7,
    S8,
    S9,
    S10,
    S11,
    S12,
}

impl QuantizationScale {
    /// The scale as a mathematical shift amount.
    pub open spec fn spec_as_u8(self) -> u8 {
        match self {
            QuantizationScale::S6 => 6,
            QuantizationScale::S7 => 7,
            QuantizationScale::S8 => 8,
            QuantizationScale::S9 => 9,
            QuantizationScale::S10 => 10,
            QuantizationScale::S11 => 11,
            QuantizationScale::S12 => 12,
        }
    }

    /// Returns the scale as a raw `u8` shift amount.
    pub fn as_u8(self) -> (r: u8)
        ensures
            r == self.spec_as_u8(),
    {
        match self {
            QuantizationScale::S6 => 6,
            QuantizationScale::S7 => 7,
            QuantizationScale::S8 => 8,
            QuantizationScale::S9 => 9,
            QuantizationScale::S10 => 10,
            QuantizationScale::S11 => 11,
            QuantizationScale::S12 => 12,
        }
    }

    /// Parses a raw scale byte; bytes outside 6..=12 are rejected.
    pub fn try_from(value: u8) -> (r: Result<Self, BiolepticError>)
        ensures
            6 <= value <= 12 ==> (r matches Ok(s) && s.spec_as_u8() == value),
            !(6 <= value <= 12) ==> r == Err::<Self, _>(
                BiolepticError::InvalidQuantizationScale(value),
            ),
    {
        match value {
            6 => Ok(QuantizationScale::S6),
            7 => Ok(QuantizationScale::S7),
            8 => Ok(QuantizationScale::S8),
            9 => Ok(QuantizationScale::S9),
            10 => Ok(QuantizationScale::S10),
            11 => Ok(QuantizationScale::S11),
            12 => Ok(QuantizationScale::S12),
            _ => Err(BiolepticError::InvalidQuantizationScale(value)),
        }
    }
}

impl Default for QuantizationScale {
    /// The default scale multiplies coefficients by `1 << 11`.
    fn default() -> (r: Self)
        ensures
            r == QuantizationScale::S11,
    {
        QuantizationScale::S11
    }
}

/// Validated codec configuration: transform method, quantization scale and
/// cutoff level.
#[derive(Copy, Clone, Debug, PartialEq, Eq, Structural)]
pub struct CompressionOptions {
    pub method: CompressionMethod,
    pub scale: QuantizationScale,
    pub cutoff_level: CutoffLevel,
}

impl Default for CompressionOptions {
    /// The default configuration: CDF 9/7, scale 11, low cutoff.
    fn default() -> (r: Self)
        ensures
            r == (CompressionOptions {
                method: CompressionMethod::Cdf97,
                scale: QuantizationScale::S11,
                cutoff_level: CutoffLevel::Low,
            }),
    {
        CompressionOptions {
            method: CompressionMethod::Cdf97,
            scale: QuantizationScale::S11,
            cutoff_level: CutoffLevel::Low,
        }
    }
}

impl CompressionOptions {
    /// The default configuration with another transform method.
    pub fn from_method(method: CompressionMethod) -> (r: Self)
        ensures
            r == (CompressionOptions {
                method,
                scale: QuantizationScale::S11,
                cutoff_level: CutoffLevel::Low,
            }),
    {
        let mut q = Self::default();
        q.method = method;
        q
    }
}

/// The base threshold assigned to each quantization scale.
pub open spec fn spec_base_threshold(scale: QuantizationScale) -> u16 {
    match scale {
        QuantizationScale::S6 => 1,
        QuantizationScale::S7 => 1,
        QuantizationScale::S8 => 2,
        QuantizationScale::S9 => 2,
        QuantizationScale::S10 => 3,
        QuantizationScale::S11 => 3,
        QuantizationScale::S12 => 4,
    }
}

/// The multiplier each cutoff level applies to the base threshold.
pub open spec fn spec_cutoff_factor(cutoff_level: CutoffLevel) -> u16 {
    match cutoff_level {
        CutoffLevel::Low => 1,
        CutoffLevel::Medium => 3,
        CutoffLevel::High => 7,
    }
}

/// The magnitude below which a quantized detail coefficient is discarded.
pub open spec fn spec_threshold_value(scale: QuantizationScale, cutoff_level: CutoffLevel) -> u16 {
    (spec_base_threshold(scale) * spec_cutoff_factor(cutoff_level)) as u16
}

/// The absolute value of an `i16`, as a mathematical integer.
pub open spec fn spec_abs_i16(v: i16) -> int {
    if v < 0 {
        -(v as int)
    } else {
        v as int
    }
}

/// A coefficient sequence with every entry of magnitude below `t` zeroed.
pub open spec fn spec_apply_threshold(s: Seq<i16>, t: int) -> Seq<i16> {
    s.map_values(|v: i16| if spec_abs_i16(v) < t { 0i16 } else { v })
}

/// How many entries of a coefficient sequence are zero.
pub open spec fn spec_count_zeros(s: Seq<i16>) -> int
    decreases s.len(),
{
    if s.len() == 0 {
        0
    } else {
        spec_count_zeros(s.drop_last()) + if s.last() == 0i16 {
            1int
        } else {
            0int
        }
    }
}

/// Zeroes every detail coefficient whose magnitude is below the threshold
/// selected by the scale and cutoff level.
pub fn threshold(details: &mut Vec<i16>, scale: QuantizationScale, cutoff_level: CutoffLevel)
    ensures
        final(details)@ == spec_apply_threshold(
            old(details)@,
            spec_threshold_value(scale, cutoff_level) as int,
        ),
{
    let base: u16 = match scale {
        QuantizationScale::S6 => 1,
        QuantizationScale::S7 => 1,
        QuantizationScale::S8 => 2,
        QuantizationScale::S9 => 2,
        QuantizationScale::S10 => 3,
        QuantizationScale::S11 => 3,
        QuantizationScale::S12 => 4,
    };
    let factor: u16 = match cutoff_level {
        CutoffLevel::Low => 1,
        CutoffLevel::Medium => 3,
        CutoffLevel::High => 7,
    };
    let t: u16 = base * factor;
    let ghost target = spec_apply_threshold(old(details)@, t as int);
    let n = details.len();
    let mut i: usize = 0;
    while i < n
        invariant
            0 <= i <= n,
            details@.len() == n,
            target == spec_apply_threshold(old(details)@, t as int),
            target.len() == n,
            forall|j: int| 0 <= j < i ==> details@[j] == target[j],
            forall|j: int| i <= j < n ==> details@[j] == old(details)@[j],
        decreases n - i,
    {
        let v = details[i];
        let mag: u16 = if v >= 0 {
            v as u16
        } else {
            (-(v as i32)) as u16
        };
        if mag < t {
            details.set(i, 0);
        }
        i = i + 1;
    }
    proof {
        assert(details@ =~= target);
    }
}

/// An entry that the smaller threshold zeroes, the larger zeroes too, so the
/// zero count never decreases as the threshold grows.
proof fn lemma_threshold_zeros_monotonic(s: Seq<i16>, t1: int, t2: int)
    requires
        t1 <= t2,
    ensures
        spec_count_zeros(spec_apply_threshold(s, t1)) <= spec_count_zeros(
            spec_apply_threshold(s, t2),
        ),
    decreases s.len(),
{
    if s.len() > 0 {
        lemma_threshold_zeros_monotonic(s.drop_last(), t1, t2);
        assert(spec_apply_threshold(s, t1).drop_last() =~= spec_apply_threshold(
            s.drop_last(),
            t1,
        ));
        assert(spec_apply_threshold(s, t2).drop_last() =~= spec_apply_threshold(
            s.drop_last(),
            t2,
        ));
    }
}

/// Whether a `u32` is the bit pattern of an `f32` NaN.
pub open spec fn spec_is_nan_bits(b: u32) -> bool {
    (b >> 23) & 0xFF == 0xFF && b & 0x007F_FFFF != 0
}

/// Non-finite substitution on an `f32` bit pattern: finite values pass
/// through, NaN and negative infinity become `0.0`, positive infinity
/// becomes `1.0`.
pub open spec fn spec_substitute_bits(b: u32) -> u32 {
    if crate::header::spec_is_finite_bits(b) {
        b
    } else if spec_is_nan_bits(b) {
        0
    } else if b >= 0x8000_0000 {
        0
    } else {
        0x3F80_0000
    }
}

/// A whole signal of `f32` bit patterns after non-finite substitution.
pub open spec fn spec_substituted(s: Seq<u32>) -> Seq<u32> {
    s.map_values(|b: u32| spec_substitute_bits(b))
}

/// The numeric order of finite `f32` values as a function of their bit
/// patterns: sign-magnitude patterns mapped to a signed key that is
/// monotone in the value the pattern denotes.
pub open spec fn spec_f32_key(b: u32) -> int {
    if b >= 0x8000_0000 {
        0x8000_0000 - b
    } else {
        b as int
    }
}

/// Applies non-finite substitution to one sample.
pub fn substitute_bits(b: u32) -> (r: u32)
    ensures
        r == spec_substitute_bits(b),
{
    if (b >> 23) & 0xFF != 0xFF {
        b
    } else if b & 0x007F_FFFF != 0 {
        0
    } else if b >= 0x8000_0000 {
        0
    } else {
        0x3F80_0000
    }
}

/// Compares two `f32` bit patterns by the numeric order of the values they
/// denote.
fn key_le(a: u32, b: u32) -> (r: bool)
    ensures
        r == (spec_f32_key(a) <= spec_f32_key(b)),
{
    if a >= 0x8000_0000 {
        if b >= 0x8000_0000 {
            b <= a
        } else {
            true
        }
    } else {
        if b >= 0x8000_0000 {
            // only the two zero patterns compare equal across the sign split
            a == 0 && b == 0x8000_0000
        } else {
            a <= b
        }
    }
}

/// The largest sample count the compressor supports.
pub const MAX_SIGNAL_LENGTH: usize = 0x7FFF_FFFF;

/// Checks a sample count against the supported range: empty input and input
/// longer than the maximum supported count are the two rejected
/// configurations.
pub fn validate_signal_length(len: usize) -> (r: Result<(), BiolepticError>)
    ensures
        len == 0 ==> (r matches Err(e) && e matches
            BiolepticError::UnsupportedCompressorConfiguration(m)
            && m@ == "Can't compress empty data"@),
        len > MAX_SIGNAL_LENGTH ==> (r matches Err(e) && e matches
            BiolepticError::UnsupportedCompressorConfiguration(m)
            && m@ == "Can't compress data bigger than 2147483647"@),
        1 <= len <= MAX_SIGNAL_LENGTH ==> r is Ok,
{
    if len == 0 {
        Err(
            BiolepticError::UnsupportedCompressorConfiguration(
                "Can't compress empty data".to_string(),
            ),
        )
    } else if len > MAX_SIGNAL_LENGTH {
        Err(
            BiolepticError::UnsupportedCompressorConfiguration(
                "Can't compress data bigger than 2147483647".to_string(),
            ),
        )
    } else {
        Ok(())
    }
}

/// Validates the input length and applies non-finite substitution, tracking
/// the minimum and maximum of the substituted signal.
///
/// Empty input and input longer than the maximum supported sample count are
/// the only rejected configurations; otherwise the substituted signal is
/// returned together with the bit patterns of its minimum and maximum.
pub fn prepare_samples(data: &Vec<u32>) -> (r: Result<(Vec<u32>, u32, u32), BiolepticError>)
    ensures
        data@.len() == 0 ==> (r matches Err(e) && e matches
            BiolepticError::UnsupportedCompressorConfiguration(m)
            && m@ == "Can't compress empty data"@),
        data@.len() > MAX_SIGNAL_LENGTH ==> (r matches Err(e) && e matches
            BiolepticError::UnsupportedCompressorConfiguration(m)
            && m@ == "Can't compress data bigger than 2147483647"@),
        1 <= data@.len() <= MAX_SIGNAL_LENGTH ==> (r matches Ok(t) && {
            let (subst, min, max) = t;
            &&& subst@ == spec_substituted(data@)
            &&& exists|j: int| 0 <= j < subst@.len() && min == subst@[j]
            &&& exists|j: int| 0 <= j < subst@.len() && max == subst@[j]
            &&& forall|j: int|
                0 <= j < subst@.len() ==> spec_f32_key(min) <= spec_f32_key(#[trigger] subst@[j])
            &&& forall|j: int|
                0 <= j < subst@.len() ==> spec_f32_key(#[trigger] subst@[j]) <= spec_f32_key(max)
        }),
{
    let n = data.len();
    if let Err(e) = validate_signal_length(n) {
        return Err(e);
    }
    let mut subst: Vec<u32> = Vec::new();
    let first = substitute_bits(data[0]);
    subst.push(first);
    let mut v_min = first;
    let mut v_max = first;
    proof {
        assert(subst@[0] == first);
    }
    let mut i: usize = 1;
    while i < n
        invariant
            1 <= i <= n,
            data@.len() == n,
            subst@.len() == i,
            forall|j: int| 0 <= j < i ==> subst@[j] == spec_substitute_bits(data@[j]),
            exists|j: int| 0 <= j < i && v_min == subst@[j],
            exists|j: int| 0 <= j < i && v_max == subst@[j],
            forall|j: int|
                0 <= j < i ==> spec_f32_key(v_min) <= spec_f32_key(#[trigger] subst@[j]),
            forall|j: int|
                0 <= j < i ==> spec_f32_key(#[trigger] subst@[j]) <= spec_f32_key(v_max),
        decreases n - i,
    {
        let ghost old_subst = subst@;
        let ghost old_min = v_min;
        let ghost old_max = v_max;
        let v = substitute_bits(data[i]);
        subst.push(v);
        if !key_le(v_min, v) {
            v_min = v;
        }
        if !key_le(v, v_max) {
            v_max = v;
        }
        proof {
            assert(subst@[i as int] == v);
            if v_min == v && !(spec_f32_key(old_min) <= spec_f32_key(v)) {
                assert(exists|j: int| 0 <= j < i + 1 && v_min == subst@[j]);
            } else {
                let j = choose|j: int| 0 <= j < i && old_min == old_subst[j];
                assert(subst@[j] == old_min);
                assert(exists|j: int| 0 <= j < i + 1 && v_min == subst@[j]);
            }
            if v_max == v && !(spec_f32_key(v) <= spec_f32_key(old_max)) {
                assert(exists|j: int| 0 <= j < i + 1 && v_max == subst@[j]);
            } else {
                let j = choose|j: int| 0 <= j < i && old_max == old_subst[j];
                assert(subst@[j] == old_max);
                assert(exists|j: int| 0 <= j < i + 1 && v_max == subst@[j]);
            }
        }
        i = i + 1;
    }
    proof {
        assert(subst@ =~= spec_substituted(data@));
    }
    Ok((subst, v_min, v_max))
}

/// The fixed decomposition level count used for a given sample count.
pub open spec fn spec_select_levels(n: int) -> u8 {
    if n < 20 {
        1
    } else if n < 40 {
        2
    } else if n < 60 {
        3
    } else if n < 80 {
        4
    } else {
        5
    }
}

/// Picks the decomposition level count from the sample count, by the codec's
/// fixed lookup table.
pub fn select_levels(n: usize) -> (r: u8)
    ensures
        r == spec_select_levels(n as int),
{
    if n < 20 {
        1
    } else if n < 40 {
        2
    } else if n < 60 {
        3
    } else if n < 80 {
        4
    } else {
        5
    }
}

/// The `u16` with the same bit pattern as an `i16`.
pub open spec fn spec_u16_of_i16(x: i16) -> u16 {
    if x >= 0 {
        x as u16
    } else {
        (x + 0x10000) as u16
    }
}

/// The `i16` with the same bit pattern as a `u16`.
pub open spec fn spec_i16_of_u16(u: u16) -> i16 {
    if u < 0x8000 {
        u as i16
    } else {
        (u - 0x10000) as i16
    }
}

/// The two little-endian bytes of an `i16`.
pub open spec fn spec_i16_le_bytes(x: i16) -> Seq<u8> {
    spec_u16_to_le_bytes(spec_u16_of_i16(x))
}

/// A whole `i16` sequence serialized to little-endian bytes.
pub open spec fn spec_i16_seq_le_bytes(s: Seq<i16>) -> Seq<u8>
    decreases s.len(),
{
    if s.len() == 0 {
        Seq::empty()
    } else {
        spec_i16_seq_le_bytes(s.drop_last()) + spec_i16_le_bytes(s.last())
    }
}

/// A sequence of coefficient arrays flattened into one sequence.
pub open spec fn spec_concat_seqs(s: Seq<Seq<i16>>) -> Seq<i16>
    decreases s.len(),
{
    if s.len() == 0 {
        Seq::empty()
    } else {
        spec_concat_seqs(s.drop_last()) + s.last()
    }
}

/// The total entry count of a sequence of coefficient arrays.
pub open spec fn spec_total_len(s: Seq<Seq<i16>>) -> int
    decreases s.len(),
{
    if s.len() == 0 {
        0
    } else {
        spec_total_len(s.drop_last()) + s.last().len()
    }
}

/// Every per-level detail array with the same threshold applied.
pub open spec fn spec_thresholded(s: Seq<Seq<i16>>, t: int) -> Seq<Seq<i16>> {
    s.map_values(|d: Seq<i16>| spec_apply_threshold(d, t))
}

/// The coefficient views of a vector of detail arrays.
pub open spec fn spec_detail_views(details: Seq<Vec<i16>>) -> Seq<Seq<i16>> {
    details.map_values(|d: Vec<i16>| d@)
}

pub(crate) proof fn lemma_total_len_take_step(s: Seq<Seq<i16>>, k: int)
    requires
        0 <= k < s.len(),
    ensures
        spec_total_len(s.take(k + 1)) == spec_total_len(s.take(k)) + s[k].len(),
{
    assert(s.take(k + 1).drop_last() =~= s.take(k));
    assert(s.take(k + 1).last() == s[k]);
}

pub(crate) proof fn lemma_total_len_take_le(s: Seq<Seq<i16>>, k: int)
    requires
        0 <= k <= s.len(),
    ensures
        spec_total_len(s.take(k)) <= spec_total_len(s),
    decreases s.len() - k,
{
    if k == s.len() {
        assert(s.take(k) =~= s);
    } else {
        lemma_total_len_take_step(s, k);
        lemma_total_len_take_le(s, k + 1);
    }
}

/// Flattening a sequence of arrays yields exactly their total entry count.
pub(crate) proof fn lemma_concat_len(s: Seq<Seq<i16>>)
    ensures
        spec_concat_seqs(s).len() == spec_total_len(s),
    decreases s.len(),
{
    if s.len() > 0 {
        lemma_concat_len(s.drop_last());
    }
}

/// Each array of a flattened sequence sits at the offset given by the total
/// length of the arrays before it.
pub(crate) proof fn lemma_concat_slice(s: Seq<Seq<i16>>, k: int)
    requires
        0 <= k < s.len(),
    ensures
        spec_total_len(s.take(k)) >= 0,
        spec_total_len(s.take(k)) + s[k].len() <= spec_total_len(s),
        spec_concat_seqs(s).subrange(
            spec_total_len(s.take(k)),
            spec_total_len(s.take(k)) + s[k].len(),
        ) == s[k],
    decreases s.len(),
{
    lemma_concat_len(s);
    lemma_total_len_take_step(s, k);
    lemma_total_len_take_le(s, k + 1);
    lemma_concat_len(s.take(k));
    lemma_concat_len(s.drop_last());
    let off = spec_total_len(s.take(k));
    if k == s.len() - 1 {
        assert(s.take(k) =~= s.drop_last());
        assert(spec_concat_seqs(s).subrange(off, off + s[k].len()) =~= s[k]);
    } else {
        lemma_concat_slice(s.drop_last(), k);
        assert(s.drop_last().take(k) =~= s.take(k));
        lemma_total_len_take_le(s.drop_last(), k + 1);
        assert(spec_concat_seqs(s).subrange(off, off + s[k].len()) =~= spec_concat_seqs(
            s.drop_last(),
        ).subrange(off, off + s[k].len()));
    }
}

/// Reinterprets an `i16` as the `u16` with the same bit pattern.
fn u16_of_i16(x: i16) -> (r: u16)
    ensures
        r == spec_u16_of_i16(x),
{
    if x >= 0 {
        x as u16
    } else {
        ((x as i32) + 0x10000) as u16
    }
}

/// Reinterprets a `u16` as the `i16` with the same bit pattern.
pub(crate) fn i16_of_u16(u: u16) -> (r: i16)
    ensures
        r == spec_i16_of_u16(u),
{
    if u < 0x8000 {
        u as i16
    } else {
        ((u as i32) - 0x10000) as i16
    }
}

/// Serializes a packed coefficient sequence to little-endian bytes.
fn i16_seq_to_le_bytes(packed: &Vec<i16>) -> (r: Vec<u8>)
    ensures
        r@ == spec_i16_seq_le_bytes(packed@),
{
    let mut bytes: Vec<u8> = Vec::new();
    let m = packed.len();
    let mut idx: usize = 0;
    while idx < m
        invariant
            0 <= idx <= m,
            packed@.len() == m,
            bytes@ == spec_i16_seq_le_bytes(packed@.take(idx as int)),
        decreases m - idx,
    {
        let u = u16_of_i16(packed[idx]);
        let mut b2 = u16_to_le_bytes(u);
        bytes.append(&mut b2);
        proof {
            assert(packed@.take(idx + 1).drop_last() =~= packed@.take(idx as int));
            assert(packed@.take(idx + 1).last() == packed@[idx as int]);
        }
        idx = idx + 1;
    }
    proof {
        assert(packed@.take(m as int) =~= packed@);
    }
    bytes
}

/// The packed coefficient sequence a compression call serializes: the
/// approximation block followed by every thresholded detail array.
pub open spec fn spec_packed_coefficients(
    approximation: Seq<i16>,
    details: Seq<Seq<i16>>,
    options: CompressionOptions,
) -> Seq<i16> {
    let t = spec_threshold_value(options.scale, options.cutoff_level) as int;
    approximation + spec_concat_seqs(spec_thresholded(details, t))
}

/// The header and payload a successful compression call emits for the given
/// quantized coefficients and statistics.
pub open spec fn spec_compressed_stream(
    approximation: Seq<i16>,
    details: Seq<Seq<i16>>,
    options: CompressionOptions,
    levels: u8,
    signal_length: u32,
    min: u32,
    max: u32,
    mean: u32,
) -> Seq<u8> {
    let t = spec_threshold_value(options.scale, options.cutoff_level) as int;
    let packed = approximation + spec_concat_seqs(spec_thresholded(details, t));
    let payload = crate::entropy::zstd_encode_of(spec_i16_seq_le_bytes(packed));
    spec_header_bytes(
        BiolepticHeader {
            magic: BIOLEPTIC_MAGIC,
            version: BIOLEPTIC_VERSION,
            data_type: FLOAT32_TAG,
            compression_method: options.method.spec_tag(),
            levels,
            scale: options.scale.spec_as_u8(),
            reserved0: 0u16,
            signal_length,
            min,
            max,
            mean,
            compressed_size: payload.len() as u32,
            reserved1_lo: 0u64,
            reserved1_hi: 0u64,
        },
    ) + payload
}

/// Thresholds, packs and entropy-encodes quantized coefficients, then
/// prepends the header: the verified tail of the compression pipeline.
///
/// The detail arrays are taken in forward-transform level order, finest
/// first; the approximation is the final level's.  A zero-level transform
/// result is rejected; buffer growth for packing is a fallible reservation
/// surfaced as an out-of-memory error; an entropy-codec failure, or a
/// payload too long for the header to record, is surfaced as an underlying
/// compressor error.
pub fn compress_quantized(
    approximation: Vec<i16>,
    details: Vec<Vec<i16>>,
    options: CompressionOptions,
    levels: u8,
    signal_length: u32,
    min: u32,
    max: u32,
    mean: u32,
) -> (r: Result<Vec<u8>, BiolepticError>)
    requires
        approximation@.len() + spec_total_len(spec_detail_views(details@)) <= usize::MAX,
    ensures
        details@.len() == 0 ==> (r matches Err(e) && e matches BiolepticError::UnderlyingDwtError(
            m,
        ) && m@ == "Internal DWT returned zero levels, what shouldn't happen"@),
        r matches Ok(out) ==> details@.len() > 0 && {
            let stream = spec_compressed_stream(
                approximation@,
                spec_detail_views(details@),
                options,
                levels,
                signal_length,
                min,
                max,
                mean,
            );
            let packed_bytes = spec_i16_seq_le_bytes(
                spec_packed_coefficients(approximation@, spec_detail_views(details@), options),
            );
            &&& out@ == stream
            &&& stream.len() <= 52 + 0xFFFF_FFFFu64
            &&& crate::entropy::zstd_decode_of(crate::entropy::zstd_encode_of(packed_bytes))
                == Some(packed_bytes)
        },
        r matches Err(e) ==> match e {
            BiolepticError::UnderlyingDwtError(_) => details@.len() == 0,
            BiolepticError::OutOfMemoryError(sz) => sz == spec_total_len(
                spec_detail_views(details@),
            ),
            BiolepticError::UnderlyingCompressorError(_) => true,
            _ => false,
        },
{
    let ghost dv = spec_detail_views(details@);
    let ghost t = spec_threshold_value(options.scale, options.cutoff_level) as int;
    let ghost tdv = spec_thresholded(dv, t);
    let mut packed = approximation;
    let ghost approx0 = packed@;
    let mut work = details;

    if work.len() == 0 {
        return Err(
            BiolepticError::UnderlyingDwtError(
                "Internal DWT returned zero levels, what shouldn't happen".to_string(),
            ),
        );
    }
    let n_levels = work.len();
    let mut k: usize = 0;
    while k < n_levels
        invariant
            0 <= k <= n_levels,
            work@.len() == n_levels,
            dv.len() == n_levels,
            tdv == spec_thresholded(dv, t),
            t == spec_threshold_value(options.scale, options.cutoff_level) as int,
            forall|j: int| 0 <= j < k ==> (#[trigger] work@[j])@ == tdv[j],
            forall|j: int| k <= j < n_levels ==> (#[trigger] work@[j])@ == dv[j],
        decreases n_levels - k,
    {
        threshold(&mut work[k], options.scale, options.cutoff_level);
        k = k + 1;
    }

    // thresholding keeps every length, so the packed total is unchanged
    proof {
        lemma_total_len_eq_thresholded(dv, t);
    }
    let mut total: usize = 0;
    let mut k2: usize = 0;
    while k2 < n_levels
        invariant
            0 <= k2 <= n_levels,
            work@.len() == n_levels,
            tdv.len() == n_levels,
            forall|j: int| 0 <= j < n_levels ==> (#[trigger] work@[j])@ == tdv[j],
            total == spec_total_len(tdv.take(k2 as int)),
            spec_total_len(tdv) <= usize::MAX,
        decreases n_levels - k2,
    {
        proof {
            lemma_total_len_take_step(tdv, k2 as int);
            lemma_total_len_take_le(tdv, k2 + 1);
        }
        total = total + work[k2].len();
        k2 = k2 + 1;
    }
    proof {
        assert(tdv.take(n_levels as int) =~= tdv);
    }

    if packed.try_reserve(total).is_err() {
        return Err(BiolepticError::OutOfMemoryError(total));
    }

    let mut k3: usize = 0;
    while k3 < n_levels
        invariant
            0 <= k3 <= n_levels,
            work@.len() == n_levels,
            tdv.len() == n_levels,
            forall|j: int| 0 <= j < n_levels ==> (#[trigger] work@[j])@ == tdv[j],
            packed@ == approx0 + spec_concat_seqs(tdv.take(k3 as int)),
        decreases n_levels - k3,
    {
        let d_len = work[k3].len();
        let mut j: usize = 0;
        while j < d_len
            invariant
                0 <= j <= d_len,
                0 <= k3 < n_levels,
                work@.len() == n_levels,
                tdv.len() == n_levels,
                (work@[k3 as int])@ == tdv[k3 as int],
                d_len == tdv[k3 as int].len(),
                packed@ == approx0 + spec_concat_seqs(tdv.take(k3 as int)) + tdv[k3 as int].take(
                    j as int,
                ),
            decreases d_len - j,
        {
            let val = work[k3][j];
            packed.push(val);
            proof {
                assert(tdv[k3 as int].take(j + 1) =~= tdv[k3 as int].take(j as int).push(
                    tdv[k3 as int][j as int],
                ));
            }
            j = j + 1;
        }
        proof {
            assert(tdv.take(k3 + 1).drop_last() =~= tdv.take(k3 as int));
            assert(tdv.take(k3 + 1).last() == tdv[k3 as int]);
            assert(tdv[k3 as int].take(d_len as int) =~= tdv[k3 as int]);
            assert(packed@ =~= approx0 + spec_concat_seqs(tdv.take(k3 + 1)));
        }
        k3 = k3 + 1;
    }
    proof {
        assert(tdv.take(n_levels as int) =~= tdv);
    }

    let bytes = i16_seq_to_le_bytes(&packed);

    let payload = match crate::entropy::zstd_encode(bytes.as_slice()) {
        Ok(p) => p,
        Err(e) => {
            return Err(BiolepticError::UnderlyingCompressorError(e));
        },
    };
    if payload.len() > 0xFFFF_FFFFusize {
        return Err(
            BiolepticError::UnderlyingCompressorError(
                "Compressed payload exceeds the maximum size the header can record".to_string(),
            ),
        );
    }

    let header = BiolepticHeader::new(
        DataType::Float32,
        options.method,
        levels,
        options.scale,
        signal_length,
        min,
        max,
        mean,
        payload.len() as u32,
    );
    let mut out = header.to_bytes();
    let mut p = payload;
    out.append(&mut p);
    Ok(out)
}

/// Thresholding maps each array entry-for-entry, so total lengths agree.
proof fn lemma_total_len_eq_thresholded(s: Seq<Seq<i16>>, t: int)
    ensures
        spec_total_len(spec_thresholded(s, t)) == spec_total_len(s),
    decreases s.len(),
{
    if s.len() > 0 {
        lemma_total_len_eq_thresholded(s.drop_last(), t);
        assert(spec_thresholded(s, t).drop_last() =~= spec_thresholded(s.drop_last(), t));
        assert(spec_thresholded(s, t).last() == spec_apply_threshold(s.last(), t));
    }
}

/// Thresholding monotonicity: for a fixed scale, a cutoff level with a
/// factor at least as large never zeroes fewer detail coefficients.
pub proof fn lemma_cutoff_monotonic(
    s: Seq<i16>,
    scale: QuantizationScale,
    c1: CutoffLevel,
    c2: CutoffLevel,
)
    requires
        spec_cutoff_factor(c1) <= spec_cutoff_factor(c2),
    ensures
        spec_count_zeros(spec_apply_threshold(s, spec_threshold_value(scale, c1) as int))
            <= spec_count_zeros(spec_apply_threshold(s, spec_threshold_value(scale, c2) as int)),
{
    lemma_threshold_zeros_monotonic(
        s,
        spec_threshold_value(scale, c1) as int,
        spec_threshold_value(scale, c2) as int,
    );
}

} // verus!
