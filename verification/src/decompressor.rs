//! The decompression half of the pipeline: header validation, level
//! geometry, entropy decoding and coefficient slicing.
//!
//! The per-level coefficient geometry is recomputed deterministically from
//! the signal length: level 0 derives from the signal length via the
//! transform engine's size mapping, and each further level from the
//! previous level's approximation length.  The mapping is the one each
//! wavelet executor of the osclet crate publishes (`dwt_size`), stated here
//! as a verified integer function, so every slice bound below is validated
//! before use and no input can cause an out-of-bounds read.

use crate::compressor::{i16_of_u16, spec_i16_of_u16};
use crate::entropy::{zstd_decode, zstd_decode_of};
use crate::error::BiolepticError;
use crate::header::{
    BiolepticHeader, CompressionMethod, BIOLEPTIC_HEADER_SIZE, BIOLEPTIC_MAGIC, BIOLEPTIC_VERSION,
    spec_header_ok, spec_parse_header,
};
use vstd::prelude::*;

verus! {

/// The approximation length one decomposition level produces from an input
/// of length `n`.
pub open spec fn spec_dwt_approx_len(method: CompressionMethod, n: int) -> int {
    match method {
        CompressionMethod::Cdf53 => if (n + 1) / 2 < 2 {
            2
        } else {
            (n + 1) / 2
        },
        CompressionMethod::Cdf97 => if (n + 1) / 2 < 2 {
            2
        } else {
            (n + 1) / 2
        },
        CompressionMethod::Db4 => (n + 7) / 2,
        CompressionMethod::Sym4 => (n + 7) / 2,
    }
}

/// The detail length one decomposition level produces from an input of
/// length `n`.
pub open spec fn spec_dwt_detail_len(method: CompressionMethod, n: int) -> int {
    match method {
        CompressionMethod::Cdf53 => if n / 2 < 1 {
            1
        } else {
            n / 2
        },
        CompressionMethod::Cdf97 => if n / 2 < 2 {
            2
        } else {
            n / 2
        },
        CompressionMethod::Db4 => (n + 7) / 2,
        CompressionMethod::Sym4 => (n + 7) / 2,
    }
}

/// The approximation length after `k + 1` decomposition levels of a signal
/// of length `n`.
pub open spec fn spec_level_approx(method: CompressionMethod, n: int, k: int) -> int
    decreases k,
{
    if k <= 0 {
        spec_dwt_approx_len(method, n)
    } else {
        spec_dwt_approx_len(method, spec_level_approx(method, n, k - 1))
    }
}

/// The detail length of decomposition level `k` of a signal of length `n`.
pub open spec fn spec_level_detail(method: CompressionMethod, n: int, k: int) -> int {
    if k <= 0 {
        spec_dwt_detail_len(method, n)
    } else {
        spec_dwt_detail_len(method, spec_level_approx(method, n, k - 1))
    }
}

/// The packed offset of level `k`'s details, counted from the end of the
/// approximation block: the sum of all finer levels' detail lengths.
pub open spec fn spec_detail_offset(method: CompressionMethod, n: int, k: int) -> int
    decreases k,
{
    if k <= 0 {
        0
    } else {
        spec_detail_offset(method, n, k - 1) + spec_level_detail(method, n, k - 1)
    }
}

/// Computes the one-level output geometry for an input length: the
/// transform engine's size mapping for each supported wavelet.
pub fn dwt_size(method: CompressionMethod, input_length: usize) -> (r: (usize, usize))
    requires
        input_length <= 0x7FFF_FFFF,
    ensures
        r.0 == spec_dwt_approx_len(method, input_length as int),
        r.1 == spec_dwt_detail_len(method, input_length as int),
        2 <= r.0 <= 0x4000_0004,
        1 <= r.1 <= 0x4000_0004,
{
    match method {
        CompressionMethod::Cdf53 => {
            let a = (input_length + 1) / 2;
            let d = input_length / 2;
            (if a < 2 { 2 } else { a }, if d < 1 { 1 } else { d })
        },
        CompressionMethod::Cdf97 => {
            let a = (input_length + 1) / 2;
            let d = input_length / 2;
            (if a < 2 { 2 } else { a }, if d < 2 { 2 } else { d })
        },
        CompressionMethod::Db4 => {
            let l = (input_length + 7) / 2;
            (l, l)
        },
        CompressionMethod::Sym4 => {
            let l = (input_length + 7) / 2;
            (l, l)
        },
    }
}

/// Computes the `(approx_length, detail_length)` pair of every
/// decomposition level for a signal length, level `k` deriving from level
/// `k - 1`'s approximation length exactly as the forward transform did.
pub fn level_sizes(method: CompressionMethod, signal_length: usize, levels: usize) -> (r: Vec<
    (usize, usize),
>)
    requires
        signal_length <= 0x7FFF_FFFF,
        1 <= levels,
    ensures
        r@.len() == levels,
        forall|k: int|
            0 <= k < levels ==> {
                &&& (#[trigger] r@[k]).0 == spec_level_approx(method, signal_length as int, k)
                &&& r@[k].1 == spec_level_detail(method, signal_length as int, k)
                &&& 2 <= r@[k].0 <= 0x4000_0004
                &&& 1 <= r@[k].1 <= 0x4000_0004
            },
{
    let mut r: Vec<(usize, usize)> = Vec::new();
    let first = dwt_size(method, signal_length);
    r.push(first);
    let mut k: usize = 1;
    while k < levels
        invariant
            1 <= k <= levels,
            r@.len() == k,
            forall|j: int|
                0 <= j < k ==> {
                    &&& (#[trigger] r@[j]).0 == spec_level_approx(method, signal_length as int, j)
                    &&& r@[j].1 == spec_level_detail(method, signal_length as int, j)
                    &&& 2 <= r@[j].0 <= 0x4000_0004
                    &&& 1 <= r@[j].1 <= 0x4000_0004
                },
        decreases levels - k,
    {
        let prev = r[k - 1].0;
        let next = dwt_size(method, prev);
        r.push(next);
        k = k + 1;
    }
    r
}

/// The `i16` sequence a little-endian byte sequence decodes to; a trailing
/// odd byte is ignored.
pub open spec fn spec_i16s_of_bytes(d: Seq<u8>) -> Seq<i16> {
    Seq::new(
        (d.len() / 2) as nat,
        |i: int| spec_i16_of_u16(vstd::bytes::spec_u16_from_le_bytes(d.subrange(2 * i, 2 * i + 2))),
    )
}

/// Reinterprets decoded payload bytes as a little-endian `i16` sequence.
fn le_bytes_to_i16s(d: &Vec<u8>) -> (r: Vec<i16>)
    ensures
        r@ == spec_i16s_of_bytes(d@),
{
    let mut r: Vec<i16> = Vec::new();
    let d_len = d.len();
    let count = d_len / 2;
    let mut idx: usize = 0;
    while idx < count
        invariant
            0 <= idx <= count,
            d_len == d@.len(),
            count == d@.len() / 2,
            r@.len() == idx,
            forall|j: int|
                0 <= j < idx ==> #[trigger] r@[j] == spec_i16_of_u16(
                    vstd::bytes::spec_u16_from_le_bytes(d@.subrange(2 * j, 2 * j + 2)),
                ),
        decreases count - idx,
    {
        let u = vstd::bytes::u16_from_le_bytes(
            vstd::slice::slice_subrange(d.as_slice(), 2 * idx, 2 * idx + 2),
        );
        r.push(i16_of_u16(u));
        idx = idx + 1;
    }
    proof {
        assert(r@ =~= spec_i16s_of_bytes(d@));
    }
    r
}

/// Every level's approximation length is at least 2 for a non-negative
/// input length.
proof fn lemma_level_approx_nonneg(method: CompressionMethod, n: int, k: int)
    requires
        n >= 0,
        k >= 0,
    ensures
        spec_level_approx(method, n, k) >= 2,
    decreases k,
{
    if k > 0 {
        lemma_level_approx_nonneg(method, n, k - 1);
    }
}

/// Every level's detail length is at least 1 for a non-negative input
/// length.
proof fn lemma_level_detail_pos(method: CompressionMethod, n: int, k: int)
    requires
        n >= 0,
        k >= 0,
    ensures
        spec_level_detail(method, n, k) >= 1,
{
    if k > 0 {
        lemma_level_approx_nonneg(method, n, k - 1);
    }
}

/// Per-level detail lengths are positive and offsets grow with the level,
/// so every slice of a sufficiently long coefficient sequence is in bounds.
proof fn lemma_detail_offset_monotonic(method: CompressionMethod, n: int, k1: int, k2: int)
    requires
        n >= 0,
        0 <= k1 <= k2,
    ensures
        spec_detail_offset(method, n, k1) <= spec_detail_offset(method, n, k2),
    decreases k2 - k1,
{
    if k1 < k2 {
        lemma_detail_offset_monotonic(method, n, k1, k2 - 1);
        lemma_level_detail_pos(method, n, k2 - 1);
    }
}

proof fn lemma_i16_seq_le_bytes_len(s: Seq<i16>)
    ensures
        crate::compressor::spec_i16_seq_le_bytes(s).len() == 2 * s.len(),
    decreases s.len(),
{
    vstd::bytes::lemma_auto_spec_u16_to_from_le_bytes();
    if s.len() > 0 {
        lemma_i16_seq_le_bytes_len(s.drop_last());
    }
}

proof fn lemma_i16_seq_le_bytes_index(s: Seq<i16>, i: int)
    requires
        0 <= i < s.len(),
    ensures
        crate::compressor::spec_i16_seq_le_bytes(s).subrange(2 * i, 2 * i + 2)
            == crate::compressor::spec_i16_le_bytes(s[i]),
    decreases s.len(),
{
    vstd::bytes::lemma_auto_spec_u16_to_from_le_bytes();
    lemma_i16_seq_le_bytes_len(s);
    lemma_i16_seq_le_bytes_len(s.drop_last());
    if i == s.len() - 1 {
        assert(crate::compressor::spec_i16_seq_le_bytes(s).subrange(2 * i, 2 * i + 2)
            =~= crate::compressor::spec_i16_le_bytes(s[i]));
    } else {
        lemma_i16_seq_le_bytes_index(s.drop_last(), i);
        assert(crate::compressor::spec_i16_seq_le_bytes(s).subrange(2 * i, 2 * i + 2)
            =~= crate::compressor::spec_i16_seq_le_bytes(s.drop_last()).subrange(
            2 * i,
            2 * i + 2,
        ));
    }
}

/// Serialization of packed coefficients is lossless: reinterpreting the
/// little-endian bytes of an `i16` sequence yields the sequence back
/// exactly.
pub proof fn lemma_i16_bytes_round_trip(s: Seq<i16>)
    ensures
        spec_i16s_of_bytes(crate::compressor::spec_i16_seq_le_bytes(s)) == s,
{
    vstd::bytes::lemma_auto_spec_u16_to_from_le_bytes();
    lemma_i16_seq_le_bytes_len(s);
    let b = crate::compressor::spec_i16_seq_le_bytes(s);
    assert forall|i: int| 0 <= i < s.len() implies spec_i16s_of_bytes(b)[i] == s[i] by {
        lemma_i16_seq_le_bytes_index(s, i);
        assert(b.subrange(2 * i, 2 * i + 2) == crate::compressor::spec_i16_le_bytes(s[i]));
        assert(vstd::bytes::spec_u16_from_le_bytes(
            vstd::bytes::spec_u16_to_le_bytes(crate::compressor::spec_u16_of_i16(s[i])),
        ) == crate::compressor::spec_u16_of_i16(s[i]));
        assert(spec_i16_of_u16(crate::compressor::spec_u16_of_i16(s[i])) == s[i]);
    }
    assert(spec_i16s_of_bytes(b) =~= s);
}

/// The header and quantized coefficient arrays recovered from an encoded
/// stream, ready for dequantization and inverse transformation.
pub struct DecodedCoefficients {
    /// The validated stream header.
    pub header: BiolepticHeader,
    /// The coarsest level's approximation coefficients.
    pub approximation: Vec<i16>,
    /// Per-level detail coefficients, finest level first.
    pub details: Vec<Vec<i16>>,
}

/// The payload slice an encoded stream declares: the `compressed_size`
/// bytes that follow the header.
pub open spec fn spec_declared_payload(s: Seq<u8>) -> Seq<u8> {
    s.subrange(
        BIOLEPTIC_HEADER_SIZE as int,
        BIOLEPTIC_HEADER_SIZE + spec_parse_header(s).compressed_size as int,
    )
}

/// Whether an encoded stream passes every validation step that precedes
/// entropy decoding: an accepted header, a supported signal length and
/// level count, and a declared payload that fits the data present.
pub open spec fn spec_stream_ranges_ok(s: Seq<u8>) -> bool {
    let h = spec_parse_header(s);
    &&& spec_header_ok(s)
    &&& h.signal_length <= 0x7FFF_FFFF
    &&& 1 <= h.levels <= 10
    &&& h.compressed_size as int <= s.len() - BIOLEPTIC_HEADER_SIZE
}

/// Whether an encoded stream passes every validation step of decompression
/// and carries a payload that entropy-decodes to enough coefficients.
pub open spec fn spec_stream_decodable(s: Seq<u8>) -> bool {
    let h = spec_parse_header(s);
    let m = CompressionMethod::spec_of_tag(h.compression_method);
    let n = h.signal_length as int;
    let levels = h.levels as int;
    &&& spec_stream_ranges_ok(s)
    &&& zstd_decode_of(spec_declared_payload(s)) is Some
    &&& 6 <= h.scale <= 12
    &&& {
        let d = zstd_decode_of(spec_declared_payload(s))->Some_0;
        spec_i16s_of_bytes(d).len() >= spec_level_approx(m, n, levels - 1) + spec_detail_offset(
            m,
            n,
            levels,
        )
    }
}

/// What a successful decode returns for a decodable stream: the parsed
/// header, the approximation block, and each level's detail slice of the
/// entropy-decoded, recomputed-geometry coefficient sequence.
pub open spec fn spec_decoded_ok(s: Seq<u8>, r: DecodedCoefficients) -> bool {
    let h = spec_parse_header(s);
    let m = CompressionMethod::spec_of_tag(h.compression_method);
    let n = h.signal_length as int;
    let levels = h.levels as int;
    let d = zstd_decode_of(
        s.subrange(
            BIOLEPTIC_HEADER_SIZE as int,
            BIOLEPTIC_HEADER_SIZE + h.compressed_size as int,
        ),
    )->Some_0;
    let q = spec_i16s_of_bytes(d);
    let approx_len = spec_level_approx(m, n, levels - 1);
    &&& r.header == h
    &&& r.approximation@ == q.subrange(0, approx_len)
    &&& r.details@.len() == levels
    &&& forall|k: int|
        0 <= k < levels ==> (#[trigger] r.details@[k])@ == q.subrange(
            approx_len + spec_detail_offset(m, n, k),
            approx_len + spec_detail_offset(m, n, k) + spec_level_detail(m, n, k),
        )
}

/// Appending payload bytes after a full header leaves the parsed header
/// unchanged: every field is read from the first 52 bytes.
proof fn lemma_parse_header_prefix(hb: Seq<u8>, rest: Seq<u8>)
    requires
        hb.len() == BIOLEPTIC_HEADER_SIZE,
    ensures
        spec_parse_header(hb + rest) == spec_parse_header(hb),
{
    let s = hb + rest;
    assert(s.subrange(0, 4) =~= hb.subrange(0, 4));
    assert(s.subrange(4, 6) =~= hb.subrange(4, 6));
    assert(s.subrange(6, 8) =~= hb.subrange(6, 8));
    assert(s.subrange(8, 12) =~= hb.subrange(8, 12));
    assert(s[12] == hb[12]);
    assert(s[13] == hb[13]);
    assert(s.subrange(14, 16) =~= hb.subrange(14, 16));
    assert(s.subrange(16, 20) =~= hb.subrange(16, 20));
    assert(s.subrange(20, 24) =~= hb.subrange(20, 24));
    assert(s.subrange(24, 28) =~= hb.subrange(24, 28));
    assert(s.subrange(28, 32) =~= hb.subrange(28, 32));
    assert(s.subrange(32, 36) =~= hb.subrange(32, 36));
    assert(s.subrange(36, 44) =~= hb.subrange(36, 44));
    assert(s.subrange(44, 52) =~= hb.subrange(44, 52));
}

/// When every detail array has the length the geometry assigns to its
/// level, prefix totals coincide with the recomputed detail offsets.
proof fn lemma_offsets_from_lengths(
    method: CompressionMethod,
    n: int,
    s: Seq<Seq<i16>>,
    k: int,
)
    requires
        0 <= k <= s.len(),
        forall|j: int| 0 <= j < s.len() ==> (#[trigger] s[j]).len() == spec_level_detail(
            method,
            n,
            j,
        ),
    ensures
        crate::compressor::spec_total_len(s.take(k)) == spec_detail_offset(method, n, k),
    decreases k,
{
    if k > 0 {
        lemma_offsets_from_lengths(method, n, s, k - 1);
        crate::compressor::lemma_total_len_take_step(s, k - 1);
    }
}

/// The codec round trip at the coefficient layer: an encoded stream built
/// from quantized coefficients whose lengths follow the level geometry is
/// decodable, and decoding recovers the thresholded coefficients exactly.
///
/// The entropy-codec hypothesis — that decoding the emitted payload yields
/// the packed bytes back — is exactly what a successful compression call
/// establishes for its own output.
pub proof fn lemma_stream_round_trip(
    approximation: Seq<i16>,
    details: Seq<Seq<i16>>,
    options: crate::compressor::CompressionOptions,
    levels: u8,
    signal_length: u32,
    min: u32,
    max: u32,
    mean: u32,
)
    requires
        crate::header::spec_is_finite_bits(min),
        crate::header::spec_is_finite_bits(max),
        crate::header::spec_is_finite_bits(mean),
        1 <= levels <= 10,
        signal_length <= 0x7FFF_FFFF,
        details.len() == levels,
        approximation.len() == spec_level_approx(
            options.method,
            signal_length as int,
            levels - 1,
        ),
        forall|j: int| 0 <= j < details.len() ==> (#[trigger] details[j]).len()
            == spec_level_detail(options.method, signal_length as int, j),
        zstd_decode_of(
            crate::entropy::zstd_encode_of(
                crate::compressor::spec_i16_seq_le_bytes(
                    crate::compressor::spec_packed_coefficients(approximation, details, options),
                ),
            ),
        ) == Some(
            crate::compressor::spec_i16_seq_le_bytes(
                crate::compressor::spec_packed_coefficients(approximation, details, options),
            ),
        ),
        crate::entropy::zstd_encode_of(
            crate::compressor::spec_i16_seq_le_bytes(
                crate::compressor::spec_packed_coefficients(approximation, details, options),
            ),
        ).len() <= 0xFFFF_FFFF,
    ensures
        spec_stream_decodable(
            crate::compressor::spec_compressed_stream(
                approximation,
                details,
                options,
                levels,
                signal_length,
                min,
                max,
                mean,
            ),
        ),
        forall|res: DecodedCoefficients|
            spec_decoded_ok(
                crate::compressor::spec_compressed_stream(
                    approximation,
                    details,
                    options,
                    levels,
                    signal_length,
                    min,
                    max,
                    mean,
                ),
                res,
            ) ==> {
                let t = crate::compressor::spec_threshold_value(
                    options.scale,
                    options.cutoff_level,
                ) as int;
                &&& res.approximation@ == approximation
                &&& res.details@.len() == levels
                &&& forall|k: int|
                    0 <= k < levels ==> (#[trigger] res.details@[k])@
                        == crate::compressor::spec_apply_threshold(details[k], t)
            },
{
    let m = options.method;
    let n = signal_length as int;
    let t = crate::compressor::spec_threshold_value(options.scale, options.cutoff_level) as int;
    let tdv = crate::compressor::spec_thresholded(details, t);
    let packed = crate::compressor::spec_packed_coefficients(approximation, details, options);
    let packed_bytes = crate::compressor::spec_i16_seq_le_bytes(packed);
    let payload = crate::entropy::zstd_encode_of(packed_bytes);
    let hdr = BiolepticHeader {
        magic: BIOLEPTIC_MAGIC,
        version: BIOLEPTIC_VERSION,
        data_type: crate::header::FLOAT32_TAG,
        compression_method: m.spec_tag(),
        levels,
        scale: options.scale.spec_as_u8(),
        reserved0: 0u16,
        signal_length,
        min,
        max,
        mean,
        compressed_size: payload.len() as u32,
        reserved1_lo: 0u64,
        reserved1_hi: 0u64,
    };
    let hb = crate::header::spec_header_bytes(hdr);
    let stream = crate::compressor::spec_compressed_stream(
        approximation,
        details,
        options,
        levels,
        signal_length,
        min,
        max,
        mean,
    );
    assert(stream == hb + payload);

    crate::header::lemma_header_round_trip(hdr);
    lemma_parse_header_prefix(hb, payload);
    assert(spec_parse_header(stream) == hdr);
    assert(spec_header_ok(stream));

    assert(hdr.compressed_size as int == payload.len());
    assert(stream.len() - BIOLEPTIC_HEADER_SIZE == payload.len());
    assert(stream.subrange(
        BIOLEPTIC_HEADER_SIZE as int,
        BIOLEPTIC_HEADER_SIZE + payload.len(),
    ) =~= payload);

    lemma_i16_bytes_round_trip(packed);
    let q = spec_i16s_of_bytes(packed_bytes);
    assert(q == packed);

    // thresholding keeps lengths, so the packed layout matches the geometry
    assert(tdv.len() == levels);
    assert forall|j: int| 0 <= j < tdv.len() implies (#[trigger] tdv[j]).len()
        == spec_level_detail(m, n, j) by {
        assert(tdv[j] == crate::compressor::spec_apply_threshold(details[j], t));
    }
    lemma_offsets_from_lengths(m, n, tdv, levels as int);
    assert(tdv.take(levels as int) =~= tdv);
    crate::compressor::lemma_concat_len(tdv);
    let approx_len = spec_level_approx(m, n, levels - 1);
    assert(q.len() == approx_len + spec_detail_offset(m, n, levels as int));

    assert(6 <= hdr.scale <= 12);
    assert(CompressionMethod::spec_of_tag(m.spec_tag()) == m);
    assert(spec_stream_decodable(stream));

    assert(q.subrange(0, approx_len) =~= approximation);

    assert forall|k: int| 0 <= k < levels implies q.subrange(
        approx_len + spec_detail_offset(m, n, k),
        approx_len + spec_detail_offset(m, n, k) + spec_level_detail(m, n, k),
    ) == tdv[k] by {
        crate::compressor::lemma_concat_slice(tdv, k);
        lemma_offsets_from_lengths(m, n, tdv, k);
        let off = spec_detail_offset(m, n, k);
        assert(q.subrange(approx_len + off, approx_len + off + tdv[k].len())
            =~= crate::compressor::spec_concat_seqs(tdv).subrange(off, off + tdv[k].len()));
    }

    assert forall|res: DecodedCoefficients| spec_decoded_ok(stream, res) implies {
        &&& res.approximation@ == approximation
        &&& res.details@.len() == levels
        &&& forall|k: int|
            0 <= k < levels ==> (#[trigger] res.details@[k])@
                == crate::compressor::spec_apply_threshold(details[k], t)
    } by {
        assert(res.approximation@ == q.subrange(0, approx_len));
        assert(res.details@.len() == levels);
        assert forall|k: int| 0 <= k < levels implies (#[trigger] res.details@[k])@
            == crate::compressor::spec_apply_threshold(details[k], t) by {
            assert(res.details@[k]@ == q.subrange(
                approx_len + spec_detail_offset(m, n, k),
                approx_len + spec_detail_offset(m, n, k) + spec_level_detail(m, n, k),
            ));
            assert(tdv[k] == crate::compressor::spec_apply_threshold(details[k], t));
        }
    }
}

/// Parses, validates and entropy-decodes an encoded stream down to its
/// quantized coefficient arrays: the verified head of the decompression
/// pipeline.
///
/// Every length, offset and slice bound is validated before use; malformed
/// or truncated input of any kind is rejected with a typed error, never a
/// panic.  The scale byte, left unchecked by header parsing, is
/// re-validated here before the coefficients are handed out.
pub fn decode_coefficients(bytes: &[u8]) -> (r: Result<DecodedCoefficients, BiolepticError>)
    ensures
        r is Ok <==> spec_stream_decodable(bytes@),
        r matches Ok(res) ==> spec_decoded_ok(bytes@, res),
        bytes@.len() < BIOLEPTIC_HEADER_SIZE ==> r == Err::<DecodedCoefficients, _>(
            BiolepticError::InvalidHeader,
        ),
        (bytes@.len() >= BIOLEPTIC_HEADER_SIZE && spec_parse_header(bytes@).magic
            != BIOLEPTIC_MAGIC) ==> (r matches Err(e) && e matches BiolepticError::InvalidMagic(m)
            && m@ == bytes@.subrange(0, 4)),
        (bytes@.len() >= BIOLEPTIC_HEADER_SIZE && spec_parse_header(bytes@).magic
            == BIOLEPTIC_MAGIC && spec_parse_header(bytes@).version != BIOLEPTIC_VERSION) ==> (
        r matches Err(e) && e matches BiolepticError::InvalidVersion(m) && m@ == bytes@.subrange(
            4,
            6,
        )),
        (spec_header_ok(bytes@) && spec_parse_header(bytes@).signal_length > 0x7FFF_FFFF) ==> (
        r matches Err(e) && e matches BiolepticError::DecompressionError(m) && m@
            == "Can't decompress data bigger than 2147483647"@),
        (spec_header_ok(bytes@) && spec_parse_header(bytes@).signal_length <= 0x7FFF_FFFF
            && spec_parse_header(bytes@).levels > 10) ==> (r matches Err(e) && e matches
            BiolepticError::DecompressionError(m) && m@ == "Max supported level is 10"@),
        (spec_header_ok(bytes@) && spec_parse_header(bytes@).signal_length <= 0x7FFF_FFFF
            && spec_parse_header(bytes@).levels == 0) ==> (r matches Err(e) && e matches
            BiolepticError::DecompressionError(m) && m@ == "Min supported level is 1"@),
        (spec_header_ok(bytes@) && spec_parse_header(bytes@).signal_length <= 0x7FFF_FFFF && 1
            <= spec_parse_header(bytes@).levels <= 10 && spec_parse_header(bytes@).compressed_size
            as int > bytes@.len() - BIOLEPTIC_HEADER_SIZE) ==> (r matches Err(e) && e matches
            BiolepticError::DecompressionError(m) && m@
            == "Declared compressed size exceeds the data that follows the header"@),
        (spec_stream_ranges_ok(bytes@) && zstd_decode_of(spec_declared_payload(bytes@))
            is None) ==> (r matches Err(e) && e matches BiolepticError::DecompressionError(_)),
        (spec_stream_ranges_ok(bytes@) && zstd_decode_of(spec_declared_payload(bytes@)) is Some
            && !(6 <= spec_parse_header(bytes@).scale <= 12)) ==> (r matches Err(e) && e matches
            BiolepticError::DecompressionError(m) && m@ == "Supported scales only [6, 12]"@),
        (spec_stream_ranges_ok(bytes@) && zstd_decode_of(spec_declared_payload(bytes@)) is Some
            && 6 <= spec_parse_header(bytes@).scale <= 12 && !spec_stream_decodable(bytes@)) ==> (
        r matches Err(e) && e matches BiolepticError::DecompressionError(m) && m@
            == "Decoded payload is shorter than the coefficient layout requires"@),
        r matches Err(e) ==> !(e matches BiolepticError::OutOfMemoryError(_)) && !(e matches
            BiolepticError::UnderlyingDwtError(_)) && !(e matches
            BiolepticError::UnderlyingCompressorError(_)) && !(e matches
            BiolepticError::UnsupportedCompressorConfiguration(_)) && !(e matches
            BiolepticError::InvalidQuantizationScale(_)),
{
    let header = match BiolepticHeader::from_bytes(bytes) {
        Ok(h) => h,
        Err(e) => {
            return Err(e);
        },
    };

    let signal_length = header.signal_length as usize;
    if signal_length > 0x7FFF_FFFF {
        return Err(
            BiolepticError::DecompressionError(
                "Can't decompress data bigger than 2147483647".to_string(),
            ),
        );
    }

    let dwt_levels = header.levels as usize;
    if dwt_levels > 10 {
        return Err(BiolepticError::DecompressionError("Max supported level is 10".to_string()));
    }
    if dwt_levels == 0 {
        return Err(BiolepticError::DecompressionError("Min supported level is 1".to_string()));
    }

    let method = match header.compression_method() {
        Ok(m) => m,
        Err(e) => {
            return Err(e);
        },
    };

    let sizes = level_sizes(method, signal_length, dwt_levels);

    let compressed_size = header.compressed_size as usize;
    let data_remainder_size = bytes.len() - BIOLEPTIC_HEADER_SIZE;
    if data_remainder_size < compressed_size {
        return Err(
            BiolepticError::DecompressionError(
                "Declared compressed size exceeds the data that follows the header".to_string(),
            ),
        );
    }

    let compressed_data = vstd::slice::slice_subrange(
        bytes,
        BIOLEPTIC_HEADER_SIZE,
        BIOLEPTIC_HEADER_SIZE + compressed_size,
    );
    let decoded_data = match zstd_decode(compressed_data) {
        Ok(d) => d,
        Err(e) => {
            return Err(BiolepticError::DecompressionError(e));
        },
    };

    let quantized_data = le_bytes_to_i16s(&decoded_data);

    let scale = header.scale;
    if scale < 6 || scale > 12 {
        return Err(
            BiolepticError::DecompressionError("Supported scales only [6, 12]".to_string()),
        );
    }

    let ghost m_g = method;
    let ghost n_g = signal_length as int;
    let approx_len = sizes[dwt_levels - 1].0;
    let q_len = quantized_data.len();

    // total coefficient count the recomputed geometry requires
    let mut needed: u64 = approx_len as u64;
    let mut k: usize = 0;
    while k < dwt_levels
        invariant
            0 <= k <= dwt_levels,
            sizes@.len() == dwt_levels,
            1 <= dwt_levels <= 10,
            approx_len == spec_level_approx(m_g, n_g, dwt_levels - 1),
            approx_len <= 0x4000_0004,
            forall|j: int|
                0 <= j < dwt_levels ==> {
                    &&& (#[trigger] sizes@[j]).1 == spec_level_detail(m_g, n_g, j)
                    &&& 1 <= sizes@[j].1 <= 0x4000_0004
                },
            needed == approx_len + spec_detail_offset(m_g, n_g, k as int),
            needed <= approx_len + k * 0x4000_0004,
        decreases dwt_levels - k,
    {
        proof {
            assert(approx_len + k * 0x4000_0004 + 0x4000_0004 == approx_len + (k + 1)
                * 0x4000_0004) by (nonlinear_arith);
            assert(approx_len + (k + 1) * 0x4000_0004 <= approx_len + 10 * 0x4000_0004) by (
            nonlinear_arith)
                requires
                    k + 1 <= 10,
            ;
        }
        needed = needed + (sizes[k].1 as u64);
        k = k + 1;
    }
    proof {
        assert(needed <= approx_len + 10 * 0x4000_0004) by (nonlinear_arith)
            requires
                needed <= approx_len + dwt_levels * 0x4000_0004,
                dwt_levels <= 10,
        ;
        lemma_detail_offset_monotonic(m_g, n_g, 0, dwt_levels as int);
    }

    if (q_len as u64) < needed {
        return Err(
            BiolepticError::DecompressionError(
                "Decoded payload is shorter than the coefficient layout requires".to_string(),
            ),
        );
    }

    let approximation = vstd::slice::slice_to_vec(
        vstd::slice::slice_subrange(quantized_data.as_slice(), 0, approx_len),
    );

    let mut details: Vec<Vec<i16>> = Vec::new();
    let mut details_start: usize = approx_len;
    let mut lev: usize = 0;
    while lev < dwt_levels
        invariant
            0 <= lev <= dwt_levels,
            sizes@.len() == dwt_levels,
            1 <= dwt_levels <= 10,
            n_g >= 0,
            approx_len == spec_level_approx(m_g, n_g, dwt_levels - 1),
            forall|j: int|
                0 <= j < dwt_levels ==> {
                    &&& (#[trigger] sizes@[j]).1 == spec_level_detail(m_g, n_g, j)
                    &&& 1 <= sizes@[j].1 <= 0x4000_0004
                },
            details_start == approx_len + spec_detail_offset(m_g, n_g, lev as int),
            q_len == quantized_data@.len(),
            quantized_data@.len() >= approx_len + spec_detail_offset(m_g, n_g, dwt_levels as int),
            details@.len() == lev,
            forall|j: int|
                0 <= j < lev ==> (#[trigger] details@[j])@ == quantized_data@.subrange(
                    approx_len + spec_detail_offset(m_g, n_g, j),
                    approx_len + spec_detail_offset(m_g, n_g, j) + spec_level_detail(m_g, n_g, j),
                ),
        decreases dwt_levels - lev,
    {
        let d_len = sizes[lev].1;
        proof {
            lemma_detail_offset_monotonic(m_g, n_g, lev + 1, dwt_levels as int);
        }
        let detail_level = vstd::slice::slice_to_vec(
            vstd::slice::slice_subrange(
                quantized_data.as_slice(),
                details_start,
                details_start + d_len,
            ),
        );
        details.push(detail_level);
        details_start = details_start + d_len;
        lev = lev + 1;
    }

    Ok(DecodedCoefficients { header, approximation, details })
}

} // verus!
