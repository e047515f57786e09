use bioleptic::{
    BiolepticError, CompressionMethod, CompressionOptions, CutoffLevel, QuantizationScale,
    compress_quantized, decode_coefficients, dwt_size, level_sizes, prepare_samples,
    select_levels, threshold, validate_signal_length,
};

fn count_zeros(v: &[i16]) -> usize {
    v.iter().filter(|&&x| x == 0).count()
}

#[test]
fn threshold_zeroes_small_magnitudes_exactly() {
    // scale 12 with high cutoff: threshold = 4 * 7 = 28
    let mut v: Vec<i16> = vec![0, 27, -27, 28, -28, 100, -100];
    threshold(&mut v, QuantizationScale::S12, CutoffLevel::High);
    assert_eq!(v, vec![0, 0, 0, 28, -28, 100, -100]);

    // scale 6 with low cutoff: threshold = 1, only exact zeros stay zero
    let mut v: Vec<i16> = vec![0, 1, -1, 5];
    threshold(&mut v, QuantizationScale::S6, CutoffLevel::Low);
    assert_eq!(v, vec![0, 1, -1, 5]);

    // i16::MIN has magnitude 32768 and always survives
    let mut v: Vec<i16> = vec![i16::MIN, 2];
    threshold(&mut v, QuantizationScale::S11, CutoffLevel::Medium);
    assert_eq!(v, vec![i16::MIN, 0]);
}

#[test]
fn threshold_cutoff_is_monotonic_on_samples() {
    let base: Vec<i16> = (-40..40).map(|x| x as i16).collect();
    for scale in 6u8..=12 {
        let scale = QuantizationScale::try_from(scale).unwrap();
        let mut low = base.clone();
        let mut medium = base.clone();
        let mut high = base.clone();
        threshold(&mut low, scale, CutoffLevel::Low);
        threshold(&mut medium, scale, CutoffLevel::Medium);
        threshold(&mut high, scale, CutoffLevel::High);
        assert!(count_zeros(&low) <= count_zeros(&medium));
        assert!(count_zeros(&medium) <= count_zeros(&high));
    }
}

#[test]
fn level_table_is_exact() {
    assert_eq!(select_levels(1), 1);
    assert_eq!(select_levels(19), 1);
    assert_eq!(select_levels(20), 2);
    assert_eq!(select_levels(39), 2);
    assert_eq!(select_levels(40), 3);
    assert_eq!(select_levels(59), 3);
    assert_eq!(select_levels(60), 4);
    assert_eq!(select_levels(79), 4);
    assert_eq!(select_levels(80), 5);
    assert_eq!(select_levels(500000), 5);
}

#[test]
fn empty_input_rejected() {
    let r = prepare_samples(&Vec::new());
    match r {
        Err(BiolepticError::UnsupportedCompressorConfiguration(m)) => {
            assert_eq!(m, "Can't compress empty data");
        }
        _ => panic!("empty input must be rejected"),
    }
}

#[test]
fn oversized_input_rejected() {
    // simulated via the length check alone, without allocating the buffer
    let r = validate_signal_length(0x8000_0000usize);
    match r {
        Err(BiolepticError::UnsupportedCompressorConfiguration(m)) => {
            assert_eq!(m, "Can't compress data bigger than 2147483647");
        }
        _ => panic!("oversized input must be rejected"),
    }
    assert!(validate_signal_length(1).is_ok());
    assert!(validate_signal_length(0x7FFF_FFFF).is_ok());
}

#[test]
fn substitution_replaces_non_finite_values() {
    let data: Vec<u32> = vec![
        f32::NAN.to_bits(),
        f32::NEG_INFINITY.to_bits(),
        f32::INFINITY.to_bits(),
        1.5f32.to_bits(),
        (-0.5f32).to_bits(),
    ];
    let (subst, min_bits, max_bits) = prepare_samples(&data).unwrap();
    assert_eq!(subst[0], 0.0f32.to_bits());
    assert_eq!(subst[1], 0.0f32.to_bits());
    assert_eq!(subst[2], 1.0f32.to_bits());
    assert_eq!(subst[3], 1.5f32.to_bits());
    assert_eq!(subst[4], (-0.5f32).to_bits());
    assert_eq!(f32::from_bits(min_bits), -0.5);
    assert_eq!(f32::from_bits(max_bits), 1.5);
}

#[test]
fn dwt_size_matches_engine_formulas() {
    assert_eq!(dwt_size(CompressionMethod::Cdf97, 101), (51, 50));
    assert_eq!(dwt_size(CompressionMethod::Cdf97, 100), (50, 50));
    assert_eq!(dwt_size(CompressionMethod::Cdf97, 1), (2, 2));
    assert_eq!(dwt_size(CompressionMethod::Cdf53, 1), (2, 1));
    assert_eq!(dwt_size(CompressionMethod::Cdf53, 9), (5, 4));
    assert_eq!(dwt_size(CompressionMethod::Db4, 100), (53, 53));
    assert_eq!(dwt_size(CompressionMethod::Sym4, 9), (8, 8));
}

#[test]
fn level_sizes_chain_through_approximations() {
    let sizes = level_sizes(CompressionMethod::Cdf97, 100, 3);
    assert_eq!(sizes, vec![(50, 50), (25, 25), (13, 12)]);
    let sizes = level_sizes(CompressionMethod::Db4, 40, 2);
    assert_eq!(sizes, vec![(23, 23), (15, 15)]);
}

fn quantize(x: f32, scale: u8) -> i16 {
    let m = (1u32 << scale) as f32;
    (x * m).min(i16::MAX as f32).max(i16::MIN as f32) as i16
}

/// Builds a small valid stream from synthetic coefficients that already
/// follow the Cdf97 geometry for 100 samples and 2 levels.
fn small_stream() -> Vec<u8> {
    let options = CompressionOptions {
        method: CompressionMethod::Cdf97,
        scale: QuantizationScale::S11,
        cutoff_level: CutoffLevel::Low,
    };
    // level sizes for n = 100: (50, 50) then (25, 25)
    let approximation: Vec<i16> = (0..25).map(|i| quantize(0.01 * i as f32, 11)).collect();
    let details0: Vec<i16> = (0..50).map(|i| (i % 7) as i16 * 40).collect();
    let details1: Vec<i16> = (0..25).map(|i| (i % 5) as i16 * 30).collect();
    compress_quantized(
        approximation,
        vec![details0, details1],
        options,
        2,
        100,
        0.0f32.to_bits(),
        1.0f32.to_bits(),
        0.5f32.to_bits(),
    )
    .unwrap()
}

#[test]
fn quantized_coefficients_round_trip_through_stream() {
    let stream = small_stream();
    let decoded = decode_coefficients(&stream).unwrap();
    assert_eq!(decoded.header.signal_length, 100);
    assert_eq!(decoded.header.levels, 2);
    assert_eq!(decoded.header.scale, 11);
    let approximation: Vec<i16> = (0..25).map(|i| quantize(0.01 * i as f32, 11)).collect();
    let details0: Vec<i16> = (0..50).map(|i| (i % 7) as i16 * 40).collect();
    let details1: Vec<i16> = (0..25).map(|i| (i % 5) as i16 * 30).collect();
    // threshold at scale 11 / low cutoff is 3: these coefficients are all
    // either zero or of magnitude >= 30, so they come back unchanged
    assert_eq!(decoded.approximation, approximation);
    assert_eq!(decoded.details, vec![details0, details1]);
}

#[test]
fn zero_level_transform_result_rejected() {
    let options = CompressionOptions::from_method(CompressionMethod::Cdf97);
    let r = compress_quantized(
        Vec::new(),
        Vec::new(),
        options,
        1,
        10,
        0.0f32.to_bits(),
        1.0f32.to_bits(),
        0.0f32.to_bits(),
    );
    match r {
        Err(BiolepticError::UnderlyingDwtError(m)) => {
            assert_eq!(m, "Internal DWT returned zero levels, what shouldn't happen");
        }
        _ => panic!("zero-level result must be rejected"),
    }
}

#[test]
fn truncated_payload_rejected() {
    let stream = small_stream();
    // drop the last byte: fewer bytes remain than compressed_size declares
    let truncated = &stream[..stream.len() - 1];
    match decode_coefficients(truncated) {
        Err(BiolepticError::DecompressionError(m)) => {
            assert_eq!(
                m,
                "Declared compressed size exceeds the data that follows the header"
            );
        }
        _ => panic!("truncated stream must be rejected"),
    }
    // keeping the header only is rejected the same way
    match decode_coefficients(&stream[..52]) {
        Err(BiolepticError::DecompressionError(_)) => {}
        _ => panic!("header-only stream must be rejected"),
    }
}

#[test]
fn corrupted_stream_magic_and_version_rejected() {
    let stream = small_stream();
    for pos in 0..4 {
        let mut c = stream.clone();
        c[pos] = c[pos].wrapping_add(1);
        assert!(matches!(
            decode_coefficients(&c),
            Err(BiolepticError::InvalidMagic(_))
        ));
    }
    for pos in 4..6 {
        let mut c = stream.clone();
        c[pos] = c[pos].wrapping_add(1);
        assert!(matches!(
            decode_coefficients(&c),
            Err(BiolepticError::InvalidVersion(_))
        ));
    }
}

#[test]
fn out_of_range_levels_rejected() {
    let stream = small_stream();
    let mut c = stream.clone();
    c[12] = 11;
    match decode_coefficients(&c) {
        Err(BiolepticError::DecompressionError(m)) => {
            assert_eq!(m, "Max supported level is 10");
        }
        _ => panic!("levels > 10 must be rejected"),
    }
    let mut c = stream.clone();
    c[12] = 0;
    match decode_coefficients(&c) {
        Err(BiolepticError::DecompressionError(m)) => {
            assert_eq!(m, "Min supported level is 1");
        }
        _ => panic!("levels == 0 must be rejected"),
    }
}

#[test]
fn out_of_range_scale_rejected_by_decompressor() {
    let stream = small_stream();
    let mut c = stream.clone();
    c[13] = 5;
    match decode_coefficients(&c) {
        Err(BiolepticError::DecompressionError(m)) => {
            assert_eq!(m, "Supported scales only [6, 12]");
        }
        _ => panic!("scale outside 6..=12 must be rejected"),
    }
}

#[test]
fn oversized_declared_signal_length_rejected() {
    let stream = small_stream();
    let mut c = stream.clone();
    c[16..20].copy_from_slice(&0x8000_0000u32.to_le_bytes());
    match decode_coefficients(&c) {
        Err(BiolepticError::DecompressionError(m)) => {
            assert_eq!(m, "Can't decompress data bigger than 2147483647");
        }
        _ => panic!("oversized declared length must be rejected"),
    }
}

#[test]
fn garbage_payload_rejected_without_panic() {
    let stream = small_stream();
    let mut c = stream[..52].to_vec();
    let declared = u32::from_le_bytes([stream[32], stream[33], stream[34], stream[35]]) as usize;
    // replace the whole payload with bytes that are no zstd frame
    c.extend(std::iter::repeat(0xABu8).take(declared));
    match decode_coefficients(&c) {
        Err(BiolepticError::DecompressionError(_)) => {}
        _ => panic!("undecodable payload must surface as a decompression error"),
    }
}

#[test]
fn error_messages_render_their_values() {
    assert_eq!(
        BiolepticError::OutOfMemoryError(1203489).message(),
        "Out of memory, can't allocate additional 1203489"
    );
    assert_eq!(
        BiolepticError::OutOfMemoryError(0).message(),
        "Out of memory, can't allocate additional 0"
    );
    assert_eq!(
        BiolepticError::InvalidQuantizationScale(13).message(),
        "Only scaled 6..12 is supported, but it was 13"
    );
    assert_eq!(BiolepticError::InvalidHeader.message(), "Header is invalid");
    assert_eq!(
        BiolepticError::DecompressionError("Min supported level is 1".to_string()).message(),
        "Can't decompress data, reason: Min supported level is 1"
    );
    assert_eq!(
        BiolepticError::UnsupportedCompressorConfiguration("Can't compress empty data".to_string())
            .message(),
        "Unsupported compression configuration 'Can't compress empty data'"
    );
}

#[test]
fn payload_with_too_few_coefficients_rejected() {
    // a valid stream whose payload decodes to fewer coefficients than the
    // recomputed geometry requires: declare 100 samples but pack only 10
    let options = CompressionOptions::from_method(CompressionMethod::Cdf97);
    let stream = compress_quantized(
        vec![5i16; 10],
        vec![vec![40i16; 10]],
        options,
        2,
        100,
        0.0f32.to_bits(),
        1.0f32.to_bits(),
        0.0f32.to_bits(),
    )
    .unwrap();
    match decode_coefficients(&stream) {
        Err(BiolepticError::DecompressionError(m)) => {
            assert_eq!(
                m,
                "Decoded payload is shorter than the coefficient layout requires"
            );
        }
        _ => panic!("short coefficient payload must be rejected"),
    }
}
