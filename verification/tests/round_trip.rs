use bioleptic::{
    BiolepticError, CompressionMethod, CompressionOptions, compress_quantized,
    decode_coefficients, prepare_samples, select_levels,
};
use osclet::{BorderMode, DaubechiesFamily, DwtExecutor, MultiLevelDwtRef, Osclet, SymletFamily};
use std::sync::Arc;

fn make_worker(method: CompressionMethod) -> Arc<dyn DwtExecutor<f32> + Send + Sync> {
    match method {
        CompressionMethod::Cdf53 => Osclet::make_cdf53_f32(),
        CompressionMethod::Cdf97 => Osclet::make_cdf97_f32(),
        CompressionMethod::Db4 => {
            Osclet::make_daubechies_f32(DaubechiesFamily::Db4, BorderMode::Wrap)
        }
        CompressionMethod::Sym4 => Osclet::make_symlet_f32(SymletFamily::Sym4, BorderMode::Wrap),
    }
}

fn quantize(x: f32, multiplier: f32) -> i16 {
    (x * multiplier).min(i16::MAX as f32).max(i16::MIN as f32) as i16
}

/// The floating-point stages of compression around the library's verified
/// core: normalization, forward transform and quantization.
fn compress(data: &[f32], options: CompressionOptions) -> Result<Vec<u8>, BiolepticError> {
    let bits: Vec<u32> = data.iter().map(|x| x.to_bits()).collect();
    let (subst, min_bits, max_bits) = prepare_samples(&bits)?;
    let v_min = f32::from_bits(min_bits);
    let v_max = f32::from_bits(max_bits);
    let mut working: Vec<f32> = subst.iter().map(|&b| f32::from_bits(b)).collect();
    let range = v_max - v_min;
    let mut v_mean = 0.0f32;
    if range > 1e-5 {
        let range_scale = 1.0 / range;
        let mut v_sum = 0.0f32;
        for dst in working.iter_mut() {
            let q = (*dst - v_min) * range_scale;
            v_sum += q;
            *dst = q;
        }
        v_mean = v_sum / data.len() as f32;
        for dst in working.iter_mut() {
            *dst -= v_mean;
        }
    } else {
        working.fill(0.0);
    }

    let level = select_levels(data.len());
    let worker = make_worker(options.method);
    let dwt = worker
        .multi_dwt(&working, level as usize)
        .map_err(|e| BiolepticError::UnderlyingDwtError(e.to_string()))?;

    let multiplier = (1u32 << options.scale.as_u8()) as f32;
    let approximation: Vec<i16> = match dwt.levels.last() {
        None => Vec::new(),
        Some(last) => last
            .approximations
            .iter()
            .map(|&x| quantize(x, multiplier))
            .collect(),
    };
    let details: Vec<Vec<i16>> = dwt
        .levels
        .iter()
        .map(|l| l.details.iter().map(|&x| quantize(x, multiplier)).collect())
        .collect();

    compress_quantized(
        approximation,
        details,
        options,
        level,
        data.len() as u32,
        min_bits,
        max_bits,
        v_mean.to_bits(),
    )
}

/// The floating-point stages of decompression around the library's verified
/// core: dequantization, inverse transform and denormalization.
fn decompress(bytes: &[u8]) -> Result<Vec<f32>, BiolepticError> {
    let decoded = decode_coefficients(bytes)?;
    let header = decoded.header;
    let method = header.compression_method()?;
    let worker = make_worker(method);

    let rcp_scale = 1.0f32 / (1u32 << header.scale) as f32;
    let approximations: Vec<f32> = decoded
        .approximation
        .iter()
        .map(|&q| q as f32 * rcp_scale)
        .collect();
    let details: Vec<Vec<f32>> = decoded
        .details
        .iter()
        .map(|d| d.iter().map(|&q| q as f32 * rcp_scale).collect())
        .collect();

    let mut iwdt = worker
        .multi_idwt(&MultiLevelDwtRef {
            approximations: &approximations,
            details: details.iter().map(|x| x.as_slice()).collect(),
        })
        .map_err(|e| BiolepticError::UnderlyingDwtError(e.to_string()))?;

    let v_min = f32::from_bits(header.min);
    let range = f32::from_bits(header.max) - v_min;
    let v_mean = f32::from_bits(header.mean);
    for v in iwdt.iter_mut() {
        *v = (*v + v_mean) * range + v_min;
    }
    Ok(iwdt)
}

/// Generates a synthetic PPG-like signal with systolic peak, dicrotic notch
/// and diastolic peak.
fn generate_ppg(samples: usize, sample_rate: f32, heart_rate_bpm: f32) -> Vec<f32> {
    let rr_interval = 60.0 / heart_rate_bpm;
    let mut signal = vec![0.0f32; samples];
    for i in 0..samples {
        let t = i as f32 / sample_rate;
        let phase = (t / rr_interval).fract();
        let systolic = 1.0 * gaussian(phase, 0.25, 0.06);
        let notch = -0.08 * gaussian(phase, 0.45, 0.02);
        let diastolic = 0.15 * gaussian(phase, 0.55, 0.04);
        let baseline = 0.03 * (2.0 * std::f32::consts::PI * 0.3 * t).sin();
        let noise = 0.005 * pseudo_noise(i);
        signal[i] = (systolic + notch + diastolic + baseline + noise) * 3500.0;
    }
    signal
}

fn gaussian(x: f32, mean: f32, std: f32) -> f32 {
    (-(x - mean).powi(2) / (2.0 * std.powi(2))).exp()
}

/// Deterministic pseudo-noise via an LCG.
fn pseudo_noise(i: usize) -> f32 {
    let x = (i as u32).wrapping_mul(1664525).wrapping_add(1013904223);
    (x as f32 / u32::MAX as f32) * 2.0 - 1.0
}

/// Percent root-mean-square difference between two signals.
fn prd(original: &[f32], reconstructed: &[f32]) -> f64 {
    assert_eq!(original.len(), reconstructed.len());
    let n = original.len() as f64;
    let mean = original.iter().map(|&x| x as f64).sum::<f64>() / n;
    let num = original
        .iter()
        .zip(reconstructed.iter())
        .map(|(&x, &y)| {
            let diff = x as f64 - y as f64;
            diff * diff
        })
        .sum::<f64>();
    let den = original
        .iter()
        .map(|&x| {
            let centered = x as f64 - mean;
            centered * centered
        })
        .sum::<f64>();
    if den == 0.0 {
        return 0.0;
    }
    (num / den).sqrt() * 100.0
}

#[test]
fn test_coding() {
    let r_means = generate_ppg(500000, 120., 90.);
    let encoded = compress(
        &r_means,
        CompressionOptions::from_method(CompressionMethod::Sym4),
    )
    .unwrap();
    println!("{:?}", encoded.len());
    let decompressed = decompress(&encoded).unwrap();
    println!("{:?}", decompressed.len());
    let prd = prd(&r_means, &decompressed);
    assert!(prd < 0.5);
    println!("PRD {}", prd);
}

#[test]
fn round_trip_is_near_lossless_at_default_options() {
    // a smooth band-limited signal of a few thousand samples at scale 11,
    // low cutoff: PRD stays under 0.5%
    let signal = generate_ppg(4096, 120., 75.);
    let encoded = compress(&signal, CompressionOptions::default()).unwrap();
    let decompressed = decompress(&encoded).unwrap();
    assert_eq!(decompressed.len(), signal.len());
    assert!(prd(&signal, &decompressed) < 0.5);
}

#[test]
fn round_trip_every_method() {
    let signal = generate_ppg(2000, 120., 80.);
    for method in [
        CompressionMethod::Cdf53,
        CompressionMethod::Cdf97,
        CompressionMethod::Db4,
        CompressionMethod::Sym4,
    ] {
        let encoded = compress(&signal, CompressionOptions::from_method(method)).unwrap();
        let decompressed = decompress(&encoded).unwrap();
        assert_eq!(decompressed.len(), signal.len());
        assert!(prd(&signal, &decompressed) < 1.0);
    }
}

#[test]
fn non_finite_samples_are_substituted() {
    // a signal in [0, 1] with NaN, -inf and +inf injected: it compresses
    // without error and the specials reconstruct near 0.0, 0.0 and 1.0
    let mut signal: Vec<f32> = (0..512)
        .map(|i| 0.5 + 0.4 * (i as f32 * 0.05).sin())
        .collect();
    signal[0] = 0.0;
    signal[1] = 1.0;
    signal[100] = f32::NAN;
    signal[200] = f32::NEG_INFINITY;
    signal[300] = f32::INFINITY;
    let encoded = compress(&signal, CompressionOptions::default()).unwrap();
    let decompressed = decompress(&encoded).unwrap();
    assert!((decompressed[100] - 0.0).abs() < 0.1);
    assert!((decompressed[200] - 0.0).abs() < 0.1);
    assert!((decompressed[300] - 1.0).abs() < 0.1);
}

#[test]
fn constant_signal_round_trips_close_to_the_constant() {
    let signal = vec![5.0f32; 256];
    let encoded = compress(&signal, CompressionOptions::default()).unwrap();
    let decompressed = decompress(&encoded).unwrap();
    assert_eq!(decompressed.len(), signal.len());
    for &v in decompressed.iter() {
        assert!((v - 5.0).abs() < 1e-3);
    }
}
