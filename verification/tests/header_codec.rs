use bioleptic::{BiolepticError, BiolepticHeader, CompressionMethod, DataType, QuantizationScale};

fn sample_header() -> BiolepticHeader {
    BiolepticHeader::new(
        DataType::Float32,
        CompressionMethod::Cdf97,
        5,
        QuantizationScale::S11,
        12345,
        0.25f32.to_bits(),
        7.5f32.to_bits(),
        0.125f32.to_bits(),
        999,
    )
}

#[test]
fn header_encodes_exact_bytes() {
    let h = sample_header();
    let b = h.to_bytes();
    assert_eq!(b.len(), 52);
    assert_eq!(&b[0..4], b"BILP");
    assert_eq!(&b[4..6], &[1, 0]);
    assert_eq!(&b[6..8], b"f3");
    assert_eq!(&b[8..12], b"cf97");
    assert_eq!(b[12], 5);
    assert_eq!(b[13], 11);
    assert_eq!(&b[14..16], &[0, 0]);
    assert_eq!(&b[16..20], &12345u32.to_le_bytes());
    assert_eq!(&b[20..24], &0.25f32.to_bits().to_le_bytes());
    assert_eq!(&b[24..28], &7.5f32.to_bits().to_le_bytes());
    assert_eq!(&b[28..32], &0.125f32.to_bits().to_le_bytes());
    assert_eq!(&b[32..36], &999u32.to_le_bytes());
    assert_eq!(&b[36..52], &[0u8; 16]);
}

#[test]
fn header_round_trips_bit_exactly() {
    let h = sample_header();
    let decoded = BiolepticHeader::from_bytes(&h.to_bytes()).unwrap();
    assert_eq!(decoded, h);
}

#[test]
fn header_round_trips_every_method_and_scale() {
    let methods = [
        CompressionMethod::Cdf53,
        CompressionMethod::Cdf97,
        CompressionMethod::Db4,
        CompressionMethod::Sym4,
    ];
    for method in methods {
        for raw_scale in 6u8..=12 {
            let scale = QuantizationScale::try_from(raw_scale).unwrap();
            let h = BiolepticHeader::new(
                DataType::Float32,
                method,
                3,
                scale,
                777,
                (-1.5f32).to_bits(),
                2.5f32.to_bits(),
                0.0f32.to_bits(),
                42,
            );
            let decoded = BiolepticHeader::from_bytes(&h.to_bytes()).unwrap();
            assert_eq!(decoded, h);
            assert_eq!(decoded.compression_method().unwrap(), method);
            assert_eq!(decoded.data_type().unwrap(), DataType::Float32);
        }
    }
}

#[test]
fn short_buffer_is_invalid_header() {
    let h = sample_header();
    let b = h.to_bytes();
    for len in 0..52 {
        let r = BiolepticHeader::from_bytes(&b[..len]);
        assert!(matches!(r, Err(BiolepticError::InvalidHeader)));
    }
}

#[test]
fn corrupted_magic_rejected() {
    let h = sample_header();
    let b = h.to_bytes();
    for pos in 0..4 {
        let mut c = b.clone();
        c[pos] ^= 0xFF;
        let r = BiolepticHeader::from_bytes(&c);
        assert!(matches!(r, Err(BiolepticError::InvalidMagic(_))));
        if let Err(BiolepticError::InvalidMagic(m)) = BiolepticHeader::from_bytes(&c) {
            assert_eq!(&m[..], &c[0..4]);
        }
    }
}

#[test]
fn corrupted_version_rejected() {
    let h = sample_header();
    let b = h.to_bytes();
    for pos in 4..6 {
        let mut c = b.clone();
        c[pos] ^= 0x01;
        let r = BiolepticHeader::from_bytes(&c);
        assert!(matches!(r, Err(BiolepticError::InvalidVersion(_))));
    }
}

#[test]
fn unknown_data_type_rejected() {
    let h = sample_header();
    let mut b = h.to_bytes();
    b[6] = b'x';
    let r = BiolepticHeader::from_bytes(&b);
    assert!(matches!(r, Err(BiolepticError::InvalidDataType(_))));
}

#[test]
fn unknown_method_tag_rejected() {
    let h = sample_header();
    let mut b = h.to_bytes();
    b[8] = b'z';
    let r = BiolepticHeader::from_bytes(&b);
    assert!(matches!(r, Err(BiolepticError::InvalidCompressionMethod(_))));
}

#[test]
fn non_finite_statistics_rejected() {
    let h = sample_header();
    let mut b = h.to_bytes();
    b[20..24].copy_from_slice(&f32::NAN.to_bits().to_le_bytes());
    assert!(matches!(
        BiolepticHeader::from_bytes(&b),
        Err(BiolepticError::InvalidHeader)
    ));

    let mut b = sample_header().to_bytes();
    b[24..28].copy_from_slice(&f32::INFINITY.to_bits().to_le_bytes());
    assert!(matches!(
        BiolepticHeader::from_bytes(&b),
        Err(BiolepticError::InvalidHeader)
    ));

    let mut b = sample_header().to_bytes();
    b[28..32].copy_from_slice(&f32::NEG_INFINITY.to_bits().to_le_bytes());
    assert!(matches!(
        BiolepticHeader::from_bytes(&b),
        Err(BiolepticError::InvalidHeader)
    ));
}

#[test]
fn reserved_ranges_are_copied_verbatim() {
    // parsing keeps whatever the reserved ranges carry, so re-encoding a
    // parsed header reproduces the accepted bytes exactly
    let mut b = sample_header().to_bytes();
    b[14] = 7;
    b[15] = 9;
    b[36] = 1;
    b[43] = 2;
    b[44] = 3;
    b[51] = 255;
    let h = BiolepticHeader::from_bytes(&b).unwrap();
    assert_eq!(h.reserved0, u16::from_le_bytes([7, 9]));
    assert_eq!(
        h.reserved1_lo,
        u64::from_le_bytes([1, 0, 0, 0, 0, 0, 0, 2])
    );
    assert_eq!(
        h.reserved1_hi,
        u64::from_le_bytes([3, 0, 0, 0, 0, 0, 0, 255])
    );
    assert_eq!(h.to_bytes(), b);
}

#[test]
fn out_of_range_scale_byte_passes_header_parsing() {
    // the scale byte is deliberately not range-checked at parse time
    let h = sample_header();
    let mut b = h.to_bytes();
    b[13] = 55;
    let decoded = BiolepticHeader::from_bytes(&b).unwrap();
    assert_eq!(decoded.scale, 55);
}

#[test]
fn quantization_scale_parses_supported_range_only() {
    for raw in 6u8..=12 {
        assert_eq!(QuantizationScale::try_from(raw).unwrap().as_u8(), raw);
    }
    for raw in [0u8, 1, 5, 13, 200] {
        match QuantizationScale::try_from(raw) {
            Err(BiolepticError::InvalidQuantizationScale(v)) => assert_eq!(v, raw),
            _ => panic!("scale {} should be rejected", raw),
        }
    }
}
