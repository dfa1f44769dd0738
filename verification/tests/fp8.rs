use openinfer_glm52::fp8::{bf16_to_f32_bits, e4m3_to_f32_bits, upcast_bf16_to_f32};

#[test]
fn every_code_decodes_to_its_number() {
    for code in 0..=255u8 {
        let sign = if code >= 128 { -1.0f32 } else { 1.0 };
        let e = ((code >> 3) & 0xf) as i32;
        let m = (code & 7) as f32;
        let mag = if e == 0 {
            2f32.powi(-6) * (m / 8.0)
        } else {
            2f32.powi(e - 7) * (1.0 + m / 8.0)
        };
        if code % 128 == 127 {
            continue;
        }
        assert_eq!(e4m3_to_f32_bits(code), (sign * mag).to_bits(), "{code:#x}");
    }
    assert_eq!(f32::from_bits(e4m3_to_f32_bits(0x38)), 1.0);
    assert_eq!(f32::from_bits(e4m3_to_f32_bits(0xb8)), -1.0);
    assert_eq!(f32::from_bits(e4m3_to_f32_bits(0x01)), 1.0 / 512.0);
    assert_eq!(f32::from_bits(e4m3_to_f32_bits(0x7e)), 448.0);
}

#[test]
fn two_codes_are_no_numbers() {
    assert_eq!(e4m3_to_f32_bits(0x7f), 0x7fc0_0000);
    assert_eq!(e4m3_to_f32_bits(0xff), 0xffc0_0000);
    assert!(f32::from_bits(e4m3_to_f32_bits(0x7f)).is_nan());
    assert!(f32::from_bits(e4m3_to_f32_bits(0xff)).is_nan());
}

#[test]
fn halves_widen_exactly() {
    for bits in [0u16, 0x3f80, 0xc049, 0x0001, 0x7f80] {
        assert_eq!(bf16_to_f32_bits(bits), half::bf16::from_bits(bits).to_f32().to_bits());
    }
}

#[test]
fn a_norm_is_widened_element_by_element() {
    let bytes: Vec<u8> = (0..128u16).flat_map(|i| (0x3f80 + i).to_le_bytes()).collect();
    let bits = upcast_bf16_to_f32(&bytes).unwrap();
    assert_eq!(bits.len(), 128);
    assert_eq!(bits[5], 0x3f85_0000);
    assert_eq!(upcast_bf16_to_f32(&vec![0; 255]), Err(255));
}
