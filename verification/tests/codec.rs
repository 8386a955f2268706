use saleae_importer::scalar::{get_i32, get_u32, get_u64, put_i32, put_u32, put_u64};
use saleae_importer::{
    AnalogData, Binary64, Data, DigitalData, FormatError, SaleaeExport, State,
};

const MAGIC: &[u8; 8] = b"<SALEAE>";

fn num(x: f64) -> Binary64 {
    Binary64::from_bits(x.to_bits())
}

fn nums(xs: &[f64]) -> Vec<Binary64> {
    xs.iter().map(|x| num(*x)).collect()
}

fn floats(xs: &[Binary64]) -> Vec<f64> {
    xs.iter().map(|x| f64::from_bits(x.to_bits())).collect()
}

fn analog_example() -> SaleaeExport {
    SaleaeExport {
        version: 0,
        file_data: Data::Analog(AnalogData {
            begin_time: num(0.0),
            sample_rate: 1000,
            downsample: 1,
            samples: nums(&[0.1, 0.2, 0.15]),
        }),
    }
}

fn digital_example() -> SaleaeExport {
    SaleaeExport {
        version: 0,
        file_data: Data::Digital(DigitalData {
            initial_state: State::High,
            begin_time: num(0.25),
            end_time: num(12.5),
            transition_times: nums(&[1.0, 3.0, 3.5]),
        }),
    }
}

fn encode(x: &SaleaeExport) -> Vec<u8> {
    let mut out = Vec::new();
    x.write_to(&mut out);
    out
}

/// The header and the fixed part of a digital capture, up to the count.
fn digital_header(level: u32, count: u64) -> Vec<u8> {
    let mut b = MAGIC.to_vec();
    b.extend_from_slice(&0i32.to_le_bytes());
    b.extend_from_slice(&0u32.to_le_bytes());
    b.extend_from_slice(&level.to_le_bytes());
    b.extend_from_slice(&1.5f64.to_le_bytes());
    b.extend_from_slice(&2.5f64.to_le_bytes());
    b.extend_from_slice(&count.to_le_bytes());
    b
}

#[test]
fn analog_end_to_end() {
    let bytes = encode(&analog_example());
    let back = SaleaeExport::read_from_bytes(&bytes).unwrap();
    assert_eq!(back.version, 0);
    let analog = back.assume_analog();
    assert_eq!(analog.sample_rate, 1000);
    assert_eq!(analog.downsample, 1);
    assert_eq!(f64::from_bits(analog.begin_time.to_bits()), 0.0);
    assert_eq!(floats(&analog.samples), vec![0.1, 0.2, 0.15]);
}

#[test]
fn analog_round_trip_is_field_for_field() {
    let x = analog_example();
    assert_eq!(SaleaeExport::read_from_bytes(&encode(&x)), Ok(x));
}

#[test]
fn digital_round_trip_is_field_for_field() {
    let x = digital_example();
    assert_eq!(SaleaeExport::read_from_bytes(&encode(&x)), Ok(x));
}

#[test]
fn digital_round_trip_low_start() {
    let x = SaleaeExport {
        version: 0,
        file_data: Data::Digital(DigitalData {
            initial_state: State::Low,
            begin_time: num(-1.0),
            end_time: num(1e300),
            transition_times: nums(&[0.5]),
        }),
    };
    assert_eq!(SaleaeExport::read_from_bytes(&encode(&x)), Ok(x));
}

#[test]
fn round_trip_of_empty_sequences() {
    let d = SaleaeExport {
        version: 0,
        file_data: Data::Digital(DigitalData {
            initial_state: State::Low,
            begin_time: num(0.0),
            end_time: num(0.0),
            transition_times: Vec::new(),
        }),
    };
    let bytes = encode(&d);
    assert_eq!(bytes.len(), 44);
    assert_eq!(SaleaeExport::read_from_bytes(&bytes), Ok(d));

    let a = SaleaeExport {
        version: 0,
        file_data: Data::Analog(AnalogData {
            begin_time: num(0.0),
            sample_rate: 0,
            downsample: 0,
            samples: Vec::new(),
        }),
    };
    let bytes = encode(&a);
    assert_eq!(bytes.len(), 48);
    assert_eq!(SaleaeExport::read_from_bytes(&bytes), Ok(a));
}

#[test]
fn round_trip_keeps_every_bit() {
    let odd = [
        0x7ff8_0000_0000_0001u64,
        0xfff0_0000_0000_0000,
        0x8000_0000_0000_0000,
        0x0000_0000_0000_0001,
        0x7ff0_0000_dead_beef,
        u64::MAX,
    ];
    let x = SaleaeExport {
        version: 0,
        file_data: Data::Analog(AnalogData {
            begin_time: Binary64::from_bits(0x7ff8_1234_5678_9abc),
            sample_rate: u64::MAX,
            downsample: 0x0102_0304_0506_0708,
            samples: odd.iter().map(|b| Binary64::from_bits(*b)).collect(),
        }),
    };
    let back = SaleaeExport::read_from_bytes(&encode(&x)).unwrap();
    let analog = back.assume_analog();
    assert_eq!(analog.begin_time.to_bits(), 0x7ff8_1234_5678_9abc);
    assert_eq!(analog.sample_rate, u64::MAX);
    assert_eq!(analog.downsample, 0x0102_0304_0506_0708);
    let bits: Vec<u64> = analog.samples.iter().map(|s| s.to_bits()).collect();
    assert_eq!(bits, odd.to_vec());
}

#[test]
fn round_trip_of_a_long_sequence() {
    let times: Vec<Binary64> = (0..1000u64).map(|i| num(i as f64 * 0.125)).collect();
    let x = SaleaeExport {
        version: 0,
        file_data: Data::Digital(DigitalData {
            initial_state: State::High,
            begin_time: num(0.0),
            end_time: num(125.0),
            transition_times: times,
        }),
    };
    let bytes = encode(&x);
    assert_eq!(bytes.len(), 44 + 8 * 1000);
    assert_eq!(SaleaeExport::read_from_bytes(&bytes), Ok(x));
}

#[test]
fn analog_encoding_is_exact() {
    let x = SaleaeExport {
        version: 0,
        file_data: Data::Analog(AnalogData {
            begin_time: num(1.0),
            sample_rate: 0x0102_0304_0506_0708,
            downsample: 3,
            samples: nums(&[-2.0]),
        }),
    };
    let expected: Vec<u8> = vec![
        0x3c, 0x53, 0x41, 0x4c, 0x45, 0x41, 0x45, 0x3e, // <SALEAE>
        0, 0, 0, 0, // version
        1, 0, 0, 0, // tag
        0, 0, 0, 0, 0, 0, 0xf0, 0x3f, // 1.0
        8, 7, 6, 5, 4, 3, 2, 1, // sample rate
        3, 0, 0, 0, 0, 0, 0, 0, // downsample
        1, 0, 0, 0, 0, 0, 0, 0, // count
        0, 0, 0, 0, 0, 0, 0, 0xc0, // -2.0
    ];
    assert_eq!(encode(&x), expected);
    assert_eq!(SaleaeExport::read_from_bytes(&expected), Ok(x));
}

#[test]
fn digital_encoding_is_exact() {
    let x = SaleaeExport {
        version: 0,
        file_data: Data::Digital(DigitalData {
            initial_state: State::High,
            begin_time: num(0.0),
            end_time: num(2.0),
            transition_times: nums(&[0.5, 1.0]),
        }),
    };
    let expected: Vec<u8> = vec![
        0x3c, 0x53, 0x41, 0x4c, 0x45, 0x41, 0x45, 0x3e, // <SALEAE>
        0, 0, 0, 0, // version
        0, 0, 0, 0, // tag
        1, 0, 0, 0, // level
        0, 0, 0, 0, 0, 0, 0, 0, // 0.0
        0, 0, 0, 0, 0, 0, 0, 0x40, // 2.0
        2, 0, 0, 0, 0, 0, 0, 0, // count
        0, 0, 0, 0, 0, 0, 0xe0, 0x3f, // 0.5
        0, 0, 0, 0, 0, 0, 0xf0, 0x3f, // 1.0
    ];
    assert_eq!(encode(&x), expected);
    assert_eq!(SaleaeExport::read_from_bytes(&expected), Ok(x));
}

#[test]
fn encoding_agrees_with_plain_little_endian() {
    let x = digital_example();
    let mut expected = MAGIC.to_vec();
    expected.extend_from_slice(&0i32.to_le_bytes());
    expected.extend_from_slice(&0u32.to_le_bytes());
    expected.extend_from_slice(&1u32.to_le_bytes());
    expected.extend_from_slice(&0.25f64.to_le_bytes());
    expected.extend_from_slice(&12.5f64.to_le_bytes());
    expected.extend_from_slice(&3u64.to_le_bytes());
    for t in [1.0f64, 3.0, 3.5] {
        expected.extend_from_slice(&t.to_le_bytes());
    }
    assert_eq!(encode(&x), expected);
}

#[test]
fn low_level_is_written_as_zero() {
    let x = SaleaeExport {
        version: 0,
        file_data: Data::Digital(DigitalData {
            initial_state: State::Low,
            begin_time: num(0.0),
            end_time: num(0.0),
            transition_times: Vec::new(),
        }),
    };
    assert_eq!(encode(&x)[16..20].to_vec(), vec![0u8, 0, 0, 0]);
    assert_eq!(encode(&digital_example())[16..20].to_vec(), vec![1u8, 0, 0, 0]);
}

#[test]
fn version_is_written_as_it_stands() {
    let mut x = analog_example();
    x.version = -2;
    let bytes = encode(&x);
    assert_eq!(bytes[8..12].to_vec(), vec![0xfeu8, 0xff, 0xff, 0xff]);
    assert_eq!(
        SaleaeExport::read_from_bytes(&bytes),
        Err(FormatError::UnsupportedVersion)
    );
    x.version = 0x0102_0304;
    assert_eq!(encode(&x)[8..12].to_vec(), vec![4u8, 3, 2, 1]);
    x.version = i32::MIN;
    assert_eq!(encode(&x)[8..12].to_vec(), vec![0u8, 0, 0, 0x80]);
}

#[test]
fn write_to_appends_to_what_is_there() {
    let mut out = vec![9u8, 8, 7];
    analog_example().write_to(&mut out);
    assert_eq!(out[..3].to_vec(), vec![9u8, 8, 7]);
    assert_eq!(out[3..].to_vec(), encode(&analog_example()));
}

#[test]
fn count_field_is_the_length() {
    for n in 0..6u64 {
        let seq: Vec<Binary64> = (0..n).map(|i| num(i as f64)).collect();
        let d = SaleaeExport {
            version: 0,
            file_data: Data::Digital(DigitalData {
                initial_state: State::Low,
                begin_time: num(0.0),
                end_time: num(1.0),
                transition_times: seq.clone(),
            }),
        };
        let bytes = encode(&d);
        assert_eq!(bytes[36..44].to_vec(), n.to_le_bytes().to_vec());
        assert_eq!(bytes.len() as u64, 44 + 8 * n);

        let a = SaleaeExport {
            version: 0,
            file_data: Data::Analog(AnalogData {
                begin_time: num(0.0),
                sample_rate: 1,
                downsample: 1,
                samples: seq,
            }),
        };
        let bytes = encode(&a);
        assert_eq!(bytes[40..48].to_vec(), n.to_le_bytes().to_vec());
        assert_eq!(bytes.len() as u64, 48 + 8 * n);
    }
}

#[test]
fn decoded_length_is_the_count() {
    for n in 0..6u64 {
        let mut bytes = digital_header(0, n);
        for i in 0..10u64 {
            bytes.extend_from_slice(&(i as f64).to_le_bytes());
        }
        let d = SaleaeExport::read_from_bytes(&bytes).unwrap().assume_digital();
        assert_eq!(d.transition_times.len() as u64, n);
        let expected: Vec<f64> = (0..n).map(|i| i as f64).collect();
        assert_eq!(floats(&d.transition_times), expected);
    }
}

#[test]
fn fixed_fields_are_decoded_from_their_offsets() {
    let mut bytes = digital_header(1, 1);
    bytes.extend_from_slice(&7.0f64.to_le_bytes());
    let d = SaleaeExport::read_from_bytes(&bytes).unwrap().assume_digital();
    assert_eq!(d.initial_state, State::High);
    assert_eq!(f64::from_bits(d.begin_time.to_bits()), 1.5);
    assert_eq!(f64::from_bits(d.end_time.to_bits()), 2.5);
    assert_eq!(floats(&d.transition_times), vec![7.0]);
}

#[test]
fn bad_magic_is_rejected() {
    let mut bytes = encode(&analog_example());
    bytes[7] = b'?';
    assert_eq!(SaleaeExport::read_from_bytes(&bytes), Err(FormatError::BadMagic));
    let mut bytes = encode(&analog_example());
    bytes[0] = 0;
    assert_eq!(SaleaeExport::read_from_bytes(&bytes), Err(FormatError::BadMagic));
}

#[test]
fn bad_magic_is_rejected_whatever_follows() {
    assert_eq!(
        SaleaeExport::read_from_bytes(b"<saleae>"),
        Err(FormatError::BadMagic)
    );
    let mut bytes = b"<SALEAE ".to_vec();
    bytes.extend_from_slice(&5i32.to_le_bytes());
    bytes.extend_from_slice(&9u32.to_le_bytes());
    assert_eq!(SaleaeExport::read_from_bytes(&bytes), Err(FormatError::BadMagic));
}

#[test]
fn other_versions_are_rejected() {
    for v in [1i32, -1, 2, i32::MAX, i32::MIN, 256] {
        let mut bytes = encode(&digital_example());
        bytes[8..12].copy_from_slice(&v.to_le_bytes());
        assert_eq!(
            SaleaeExport::read_from_bytes(&bytes),
            Err(FormatError::UnsupportedVersion)
        );
    }
    let mut bytes = MAGIC.to_vec();
    bytes.extend_from_slice(&1i32.to_le_bytes());
    assert_eq!(
        SaleaeExport::read_from_bytes(&bytes),
        Err(FormatError::UnsupportedVersion)
    );
}

#[test]
fn unknown_tags_are_rejected_with_the_tag() {
    for tag in [2u32, 3, 0x100, 0x0100_0000, u32::MAX] {
        let mut bytes = encode(&digital_example());
        bytes[12..16].copy_from_slice(&tag.to_le_bytes());
        assert_eq!(
            SaleaeExport::read_from_bytes(&bytes),
            Err(FormatError::UnknownVariant(tag))
        );
    }
}

#[test]
fn every_proper_prefix_is_truncated() {
    for x in [analog_example(), digital_example()] {
        let bytes = encode(&x);
        for cut in 0..bytes.len() {
            assert_eq!(
                SaleaeExport::read_from_bytes(&bytes[..cut]),
                Err(FormatError::Truncated),
                "cut at {}",
                cut
            );
        }
        assert_eq!(SaleaeExport::read_from_bytes(&bytes), Ok(x));
    }
}

#[test]
fn empty_buffer_is_truncated() {
    assert_eq!(SaleaeExport::read_from_bytes(&[]), Err(FormatError::Truncated));
}

#[test]
fn a_count_beyond_the_buffer_is_truncated() {
    for count in [2u64, 1 << 32, 1 << 61, u64::MAX] {
        let mut bytes = digital_header(0, count);
        bytes.extend_from_slice(&1.0f64.to_le_bytes());
        assert_eq!(
            SaleaeExport::read_from_bytes(&bytes),
            Err(FormatError::Truncated)
        );
    }
}

#[test]
fn bytes_after_the_capture_are_ignored() {
    let x = digital_example();
    let mut bytes = encode(&x);
    bytes.extend_from_slice(&[0xaa; 13]);
    assert_eq!(SaleaeExport::read_from_bytes(&bytes), Ok(x));
}

#[test]
fn any_nonzero_level_reads_as_high() {
    for level in [1u32, 2, 3, 0x100, 0x8000_0000, u32::MAX] {
        let bytes = digital_header(level, 0);
        let d = SaleaeExport::read_from_bytes(&bytes).unwrap().assume_digital();
        assert_eq!(d.initial_state, State::High);
    }
    let d = SaleaeExport::read_from_bytes(&digital_header(0, 0))
        .unwrap()
        .assume_digital();
    assert_eq!(d.initial_state, State::Low);
}

#[test]
fn a_lenient_level_is_written_back_as_one() {
    let bytes = digital_header(2, 0);
    let x = SaleaeExport::read_from_bytes(&bytes).unwrap();
    let again = encode(&x);
    assert_eq!(again[16..20].to_vec(), vec![1u8, 0, 0, 0]);
    assert_eq!(again[..16].to_vec(), bytes[..16].to_vec());
    assert_eq!(again[20..].to_vec(), bytes[20..].to_vec());
}

#[test]
fn state_wire_values() {
    assert_eq!(State::Low.to_wire(), 0);
    assert_eq!(State::High.to_wire(), 1);
    assert_eq!(State::from_wire(0), State::Low);
    assert_eq!(State::from_wire(1), State::High);
    assert_eq!(State::from_wire(2), State::High);
    assert_eq!(State::from_wire(u32::MAX), State::High);
}

#[test]
fn state_as_bool() {
    assert!(State::High.as_bool());
    assert!(!State::Low.as_bool());
    assert!(bool::from(State::High));
    assert!(!bool::from(State::Low));
    let b: bool = State::High.into();
    assert!(b);
}

#[test]
fn projections_return_the_capture() {
    let d = digital_example().assume_digital();
    assert_eq!(d.initial_state, State::High);
    assert_eq!(floats(&d.transition_times), vec![1.0, 3.0, 3.5]);
    let a = analog_example().assume_analog();
    assert_eq!(a.sample_rate, 1000);
    assert_eq!(floats(&a.samples), vec![0.1, 0.2, 0.15]);
}

#[test]
fn payloads_decode_at_an_offset() {
    let bytes = encode(&digital_example());
    let d = DigitalData::read_at(&bytes, 16).unwrap();
    assert_eq!(Data::Digital(d), digital_example().file_data);
    assert_eq!(Data::read_at(&bytes, 12), Ok(digital_example().file_data));
    assert_eq!(Data::read_at(&bytes, bytes.len()), Err(FormatError::Truncated));
    assert_eq!(Data::read_at(&bytes, usize::MAX), Err(FormatError::Truncated));

    let bytes = encode(&analog_example());
    let a = AnalogData::read_at(&bytes, 16).unwrap();
    assert_eq!(Data::Analog(a), analog_example().file_data);
    assert_eq!(
        AnalogData::read_at(&bytes, bytes.len() + 1),
        Err(FormatError::Truncated)
    );
    assert_eq!(
        DigitalData::read_at(&bytes, usize::MAX - 3),
        Err(FormatError::Truncated)
    );
}

#[test]
fn payloads_encode_without_the_header() {
    let x = digital_example();
    let whole = encode(&x);
    let mut out = Vec::new();
    x.file_data.write_to(&mut out);
    assert_eq!(out, whole[12..].to_vec());
    let mut out = Vec::new();
    x.assume_digital().write_to(&mut out);
    assert_eq!(out, whole[16..].to_vec());

    let x = analog_example();
    let whole = encode(&x);
    let mut out = Vec::new();
    x.assume_analog().write_to(&mut out);
    assert_eq!(out, whole[16..].to_vec());
}

#[test]
fn scalars_are_read_little_endian() {
    let bytes = [0x78u8, 0x56, 0x34, 0x12, 0xff, 0xff, 0xff, 0xff, 0x01];
    assert_eq!(get_u32(&bytes, 0), Ok(0x1234_5678));
    assert_eq!(get_u32(&bytes, 1), Ok(0xff12_3456));
    assert_eq!(get_i32(&bytes, 0), Ok(0x1234_5678));
    assert_eq!(get_i32(&bytes, 4), Ok(-1));
    assert_eq!(get_i32(&bytes, 5), Ok(0x01ff_ffff));
    assert_eq!(get_u64(&bytes, 0), Ok(0xffff_ffff_1234_5678));
    assert_eq!(get_u64(&bytes, 1), Ok(0x01ff_ffff_ff12_3456));
    assert_eq!(get_u32(&bytes, 5), Ok(0x01ff_ffff));
    assert_eq!(get_u32(&bytes, 6), Err(FormatError::Truncated));
    assert_eq!(get_i32(&bytes, 6), Err(FormatError::Truncated));
    assert_eq!(get_u64(&bytes, 2), Err(FormatError::Truncated));
    assert_eq!(get_u32(&bytes, 9), Err(FormatError::Truncated));
    assert_eq!(get_u32(&bytes, 10), Err(FormatError::Truncated));
    assert_eq!(get_u64(&bytes, usize::MAX), Err(FormatError::Truncated));
}

#[test]
fn scalars_are_written_little_endian() {
    let mut out = vec![0xeeu8];
    put_u32(&mut out, 0x1234_5678);
    put_i32(&mut out, -2);
    put_u64(&mut out, 0x0102_0304_0506_0708);
    assert_eq!(
        out,
        vec![
            0xee, 0x78, 0x56, 0x34, 0x12, 0xfe, 0xff, 0xff, 0xff, 8, 7, 6, 5, 4, 3, 2, 1
        ]
    );
}
