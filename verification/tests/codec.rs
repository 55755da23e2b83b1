use uint7::{u7, Decoder, Step};

#[test]
fn test_u7_to_bytes() {
    let a = u7::new(0x80);
    let bytes = a.to_encoded_bytes();
    assert_eq!(bytes, vec![0x80, 0x01]);
    let b = u7::new(1);
    let bytes = b.to_encoded_bytes();
    assert_eq!(bytes, vec![0x01]);
}

#[test]
fn small_values_take_one_byte() {
    assert_eq!(u7::new(0).to_encoded_bytes(), vec![0x00]);
    assert_eq!(u7::new(127).to_encoded_bytes(), vec![0x7F]);
}

#[test]
fn continuation_starts_at_128() {
    assert_eq!(u7::new(128).to_encoded_bytes(), vec![0x80, 0x01]);
    assert_eq!(u7::new(300).to_encoded_bytes(), vec![0xAC, 0x02]);
}

#[test]
fn encoding_at_each_length_boundary() {
    assert_eq!(u7::new(0x3FFF).to_encoded_bytes(), vec![0xFF, 0x7F]);
    assert_eq!(u7::new(0x4000).to_encoded_bytes(), vec![0x80, 0x80, 0x01]);
    assert_eq!(u7::new(0x1F_FFFF).to_encoded_bytes(), vec![0xFF, 0xFF, 0x7F]);
    assert_eq!(u7::new(0x20_0000).to_encoded_bytes(), vec![0x80, 0x80, 0x80, 0x01]);
    assert_eq!(u7::new(0x0FFF_FFFF).to_encoded_bytes(), vec![0xFF, 0xFF, 0xFF, 0x7F]);
    assert_eq!(u7::new(0x1000_0000).to_encoded_bytes(), vec![0x80, 0x80, 0x80, 0x80, 0x01]);
    assert_eq!(u7::new(u32::MAX).to_encoded_bytes(), vec![0xFF, 0xFF, 0xFF, 0xFF, 0x0F]);
}

#[test]
fn encoding_is_as_short_as_the_value_allows() {
    let cases: [(u32, usize); 10] = [
        (0, 1),
        (127, 1),
        (128, 2),
        (0x3FFF, 2),
        (0x4000, 3),
        (0x1F_FFFF, 3),
        (0x20_0000, 4),
        (0x0FFF_FFFF, 4),
        (0x1000_0000, 5),
        (u32::MAX, 5),
    ];
    for (v, len) in cases {
        let bytes = u7::new(v).to_encoded_bytes();
        assert_eq!(bytes.len(), len);
        for b in &bytes[..len - 1] {
            assert!(*b >= 0x80);
        }
        assert!(bytes[len - 1] < 0x80);
        assert!(len == 1 || bytes[len - 1] != 0);
    }
}

#[test]
fn decoding_undoes_encoding() {
    for v in [
        0u32, 1, 127, 128, 255, 300, 0x3FFF, 0x4000, 0x1F_FFFF, 0x20_0000, 0x0FFF_FFFF,
        0x1000_0000, 0xDEAD_BEEF, u32::MAX,
    ] {
        let bytes = u7::new(v).to_encoded_bytes();
        let (value, used) = u7::from_encoded_bytes(&bytes);
        assert_eq!(value, u7::new(v));
        assert_eq!(used, bytes.len());
        assert_eq!(u7::try_from_encoded_bytes(&bytes), Some((u7::new(v), bytes.len())));
    }
}

#[test]
fn decoding_stops_after_one_value() {
    let mut buffer = u7::new(300).to_encoded_bytes();
    buffer.extend_from_slice(&u7::new(5).to_encoded_bytes());
    buffer.push(0xFF);
    let (first, used) = u7::from_encoded_bytes(&buffer);
    assert_eq!(first, u7::new(300));
    assert_eq!(used, 2);
    let (second, used) = u7::from_encoded_bytes(&buffer[2..]);
    assert_eq!(second, u7::new(5));
    assert_eq!(used, 1);
}

#[test]
fn decoding_adds_each_payload_at_its_position() {
    assert_eq!(u7::from_encoded_bytes(&[0x01]), (u7::new(1), 1));
    assert_eq!(u7::from_encoded_bytes(&[0x80, 0x01]), (u7::new(128), 2));
    assert_eq!(u7::from_encoded_bytes(&[0xE5, 0x8E, 0x26]), (u7::new(624_485), 3));
    assert_eq!(u7::from_encoded_bytes(&[0x80, 0x00]), (u7::new(0), 2));
}

#[test]
fn decoding_reads_at_most_five_bytes() {
    assert_eq!(u7::from_encoded_bytes(&[0x80, 0x80, 0x80, 0x80, 0x80, 0x01]), (u7::new(0), 5));
    assert_eq!(
        u7::from_encoded_bytes(&[0xFF, 0xFF, 0xFF, 0xFF, 0xFF, 0xFF, 0x01]),
        (u7::new(u32::MAX), 5)
    );
    assert_eq!(u7::try_from_encoded_bytes(&[0x80; 5]), Some((u7::new(0), 5)));
}

#[test]
fn fifth_byte_gives_only_its_low_four_bits() {
    assert_eq!(
        u7::from_encoded_bytes(&[0x80, 0x80, 0x80, 0x80, 0x7F]),
        (u7::new(0xF000_0000), 5)
    );
    assert_eq!(
        u7::from_encoded_bytes(&[0x81, 0x80, 0x80, 0x80, 0x10]),
        (u7::new(1), 5)
    );
}

#[test]
fn truncated_input_is_rejected() {
    assert_eq!(u7::try_from_encoded_bytes(&[]), None);
    assert_eq!(u7::try_from_encoded_bytes(&[0x80]), None);
    assert_eq!(u7::try_from_encoded_bytes(&[0xFF, 0x80]), None);
    assert_eq!(u7::try_from_encoded_bytes(&[0x80, 0x81, 0x82]), None);
    assert_eq!(u7::try_from_encoded_bytes(&[0xFF, 0xFF, 0xFF, 0xFF]), None);
}

#[test]
fn checked_decoding_agrees_with_decoding() {
    let buffers: [&[u8]; 5] = [
        &[0x00],
        &[0x7F, 0x80],
        &[0xAC, 0x02, 0x33],
        &[0xFF, 0xFF, 0xFF, 0xFF, 0x0F],
        &[0x80, 0x80, 0x80, 0x80, 0x80, 0x80],
    ];
    for buffer in buffers {
        assert_eq!(u7::try_from_encoded_bytes(buffer), Some(u7::from_encoded_bytes(buffer)));
    }
}

fn feed(bytes: &[u8]) -> Option<(u7, usize)> {
    let mut decoder = Decoder::new();
    for (i, byte) in bytes.iter().enumerate() {
        match decoder.push(*byte) {
            Step::Done(value) => return Some((value, i + 1)),
            Step::More(next) => decoder = next,
        }
    }
    None
}

#[test]
fn decoder_finishes_on_the_last_byte_of_a_value() {
    assert_eq!(feed(&[0x00]), Some((u7::new(0), 1)));
    assert_eq!(feed(&[0x80, 0x01]), Some((u7::new(128), 2)));
    assert_eq!(feed(&[0xFF, 0xFF, 0xFF, 0xFF, 0x0F, 0x55]), Some((u7::new(u32::MAX), 5)));
    assert_eq!(feed(&[0x80, 0x80, 0x80, 0x80, 0xFF]), Some((u7::new(0xF000_0000), 5)));
}

#[test]
fn decoder_asks_for_more_while_the_flag_is_set() {
    assert_eq!(feed(&[]), None);
    assert_eq!(feed(&[0x80]), None);
    assert_eq!(feed(&[0x80, 0xFF, 0x80, 0xFF]), None);
    assert!(matches!(Decoder::new().push(0x80), Step::More(_)));
    assert!(matches!(Decoder::new().push(0x7F), Step::Done(_)));
}

#[test]
fn decoder_agrees_with_buffer_decoding() {
    for v in [0u32, 127, 128, 0x4000, 0x20_0000, 0x1000_0000, u32::MAX] {
        let bytes = u7::new(v).to_encoded_bytes();
        assert_eq!(feed(&bytes), Some((u7::new(v), bytes.len())));
        assert_eq!(feed(&bytes), u7::try_from_encoded_bytes(&bytes));
    }
}
