use management_app::codec::{
    decode_button_event, decode_display_message, encode_button_event, encode_display_message,
    EncodeError,
};
use management_app::message::{
    line_fits, ButtonPushed, DisplayText, MAX_BRIGHTNESS, MAX_LINES, MAX_LINE_BYTES,
};
use management_app::varint::{read_varint, write_varint, DecodeError};
use management_app::wire::{read_key, skip_payload, write_key, WireType};

fn display(lines: &[&str], brightness: u32, duration_ms: u32) -> DisplayText {
    DisplayText::new(lines.iter().map(|l| l.to_string()).collect(), brightness, duration_ms)
}

fn varint_of(v: u64) -> Vec<u8> {
    let mut out = Vec::new();
    write_varint(&mut out, v);
    out
}

#[test]
fn varint_small_values_take_one_byte() {
    assert_eq!(varint_of(0), vec![0x00]);
    assert_eq!(varint_of(1), vec![0x01]);
    assert_eq!(varint_of(127), vec![0x7f]);
}

#[test]
fn varint_splits_into_groups_of_seven_bits() {
    assert_eq!(varint_of(128), vec![0x80, 0x01]);
    assert_eq!(varint_of(300), vec![0xac, 0x02]);
    assert_eq!(varint_of(500), vec![0xf4, 0x03]);
    assert_eq!(varint_of(16384), vec![0x80, 0x80, 0x01]);
}

#[test]
fn varint_of_the_largest_value_takes_ten_bytes() {
    let bytes = varint_of(u64::MAX);
    assert_eq!(bytes, vec![0xff, 0xff, 0xff, 0xff, 0xff, 0xff, 0xff, 0xff, 0xff, 0x01]);
    assert_eq!(read_varint(&bytes, 0), Ok((u64::MAX, 10)));
}

#[test]
fn varint_appends_to_what_is_there() {
    let mut out = vec![9u8, 9];
    write_varint(&mut out, 300);
    assert_eq!(out, vec![9, 9, 0xac, 0x02]);
}

#[test]
fn varint_reads_from_the_given_place() {
    let bytes = [0xffu8, 0xac, 0x02, 0x05];
    assert_eq!(read_varint(&bytes, 1), Ok((300, 3)));
    assert_eq!(read_varint(&bytes, 3), Ok((5, 4)));
}

#[test]
fn varint_accepts_padded_forms() {
    assert_eq!(read_varint(&[0x80, 0x00], 0), Ok((0, 2)));
    assert_eq!(read_varint(&[0x81, 0x80, 0x00], 0), Ok((1, 3)));
}

#[test]
fn varint_that_stops_early_is_incomplete() {
    assert_eq!(read_varint(&[], 0), Err(DecodeError::Incomplete));
    assert_eq!(read_varint(&[0x80], 0), Err(DecodeError::Incomplete));
    assert_eq!(read_varint(&[0xff, 0xff, 0xff], 0), Err(DecodeError::Incomplete));
    assert_eq!(read_varint(&[0x01], 1), Err(DecodeError::Incomplete));
}

#[test]
fn varint_of_eleven_bytes_is_malformed() {
    let bytes = [0x80u8; 11];
    assert_eq!(read_varint(&bytes, 0), Err(DecodeError::Malformed));
    let ten = [0x80u8; 10];
    assert_eq!(read_varint(&ten, 0), Err(DecodeError::Malformed));
}

#[test]
fn varint_beyond_64_bits_keeps_its_low_64_bits() {
    let bytes = [0xffu8, 0xff, 0xff, 0xff, 0xff, 0xff, 0xff, 0xff, 0xff, 0x02];
    assert_eq!(read_varint(&bytes, 0), Ok((u64::MAX >> 1, 10)));
    let odd = [0x81u8, 0x80, 0x80, 0x80, 0x80, 0x80, 0x80, 0x80, 0x80, 0x7f];
    assert_eq!(read_varint(&odd, 0), Ok(((1u64 << 63) + 1, 10)));
}

#[test]
fn varint_round_trip_on_many_values() {
    let mut v: u64 = 1;
    for _ in 0..64 {
        for candidate in [v - 1, v, v + 1] {
            let bytes = varint_of(candidate);
            assert_eq!(read_varint(&bytes, 0), Ok((candidate, bytes.len())));
        }
        v = v.wrapping_mul(2);
        if v == 0 {
            break;
        }
    }
}

#[test]
fn key_holds_field_number_and_shape() {
    let mut out = Vec::new();
    write_key(&mut out, 1, WireType::LengthDelimited);
    write_key(&mut out, 2, WireType::Varint);
    write_key(&mut out, 3, WireType::Varint);
    write_key(&mut out, 16, WireType::Fixed32);
    assert_eq!(out, vec![0x0a, 0x10, 0x18, 0x85, 0x01]);
    assert_eq!(read_key(&out, 0), Ok((1, WireType::LengthDelimited, 1)));
    assert_eq!(read_key(&out, 1), Ok((2, WireType::Varint, 2)));
    assert_eq!(read_key(&out, 3), Ok((16, WireType::Fixed32, 5)));
}

#[test]
fn key_with_field_zero_or_unknown_shape_is_malformed() {
    assert_eq!(read_key(&[0x00], 0), Err(DecodeError::Malformed));
    assert_eq!(read_key(&[0x02], 0), Err(DecodeError::Malformed));
    assert_eq!(read_key(&[0x0e], 0), Err(DecodeError::Malformed));
    assert_eq!(read_key(&[0x0f], 0), Err(DecodeError::Malformed));
    assert_eq!(read_key(&[0x80, 0x80, 0x80, 0x80, 0x10], 0), Err(DecodeError::Malformed));
}

#[test]
fn key_is_cut_to_32_bits() {
    assert_eq!(read_key(&[0x88, 0x80, 0x80, 0x80, 0x10], 0), Ok((1, WireType::Varint, 5)));
    assert_eq!(
        read_key(&[0x92, 0x80, 0x80, 0x80, 0xf0, 0xff, 0x01], 0),
        Ok((2, WireType::LengthDelimited, 7))
    );
}

#[test]
fn key_may_open_or_end_a_group() {
    assert_eq!(read_key(&[0x0b], 0), Ok((1, WireType::StartGroup, 1)));
    assert_eq!(read_key(&[0x0c], 0), Ok((1, WireType::EndGroup, 1)));
    let mut out = Vec::new();
    write_key(&mut out, 2, WireType::StartGroup);
    write_key(&mut out, 2, WireType::EndGroup);
    assert_eq!(out, vec![0x13, 0x14]);
}

#[test]
fn groups_are_passed_over_up_to_their_end() {
    let group = [0x08u8, 0x01, 0x12, 0x02, b'h', b'i', 0x2d, 1, 2, 3, 4, 0x14, 0x08, 0x07];
    assert_eq!(skip_payload(&group, 0, WireType::StartGroup), Ok(12));
    assert_eq!(skip_payload(&[0x14], 0, WireType::StartGroup), Ok(1));
    assert_eq!(skip_payload(&[0x1c], 0, WireType::StartGroup), Ok(1));
    assert_eq!(skip_payload(&group[..11], 0, WireType::StartGroup), Err(DecodeError::Incomplete));
    assert_eq!(skip_payload(&[], 0, WireType::StartGroup), Err(DecodeError::Incomplete));
    assert_eq!(skip_payload(&[0x13, 0x14, 0x14], 0, WireType::StartGroup), Err(DecodeError::Malformed));
    assert_eq!(skip_payload(&[0x14], 0, WireType::EndGroup), Err(DecodeError::Malformed));
    assert_eq!(skip_payload(&[], 0, WireType::EndGroup), Err(DecodeError::Malformed));
}

#[test]
fn chunk_length_is_cut_to_32_bits() {
    let bytes = [0x82u8, 0x80, 0x80, 0x80, 0x10, b'h', b'i', 0x00];
    assert_eq!(skip_payload(&bytes, 0, WireType::LengthDelimited), Ok(7));
}

#[test]
fn payloads_are_measured_by_shape() {
    let bytes = [0xacu8, 0x02, 1, 2, 3, 4, 5, 6, 7, 8];
    assert_eq!(skip_payload(&bytes, 0, WireType::Varint), Ok(2));
    assert_eq!(skip_payload(&bytes, 2, WireType::Fixed64), Ok(10));
    assert_eq!(skip_payload(&bytes, 2, WireType::Fixed32), Ok(6));
    assert_eq!(skip_payload(&bytes, 3, WireType::Fixed64), Err(DecodeError::Incomplete));
    assert_eq!(skip_payload(&bytes, 7, WireType::Fixed32), Err(DecodeError::Incomplete));
    assert_eq!(skip_payload(&bytes, 1, WireType::LengthDelimited), Ok(4));
    assert_eq!(skip_payload(&bytes, 9, WireType::LengthDelimited), Err(DecodeError::Incomplete));
}

#[test]
fn button_event_bytes_are_exact() {
    assert_eq!(encode_button_event(&ButtonPushed::new(2)), vec![0x08, 0x02]);
    assert_eq!(encode_button_event(&ButtonPushed::new(300)), vec![0x08, 0xac, 0x02]);
    assert_eq!(encode_button_event(&ButtonPushed::new(0)), Vec::<u8>::new());
}

#[test]
fn button_event_decodes() {
    assert_eq!(decode_button_event(&[0x08, 0x02]), Ok(ButtonPushed { number: 2 }));
    assert_eq!(decode_button_event(&[0x08, 0xac, 0x02]), Ok(ButtonPushed { number: 300 }));
}

#[test]
fn no_bytes_decode_to_button_zero() {
    assert_eq!(decode_button_event(&[]), Ok(ButtonPushed { number: 0 }));
}

#[test]
fn button_event_round_trip() {
    for number in [0u32, 1, 2, 5, 127, 128, 255, 256, 65535, 1 << 20, u32::MAX] {
        let event = ButtonPushed::new(number);
        assert_eq!(decode_button_event(&encode_button_event(&event)), Ok(event));
    }
}

#[test]
fn truncated_button_event_is_incomplete() {
    assert_eq!(decode_button_event(&[0x08]), Err(DecodeError::Incomplete));
    assert_eq!(decode_button_event(&[0x08, 0x80]), Err(DecodeError::Incomplete));
    assert_eq!(decode_button_event(&[0x80]), Err(DecodeError::Incomplete));
    assert_eq!(decode_button_event(&[0x08, 0x02, 0x12, 0x05, b'a']), Err(DecodeError::Incomplete));
}

#[test]
fn corrupt_button_event_is_malformed() {
    assert_eq!(decode_button_event(&[0x00]), Err(DecodeError::Malformed));
    assert_eq!(decode_button_event(&[0x0a, 0x01, 0x02]), Err(DecodeError::Malformed));
    assert_eq!(decode_button_event(&[0x0b, 0x02]), Err(DecodeError::Malformed));
    assert_eq!(decode_button_event(&[0xff, 0xff]), Err(DecodeError::Incomplete));
    assert_eq!(decode_button_event(b"hello world"), Err(DecodeError::Malformed));
}

#[test]
fn button_number_is_cut_to_32_bits() {
    assert_eq!(
        decode_button_event(&[0x08, 0x80, 0x80, 0x80, 0x80, 0x10]),
        Ok(ButtonPushed { number: 0 })
    );
    assert_eq!(
        decode_button_event(&[0x08, 0x82, 0x80, 0x80, 0x80, 0x10]),
        Ok(ButtonPushed { number: 2 })
    );
    assert_eq!(
        decode_button_event(&[0x08, 0xff, 0xff, 0xff, 0xff, 0xff, 0xff, 0xff, 0xff, 0xff, 0x7f]),
        Ok(ButtonPushed { number: u32::MAX })
    );
    assert_eq!(
        decode_button_event(&[0x08, 0xff, 0xff, 0xff, 0xff, 0x0f]),
        Ok(ButtonPushed { number: u32::MAX })
    );
}

#[test]
fn later_button_number_wins() {
    assert_eq!(decode_button_event(&[0x08, 0x02, 0x08, 0x07]), Ok(ButtonPushed { number: 7 }));
}

#[test]
fn unknown_fields_are_passed_over() {
    let bytes = [
        0x10, 0x2a, // field 2, a number
        0x1a, 0x03, b'a', b'b', b'c', // field 3, three bytes
        0x08, 0x05, // the button
        0x25, 1, 2, 3, 4, // field 4, four bytes
        0x29, 1, 2, 3, 4, 5, 6, 7, 8, // field 5, eight bytes
    ];
    assert_eq!(decode_button_event(&bytes), Ok(ButtonPushed { number: 5 }));
}

#[test]
fn display_message_bytes_are_exact() {
    let bytes = encode_display_message(&display(&["Done"], 150, 500)).unwrap();
    assert_eq!(
        bytes,
        vec![0x0a, 0x04, b'D', b'o', b'n', b'e', 0x10, 0x96, 0x01, 0x18, 0xf4, 0x03]
    );
}

#[test]
fn display_message_leaves_out_zero_numbers() {
    assert_eq!(encode_display_message(&display(&[], 0, 0)).unwrap(), Vec::<u8>::new());
    assert_eq!(encode_display_message(&display(&["a"], 0, 0)).unwrap(), vec![0x0a, 0x01, b'a']);
    assert_eq!(encode_display_message(&display(&[], 0, 7)).unwrap(), vec![0x18, 0x07]);
    assert_eq!(encode_display_message(&display(&[""], 1, 0)).unwrap(), vec![0x0a, 0x00, 0x10, 0x01]);
}

#[test]
fn display_message_keeps_line_order() {
    let bytes = encode_display_message(&display(&["ab", "c"], 255, 1)).unwrap();
    assert_eq!(bytes, vec![0x0a, 0x02, b'a', b'b', 0x0a, 0x01, b'c', 0x10, 0xff, 0x01, 0x18, 0x01]);
}

#[test]
fn display_message_writes_text_as_utf8() {
    let bytes = encode_display_message(&display(&["é€"], 0, 0)).unwrap();
    assert_eq!(bytes, vec![0x0a, 0x05, 0xc3, 0xa9, 0xe2, 0x82, 0xac]);
}

#[test]
fn display_message_round_trip() {
    let long = "x".repeat(300);
    let cases = vec![
        display(&[], 0, 0),
        display(&["Done"], 150, 500),
        display(&["", "", ""], 255, u32::MAX),
        display(&["first line", "second line"], 1, 1),
        display(&["grüße", "日本語", "🙂"], 42, 100_000),
        display(&[long.as_str()], 0, 65536),
    ];
    for message in cases {
        let bytes = encode_display_message(&message).unwrap();
        assert_eq!(decode_display_message(&bytes), Ok(message));
    }
}

#[test]
fn display_message_round_trip_at_the_line_limit() {
    let lines: Vec<String> = (0..MAX_LINES).map(|i| format!("line {}", i)).collect();
    let message = DisplayText::new(lines, MAX_BRIGHTNESS, 500);
    assert!(message.is_valid());
    let bytes = encode_display_message(&message).unwrap();
    assert_eq!(decode_display_message(&bytes), Ok(message));
}

#[test]
fn too_many_lines_are_refused() {
    let lines: Vec<String> = (0..MAX_LINES + 1).map(|_| String::new()).collect();
    let message = DisplayText::new(lines, 10, 10);
    assert!(!message.is_valid());
    assert_eq!(encode_display_message(&message), Err(EncodeError::TooManyLines));
}

#[test]
fn brightness_out_of_range_is_refused() {
    assert_eq!(
        encode_display_message(&display(&["a"], 256, 10)),
        Err(EncodeError::BrightnessOutOfRange)
    );
    assert_eq!(
        encode_display_message(&display(&["a"], u32::MAX, 10)),
        Err(EncodeError::BrightnessOutOfRange)
    );
    assert!(encode_display_message(&display(&["a"], 255, 10)).is_ok());
}

#[test]
fn too_many_lines_are_reported_before_brightness() {
    let lines: Vec<String> = (0..MAX_LINES + 1).map(|_| String::new()).collect();
    let message = DisplayText::new(lines, 1000, 10);
    assert_eq!(encode_display_message(&message), Err(EncodeError::TooManyLines));
}

#[test]
fn display_message_decodes_fields_in_any_order() {
    let bytes = [0x18, 0x07, 0x0a, 0x01, b'a', 0x10, 0x09, 0x0a, 0x01, b'b'];
    assert_eq!(decode_display_message(&bytes), Ok(display(&["a", "b"], 9, 7)));
}

#[test]
fn display_message_that_stops_early_is_incomplete() {
    let bytes = encode_display_message(&display(&["Done"], 150, 500)).unwrap();
    for end in [1usize, 2, 3, 5, 7, 8, 10, 11] {
        assert_eq!(
            decode_display_message(&bytes[..end]),
            Err(DecodeError::Incomplete),
            "cut at {}",
            end
        );
    }
    assert!(decode_display_message(&bytes[..6]).is_ok());
    assert!(decode_display_message(&bytes[..9]).is_ok());
}

#[test]
fn display_line_that_is_not_utf8_is_malformed() {
    assert_eq!(decode_display_message(&[0x0a, 0x02, 0xff, 0xfe]), Err(DecodeError::Malformed));
    assert_eq!(decode_display_message(&[0x0a, 0x01, 0xc3]), Err(DecodeError::Malformed));
    assert_eq!(decode_display_message(&[0x0a, 0x03, 0xed, 0xa0, 0x80]), Err(DecodeError::Malformed));
}

#[test]
fn display_field_of_the_wrong_shape_is_malformed() {
    assert_eq!(decode_display_message(&[0x08, 0x01]), Err(DecodeError::Malformed));
    assert_eq!(decode_display_message(&[0x12, 0x01, 0x01]), Err(DecodeError::Malformed));
    assert_eq!(decode_display_message(&[0x1d, 1, 2, 3, 4]), Err(DecodeError::Malformed));
}

#[test]
fn display_number_is_cut_to_32_bits() {
    assert_eq!(
        decode_display_message(&[0x10, 0x87, 0x80, 0x80, 0x80, 0x10, 0x18, 0x80, 0x80, 0x80, 0x80, 0x20]),
        Ok(display(&[], 7, 0))
    );
}

#[test]
fn unknown_groups_are_passed_over() {
    let bytes = [0x13u8, 0x08, 0x09, 0x14, 0x08, 0x05, 0x23, 0x24];
    assert_eq!(decode_button_event(&bytes), Ok(ButtonPushed { number: 5 }));
    assert_eq!(decode_button_event(&[0x13, 0x08, 0x09]), Err(DecodeError::Incomplete));
    assert_eq!(decode_button_event(&[0x14]), Err(DecodeError::Malformed));
    assert_eq!(decode_button_event(&[0x13, 0x1b, 0x1c, 0x14]), Err(DecodeError::Malformed));
    assert_eq!(decode_display_message(&[0x23, 0x0a, 0x01, b'x', 0x24, 0x0a, 0x01, b'y']), Ok(display(&["y"], 0, 0)));
}

// A line of four gigabytes, where this machine has the room for one.
fn huge_line() -> Option<String> {
    let len = (MAX_LINE_BYTES as usize).checked_add(1)?;
    let mut probe: Vec<u8> = Vec::new();
    probe.try_reserve_exact(len).ok()?;
    drop(probe);
    String::from_utf8(vec![0u8; len]).ok()
}

#[test]
fn a_line_beyond_a_32_bit_length_is_refused() {
    let huge = match huge_line() {
        Some(line) => line,
        None => return,
    };
    assert!(!line_fits(&huge));
    let message = DisplayText::new(vec!["ok".to_string(), huge], 10, 10);
    assert!(!message.is_valid());
    assert_eq!(encode_display_message(&message), Err(EncodeError::LineTooLong));
    let bright = DisplayText::new(message.lines, 1000, 10);
    assert_eq!(encode_display_message(&bright), Err(EncodeError::BrightnessOutOfRange));
}

#[test]
fn duplicate_keeps_every_field() {
    let message = display(&["a", "bc"], 7, 9);
    assert_eq!(message.duplicate(), message);
}

#[test]
fn ordinary_lines_fit() {
    assert!(line_fits(""));
    assert!(line_fits("Done"));
    assert!(line_fits(&"x".repeat(100_000)));
}
