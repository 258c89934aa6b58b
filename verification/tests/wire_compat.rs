use management_app::codec::{
    decode_button_event, decode_display_message, encode_button_event, encode_display_message,
};
use management_app::message::{ButtonPushed, DisplayText};
use management_app::varint::DecodeError;
use protobuf::error::WireError;
use protobuf::wire_format::WireType;
use protobuf::{CodedInputStream, CodedOutputStream, ProtobufError, UnknownFields};

fn reference_display(lines: &[&str], brightness: u32, duration_ms: u32) -> Vec<u8> {
    let mut out = Vec::new();
    {
        let mut stream = CodedOutputStream::vec(&mut out);
        for line in lines {
            stream.write_string(1, line).unwrap();
        }
        if brightness != 0 {
            stream.write_uint32(2, brightness).unwrap();
        }
        if duration_ms != 0 {
            stream.write_uint32(3, duration_ms).unwrap();
        }
        stream.flush().unwrap();
    }
    out
}

fn reference_button(number: u32) -> Vec<u8> {
    let mut out = Vec::new();
    {
        let mut stream = CodedOutputStream::vec(&mut out);
        if number != 0 {
            stream.write_uint32(1, number).unwrap();
        }
        stream.flush().unwrap();
    }
    out
}

fn reference_read_display(bytes: &[u8]) -> (Vec<String>, u32, u32) {
    let mut stream = CodedInputStream::from_bytes(bytes);
    let mut lines = Vec::new();
    let mut brightness = 0;
    let mut duration_ms = 0;
    while !stream.eof().unwrap() {
        let (field, wire) = stream.read_tag_unpack().unwrap();
        match field {
            1 => {
                assert!(wire == WireType::WireTypeLengthDelimited);
                lines.push(stream.read_string().unwrap());
            }
            2 => {
                assert!(wire == WireType::WireTypeVarint);
                brightness = stream.read_uint32().unwrap();
            }
            3 => {
                assert!(wire == WireType::WireTypeVarint);
                duration_ms = stream.read_uint32().unwrap();
            }
            _ => stream.skip_field(wire).unwrap(),
        }
    }
    (lines, brightness, duration_ms)
}

fn samples() -> Vec<(Vec<&'static str>, u32, u32)> {
    vec![
        (vec![], 0, 0),
        (vec!["Done"], 150, 500),
        (vec!["Build finished", "0 warnings"], 255, 1500),
        (vec!["", "x"], 1, u32::MAX),
        (vec!["grüße", "日本語"], 128, 16384),
        (vec!["0123456789abcdef", "0123456789abcdef", "tail"], 255, 500),
    ]
}

#[test]
fn display_bytes_match_the_protobuf_writer() {
    for (lines, brightness, duration_ms) in samples() {
        let message = DisplayText::new(
            lines.iter().map(|l| l.to_string()).collect(),
            brightness,
            duration_ms,
        );
        assert_eq!(
            encode_display_message(&message).unwrap(),
            reference_display(&lines, brightness, duration_ms)
        );
    }
}

#[test]
fn display_bytes_are_read_by_the_protobuf_reader() {
    for (lines, brightness, duration_ms) in samples() {
        let owned: Vec<String> = lines.iter().map(|l| l.to_string()).collect();
        let message = DisplayText::new(owned.clone(), brightness, duration_ms);
        let bytes = encode_display_message(&message).unwrap();
        assert_eq!(reference_read_display(&bytes), (owned, brightness, duration_ms));
    }
}

#[test]
fn protobuf_display_bytes_are_decoded() {
    for (lines, brightness, duration_ms) in samples() {
        let bytes = reference_display(&lines, brightness, duration_ms);
        let message = decode_display_message(&bytes).unwrap();
        let owned: Vec<String> = lines.iter().map(|l| l.to_string()).collect();
        assert_eq!(message, DisplayText::new(owned, brightness, duration_ms));
    }
}

#[test]
fn button_bytes_match_the_protobuf_writer() {
    for number in [0u32, 1, 2, 127, 128, 300, 70000, u32::MAX] {
        assert_eq!(encode_button_event(&ButtonPushed::new(number)), reference_button(number));
    }
}

#[test]
fn protobuf_button_bytes_are_decoded() {
    for number in [0u32, 1, 2, 127, 128, 300, 70000, u32::MAX] {
        assert_eq!(
            decode_button_event(&reference_button(number)),
            Ok(ButtonPushed { number })
        );
    }
}

#[test]
fn button_bytes_with_unknown_fields_match_the_protobuf_reader() {
    let mut bytes = Vec::new();
    {
        let mut stream = CodedOutputStream::vec(&mut bytes);
        stream.write_string(7, "extra").unwrap();
        stream.write_uint32(1, 9).unwrap();
        stream.write_fixed32(8, 77).unwrap();
        stream.write_fixed64(9, 78).unwrap();
        stream.write_uint64(10, u64::MAX).unwrap();
        stream.flush().unwrap();
    }
    let mut stream = CodedInputStream::from_bytes(&bytes);
    let mut number = 0;
    while !stream.eof().unwrap() {
        let (field, wire) = stream.read_tag_unpack().unwrap();
        if field == 1 {
            number = stream.read_uint32().unwrap();
        } else {
            stream.skip_field(wire).unwrap();
        }
    }
    assert_eq!(decode_button_event(&bytes), Ok(ButtonPushed { number }));
    assert_eq!(number, 9);
}

fn reference_merge_button(bytes: &[u8]) -> Result<u32, ProtobufError> {
    let mut stream = CodedInputStream::from_bytes(bytes);
    let mut unknown = UnknownFields::new();
    let mut number = 0;
    while !stream.eof()? {
        let (field, wire) = stream.read_tag_unpack()?;
        match field {
            1 => {
                if wire != WireType::WireTypeVarint {
                    return Err(protobuf::rt::unexpected_wire_type(wire));
                }
                number = stream.read_uint32()?;
            }
            _ => protobuf::rt::read_unknown_or_skip_group(field, wire, &mut stream, &mut unknown)?,
        }
    }
    Ok(number)
}

fn reference_merge_display(bytes: &[u8]) -> Result<(Vec<String>, u32, u32), ProtobufError> {
    let mut stream = CodedInputStream::from_bytes(bytes);
    let mut unknown = UnknownFields::new();
    let mut lines = Vec::new();
    let mut brightness = 0;
    let mut duration_ms = 0;
    while !stream.eof()? {
        let (field, wire) = stream.read_tag_unpack()?;
        match field {
            1 => {
                if wire != WireType::WireTypeLengthDelimited {
                    return Err(protobuf::rt::unexpected_wire_type(wire));
                }
                lines.push(stream.read_string()?);
            }
            2 => {
                if wire != WireType::WireTypeVarint {
                    return Err(protobuf::rt::unexpected_wire_type(wire));
                }
                brightness = stream.read_uint32()?;
            }
            3 => {
                if wire != WireType::WireTypeVarint {
                    return Err(protobuf::rt::unexpected_wire_type(wire));
                }
                duration_ms = stream.read_uint32()?;
            }
            _ => protobuf::rt::read_unknown_or_skip_group(field, wire, &mut stream, &mut unknown)?,
        }
    }
    Ok((lines, brightness, duration_ms))
}

fn class_of(fault: &ProtobufError) -> DecodeError {
    match fault {
        ProtobufError::WireError(WireError::UnexpectedEof)
        | ProtobufError::WireError(WireError::TruncatedMessage) => DecodeError::Incomplete,
        _ => DecodeError::Malformed,
    }
}

fn same_as_the_reference(bytes: &[u8]) {
    let button = reference_merge_button(bytes)
        .map(|number| ButtonPushed { number })
        .map_err(|fault| class_of(&fault));
    assert_eq!(decode_button_event(bytes), button, "button report in {:?}", bytes);
    let display = reference_merge_display(bytes)
        .map(|(lines, brightness, duration_ms)| DisplayText::new(lines, brightness, duration_ms))
        .map_err(|fault| class_of(&fault));
    assert_eq!(decode_display_message(bytes), display, "display request in {:?}", bytes);
}

#[test]
fn odd_frames_are_read_as_the_protobuf_reader_reads_them() {
    let frames: Vec<Vec<u8>> = vec![
        vec![],
        vec![0x08],
        vec![0x08, 0x80],
        vec![0x08, 0x80, 0x80, 0x80, 0x80, 0x10],
        vec![0x08, 0xff, 0xff, 0xff, 0xff, 0xff, 0xff, 0xff, 0xff, 0xff, 0x01],
        vec![0x08, 0xff, 0xff, 0xff, 0xff, 0xff, 0xff, 0xff, 0xff, 0xff, 0x7f],
        vec![0x08, 0xff, 0xff, 0xff, 0xff, 0xff, 0xff, 0xff, 0xff, 0xff, 0xff],
        vec![0x08, 0xff, 0xff, 0xff, 0xff, 0xff, 0xff, 0xff, 0xff, 0xff, 0xff, 0x01],
        vec![0x80, 0x80, 0x80, 0x80, 0x80, 0x80, 0x80, 0x80, 0x80, 0x80],
        vec![0x80, 0x80, 0x80, 0x80, 0x80, 0x80, 0x80, 0x80, 0x80],
        vec![0x88, 0x80, 0x80, 0x80, 0x10, 0x05],
        vec![0x88, 0x80, 0x80, 0x80, 0xf0, 0xff, 0xff, 0xff, 0xff, 0x01, 0x05],
        vec![0x00],
        vec![0x80, 0x80, 0x80, 0x80, 0x10],
        vec![0x0e],
        vec![0x0f, 0x01],
        vec![0x0b, 0x0c],
        vec![0x0c],
        vec![0x13, 0x14],
        vec![0x13, 0x1c],
        vec![0x13, 0x08, 0x01, 0x12, 0x01, b'x', 0x14, 0x08, 0x02],
        vec![0x13, 0x08, 0x01],
        vec![0x13, 0x1b, 0x1c, 0x14],
        vec![0x13],
        vec![0x14],
        vec![0x0a, 0x02, b'h', b'i'],
        vec![0x0a, 0x02, 0xff, 0xfe],
        vec![0x0a, 0x03, b'h', b'i'],
        vec![0x0a, 0x82, 0x80, 0x80, 0x80, 0x10, b'h', b'i'],
        vec![0x12, 0x82, 0x80, 0x80, 0x80, 0x10, b'h', b'i', 0x08, 0x03],
        vec![0x12, 0xff, 0xff, 0xff, 0xff, 0x0f],
        vec![0x22, 0xff, 0xff, 0xff, 0xff, 0x0f, 0x00],
        vec![0x10, 0x01, 0x10, 0x02, 0x18, 0x03, 0x18, 0x04],
        vec![0x15, 1, 2, 3, 4],
        vec![0x11, 1, 2, 3, 4, 5, 6, 7, 8],
        vec![0x25, 1, 2, 3],
        vec![0x29, 1, 2, 3, 4, 5, 6, 7],
        b"hello world".to_vec(),
    ];
    for frame in frames {
        same_as_the_reference(&frame);
    }
}

#[test]
fn random_frames_are_read_as_the_protobuf_reader_reads_them() {
    let palette: [u8; 24] = [
        0x08, 0x0a, 0x10, 0x18, 0x12, 0x0b, 0x0c, 0x13, 0x14, 0x0d, 0x09, 0x1a, 0x00, 0x01, 0x02,
        0x03, 0x7f, 0x80, 0x81, 0xff, 0x10, 0x41, 0xc3, 0xa9,
    ];
    let mut state: u64 = 0x9e37_79b9_7f4a_7c15;
    let mut next = move || {
        state ^= state << 13;
        state ^= state >> 7;
        state ^= state << 17;
        state
    };
    for _ in 0..200_000 {
        let len = (next() % 14) as usize;
        let frame: Vec<u8> = (0..len)
            .map(|_| {
                let roll = next();
                if roll % 4 == 0 {
                    (roll >> 8) as u8
                } else {
                    palette[((roll >> 8) % 24) as usize]
                }
            })
            .collect();
        same_as_the_reference(&frame);
    }
}
