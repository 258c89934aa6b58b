//! The frame codec: messages to bytes and bytes to messages.
//!
//! A button report carries its number as field 1. A display request carries
//! each line as one field 1, the brightness as field 2 and the duration as
//! field 3. A number field that is zero is left out; a reader that meets a
//! number field twice keeps the later value, and passes over fields that it
//! does not know. The layout is that of protocol buffers, so the firmware
//! can read and write it with any library for them; bytes are read as
//! those libraries read them, also where no careful writer would have
//! written them.

use vstd::prelude::*;
use vstd::utf8::{decode_utf8, encode_utf8, encode_utf8_decode_utf8, encode_utf8_valid_utf8, valid_utf8};
use crate::message::{
    lemma_texts_push, line_fits, lines_fit, texts, ButtonPushed, DisplayText, DisplayTextView,
    MAX_BRIGHTNESS, MAX_LINES, MAX_LINE_BYTES,
};
use crate::varint::{encode_varint, write_varint, DecodeError};
use crate::wire::{
    decode_chunk, decode_key, decode_u32, encode_key, lemma_chunk_round_trip,
    lemma_decode_chunk_bounds, lemma_decode_key_bounds, lemma_decode_u32_bounds,
    lemma_key_round_trip, lemma_payload_len_bounds, lemma_u32_round_trip, payload_len, read_chunk,
    read_key, read_u32, skip_payload, write_key, WireType,
};

verus! {

/// Field of a button report: the button's number.
pub const BUTTON_NUMBER: u32 = 1;

/// Field of a display request: one line of text.
pub const DISPLAY_LINE: u32 = 1;

/// Field of a display request: the brightness.
pub const DISPLAY_BRIGHTNESS: u32 = 2;

/// Field of a display request: the duration in milliseconds.
pub const DISPLAY_DURATION: u32 = 3;

/// Why a display request was not written.
#[derive(Clone, Copy, Debug, PartialEq, Eq, Structural)]
pub enum EncodeError {
    /// More lines than `MAX_LINES`.
    TooManyLines,
    /// Brighter than `MAX_BRIGHTNESS`.
    BrightnessOutOfRange,
    /// A line of more bytes than `MAX_LINE_BYTES`.
    LineTooLong,
}

/// The bytes of a number field; none where the value is zero.
pub open spec fn encode_number_field(field: u32, value: u32) -> Seq<u8> {
    if value == 0 {
        Seq::empty()
    } else {
        encode_key(field, WireType::Varint) + encode_varint(value as nat)
    }
}

/// The bytes of a button report.
pub open spec fn encode_button(event: ButtonPushed) -> Seq<u8> {
    encode_number_field(BUTTON_NUMBER, event.number)
}

/// The bytes of one line: its key, the length of its UTF-8 form, that form.
pub open spec fn encode_line(line: Seq<char>) -> Seq<u8> {
    encode_key(DISPLAY_LINE, WireType::LengthDelimited) + encode_varint(encode_utf8(line).len())
        + encode_utf8(line)
}

/// The bytes of the lines, one behind the other.
pub open spec fn encode_lines(lines: Seq<Seq<char>>) -> Seq<u8>
    decreases lines.len(),
{
    if lines.len() == 0 {
        Seq::empty()
    } else {
        encode_line(lines[0]) + encode_lines(lines.skip(1))
    }
}

/// The bytes of a display request: lines, brightness, duration.
pub open spec fn encode_display(message: DisplayTextView) -> Seq<u8> {
    encode_lines(message.lines) + encode_number_field(DISPLAY_BRIGHTNESS, message.brightness)
        + encode_number_field(DISPLAY_DURATION, message.duration_ms)
}

/// What `encode_display_message` gives for a message.
pub open spec fn encode_display_result(message: DisplayTextView) -> Result<Seq<u8>, EncodeError> {
    if message.lines.len() > MAX_LINES {
        Err(EncodeError::TooManyLines)
    } else if message.brightness > MAX_BRIGHTNESS {
        Err(EncodeError::BrightnessOutOfRange)
    } else if !lines_fit(message.lines) {
        Err(EncodeError::LineTooLong)
    } else {
        Ok(encode_display(message))
    }
}

/// Reads a number payload into a value; a number field of another shape is
/// `Malformed`.
pub open spec fn number_payload(wire: WireType, payload: Seq<u8>) -> Result<
    (u32, nat),
    DecodeError,
> {
    if wire != WireType::Varint {
        Err(DecodeError::Malformed)
    } else {
        decode_u32(payload)
    }
}

/// Reads a line payload into text; a line of another shape, or one that is
/// not UTF-8, is `Malformed`.
pub open spec fn line_payload(wire: WireType, payload: Seq<u8>) -> Result<
    (Seq<char>, nat),
    DecodeError,
> {
    if wire != WireType::LengthDelimited {
        Err(DecodeError::Malformed)
    } else {
        match decode_chunk(payload) {
            Err(e) => Err(e),
            Ok((chunk, taken)) => if valid_utf8(chunk) {
                Ok((decode_utf8(chunk), taken))
            } else {
                Err(DecodeError::Malformed)
            },
        }
    }
}

/// Takes one field into a button report: the report after it, and the
/// payload's length.
pub open spec fn button_field(
    field: u32,
    wire: WireType,
    payload: Seq<u8>,
    event: ButtonPushed,
) -> Result<(ButtonPushed, nat), DecodeError> {
    if field == BUTTON_NUMBER {
        match number_payload(wire, payload) {
            Err(e) => Err(e),
            Ok((number, taken)) => Ok((ButtonPushed { number }, taken)),
        }
    } else {
        match payload_len(wire, payload) {
            Err(e) => Err(e),
            Ok(taken) => Ok((event, taken)),
        }
    }
}

/// Reads fields until the bytes end, starting from `event`.
pub open spec fn parse_button(bytes: Seq<u8>, event: ButtonPushed) -> Result<
    ButtonPushed,
    DecodeError,
>
    decreases bytes.len(),
{
    if bytes.len() == 0 {
        Ok(event)
    } else {
        match decode_key(bytes) {
            Err(e) => Err(e),
            Ok((field, wire, taken)) => match button_field(
                field,
                wire,
                bytes.skip(taken as int),
                event,
            ) {
                Err(e) => Err(e),
                Ok((next, more)) => {
                    proof {
                        lemma_decode_key_bounds(bytes);
                        lemma_button_field_bounds(field, wire, bytes.skip(taken as int), event);
                    }
                    parse_button(bytes.skip((taken + more) as int), next)
                },
            },
        }
    }
}

/// The button report that `bytes` spell. No bytes spell button 0.
pub open spec fn decode_button(bytes: Seq<u8>) -> Result<ButtonPushed, DecodeError> {
    parse_button(bytes, ButtonPushed { number: 0 })
}

/// Takes one field into a display request: the request after it, and the
/// payload's length.
pub open spec fn display_field(
    field: u32,
    wire: WireType,
    payload: Seq<u8>,
    message: DisplayTextView,
) -> Result<(DisplayTextView, nat), DecodeError> {
    if field == DISPLAY_LINE {
        match line_payload(wire, payload) {
            Err(e) => Err(e),
            Ok((line, taken)) => Ok(
                (DisplayTextView { lines: message.lines.push(line), ..message }, taken),
            ),
        }
    } else if field == DISPLAY_BRIGHTNESS {
        match number_payload(wire, payload) {
            Err(e) => Err(e),
            Ok((brightness, taken)) => Ok((DisplayTextView { brightness, ..message }, taken)),
        }
    } else if field == DISPLAY_DURATION {
        match number_payload(wire, payload) {
            Err(e) => Err(e),
            Ok((duration_ms, taken)) => Ok((DisplayTextView { duration_ms, ..message }, taken)),
        }
    } else {
        match payload_len(wire, payload) {
            Err(e) => Err(e),
            Ok(taken) => Ok((message, taken)),
        }
    }
}

/// Reads fields until the bytes end, starting from `message`.
pub open spec fn parse_display(bytes: Seq<u8>, message: DisplayTextView) -> Result<
    DisplayTextView,
    DecodeError,
>
    decreases bytes.len(),
{
    if bytes.len() == 0 {
        Ok(message)
    } else {
        match decode_key(bytes) {
            Err(e) => Err(e),
            Ok((field, wire, taken)) => match display_field(
                field,
                wire,
                bytes.skip(taken as int),
                message,
            ) {
                Err(e) => Err(e),
                Ok((next, more)) => {
                    proof {
                        lemma_decode_key_bounds(bytes);
                        lemma_display_field_bounds(field, wire, bytes.skip(taken as int), message);
                    }
                    parse_display(bytes.skip((taken + more) as int), next)
                },
            },
        }
    }
}

/// The display request with no lines, brightness 0 and duration 0.
pub open spec fn blank_display() -> DisplayTextView {
    DisplayTextView { lines: Seq::empty(), brightness: 0, duration_ms: 0 }
}

/// The display request that `bytes` spell. No bytes spell the blank request.
pub open spec fn decode_display(bytes: Seq<u8>) -> Result<DisplayTextView, DecodeError> {
    parse_display(bytes, blank_display())
}

/// A field of a button report that was read is not empty and lies within
/// the input.
pub proof fn lemma_button_field_bounds(
    field: u32,
    wire: WireType,
    payload: Seq<u8>,
    event: ButtonPushed,
)
    ensures
        button_field(field, wire, payload, event) matches Ok((_, taken)) ==> 1 <= taken
            <= payload.len(),
{
    lemma_decode_u32_bounds(payload);
    lemma_payload_len_bounds(wire, payload);
}

/// A field of a display request that was read is not empty and lies
/// within the input.
pub proof fn lemma_display_field_bounds(
    field: u32,
    wire: WireType,
    payload: Seq<u8>,
    message: DisplayTextView,
)
    ensures
        display_field(field, wire, payload, message) matches Ok((_, taken)) ==> 1 <= taken
            <= payload.len(),
{
    lemma_decode_u32_bounds(payload);
    lemma_decode_chunk_bounds(payload);
    lemma_payload_len_bounds(wire, payload);
}

/// One field of a frame is read as `decode_key`, the field's own reader and
/// then the rest: the first step of `parse_button`.
proof fn lemma_parse_button_step(
    field: u32,
    wire: WireType,
    payload: Seq<u8>,
    tail: Seq<u8>,
    event: ButtonPushed,
)
    requires
        1 <= field <= crate::wire::MAX_FIELD_NUMBER,
        button_field(field, wire, payload + tail, event) matches Ok((_, taken)) && taken
            == payload.len(),
    ensures
        parse_button(encode_key(field, wire) + payload + tail, event) == parse_button(
            tail,
            button_field(field, wire, payload + tail, event)->Ok_0.0,
        ),
{
    let key = encode_key(field, wire);
    let bytes = key + payload + tail;
    lemma_key_round_trip(field, wire, payload + tail);
    assert(bytes =~= key + (payload + tail));
    assert(bytes.skip(key.len() as int) =~= payload + tail);
    assert(bytes.skip((key.len() + payload.len()) as int) =~= tail);
}

proof fn lemma_parse_display_step(
    field: u32,
    wire: WireType,
    payload: Seq<u8>,
    tail: Seq<u8>,
    message: DisplayTextView,
)
    requires
        1 <= field <= crate::wire::MAX_FIELD_NUMBER,
        display_field(field, wire, payload + tail, message) matches Ok((_, taken)) && taken
            == payload.len(),
    ensures
        parse_display(encode_key(field, wire) + payload + tail, message) == parse_display(
            tail,
            display_field(field, wire, payload + tail, message)->Ok_0.0,
        ),
{
    let key = encode_key(field, wire);
    let bytes = key + payload + tail;
    lemma_key_round_trip(field, wire, payload + tail);
    assert(bytes =~= key + (payload + tail));
    assert(bytes.skip(key.len() as int) =~= payload + tail);
    assert(bytes.skip((key.len() + payload.len()) as int) =~= tail);
}

/// Reading the bytes of lines adds those lines, in order, to the request.
proof fn lemma_parse_lines(lines: Seq<Seq<char>>, tail: Seq<u8>, message: DisplayTextView)
    requires
        lines_fit(lines),
    ensures
        parse_display(encode_lines(lines) + tail, message) == parse_display(
            tail,
            DisplayTextView { lines: message.lines + lines, ..message },
        ),
    decreases lines.len(),
{
    if lines.len() == 0 {
        assert(encode_lines(lines) + tail =~= tail);
        assert(message.lines + lines =~= message.lines);
    } else {
        let line = lines[0];
        let rest = lines.skip(1);
        let raw = encode_utf8(line);
        let payload = encode_varint(raw.len()) + raw;
        let after = encode_lines(rest) + tail;
        let next = DisplayTextView { lines: message.lines.push(line), ..message };
        assert(raw.len() <= MAX_LINE_BYTES);
        lemma_chunk_round_trip(raw, after);
        encode_utf8_valid_utf8(line);
        encode_utf8_decode_utf8(line);
        assert(payload + after =~= encode_varint(raw.len()) + raw + after);
        lemma_parse_display_step(DISPLAY_LINE, WireType::LengthDelimited, payload, after, message);
        assert(encode_lines(lines) + tail =~= encode_key(DISPLAY_LINE, WireType::LengthDelimited)
            + payload + after);
        assert forall|i: int| 0 <= i < rest.len() implies (#[trigger] encode_utf8(rest[i])).len()
            <= MAX_LINE_BYTES by {
            assert(rest[i] == lines[i + 1]);
        }
        lemma_parse_lines(rest, tail, next);
        assert(next.lines + rest =~= message.lines + lines);
    }
}

/// The display request after a number field of value `value`.
pub open spec fn with_number(message: DisplayTextView, field: u32, value: u32) -> DisplayTextView {
    if value == 0 {
        message
    } else if field == DISPLAY_BRIGHTNESS {
        DisplayTextView { brightness: value, ..message }
    } else {
        DisplayTextView { duration_ms: value, ..message }
    }
}

proof fn lemma_parse_number(field: u32, value: u32, tail: Seq<u8>, message: DisplayTextView)
    requires
        field == DISPLAY_BRIGHTNESS || field == DISPLAY_DURATION,
    ensures
        parse_display(encode_number_field(field, value) + tail, message) == parse_display(
            tail,
            with_number(message, field, value),
        ),
{
    if value == 0 {
        assert(encode_number_field(field, value) + tail =~= tail);
    } else {
        let payload = encode_varint(value as nat);
        lemma_u32_round_trip(value, tail);
        lemma_parse_display_step(field, WireType::Varint, payload, tail, message);
        assert(encode_number_field(field, value) + tail =~= encode_key(field, WireType::Varint)
            + payload + tail);
    }
}

/// A button report is read back from its bytes.
pub proof fn lemma_button_round_trip(event: ButtonPushed)
    ensures
        decode_button(encode_button(event)) == Ok::<ButtonPushed, DecodeError>(event),
{
    let start = ButtonPushed { number: 0 };
    if event.number != 0 {
        let payload = encode_varint(event.number as nat);
        let tail = Seq::<u8>::empty();
        lemma_u32_round_trip(event.number, tail);
        lemma_parse_button_step(BUTTON_NUMBER, WireType::Varint, payload, tail, start);
        assert(encode_button(event) =~= encode_key(BUTTON_NUMBER, WireType::Varint) + payload
            + tail);
    }
}

/// A display request is read back from its bytes: the same lines, the same
/// brightness, the same duration.
pub proof fn lemma_display_round_trip(message: DisplayTextView)
    requires
        lines_fit(message.lines),
    ensures
        decode_display(encode_display(message)) == Ok::<DisplayTextView, DecodeError>(message),
{
    let brightness = encode_number_field(DISPLAY_BRIGHTNESS, message.brightness);
    let duration = encode_number_field(DISPLAY_DURATION, message.duration_ms);
    let none = Seq::<u8>::empty();
    let lined = DisplayTextView { lines: message.lines, ..blank_display() };
    assert(encode_display(message) =~= encode_lines(message.lines) + (brightness + duration));
    lemma_parse_lines(message.lines, brightness + duration, blank_display());
    assert(blank_display().lines + message.lines =~= message.lines);
    lemma_parse_number(DISPLAY_BRIGHTNESS, message.brightness, duration, lined);
    let lit = with_number(lined, DISPLAY_BRIGHTNESS, message.brightness);
    assert(duration =~= duration + none);
    lemma_parse_number(DISPLAY_DURATION, message.duration_ms, none, lit);
    assert(with_number(lit, DISPLAY_DURATION, message.duration_ms) == message);
}

/// What a valid display request is written as is read back as that request.
pub proof fn lemma_encode_then_decode(message: DisplayTextView)
    requires
        message.is_valid(),
    ensures
        encode_display_result(message) matches Ok(bytes) && decode_display(bytes) == Ok::<
            DisplayTextView,
            DecodeError,
        >(message),
{
    lemma_display_round_trip(message);
}

/// Appends `bytes` to `out`.
pub fn append_bytes(out: &mut Vec<u8>, bytes: &[u8])
    ensures
        final(out)@ == old(out)@ + bytes@,
{
    let mut i: usize = 0;
    while i < bytes.len()
        invariant
            i <= bytes.len(),
            out@ == old(out)@ + bytes@.take(i as int),
        decreases bytes.len() - i,
    {
        out.push(bytes[i]);
        i = i + 1;
        assert(bytes@.take(i as int) =~= bytes@.take(i - 1).push(bytes@[i - 1]));
    }
    assert(bytes@.take(i as int) =~= bytes@);
}

/// Appends a number field to `out`, or nothing where the value is zero.
pub fn write_number_field(out: &mut Vec<u8>, field: u32, value: u32)
    requires
        field <= crate::wire::MAX_FIELD_NUMBER,
    ensures
        final(out)@ == old(out)@ + encode_number_field(field, value),
{
    if value != 0 {
        write_key(out, field, WireType::Varint);
        write_varint(out, value as u64);
        assert(out@ =~= old(out)@ + encode_number_field(field, value));
    } else {
        assert(out@ =~= old(out)@ + encode_number_field(field, value));
    }
}

/// Appends one line of text to `out`.
pub fn write_line(out: &mut Vec<u8>, line: &str)
    ensures
        final(out)@ == old(out)@ + encode_line(line@),
{
    let raw = line.as_bytes();
    write_key(out, DISPLAY_LINE, WireType::LengthDelimited);
    write_varint(out, raw.len() as u64);
    append_bytes(out, raw);
    assert(out@ =~= old(out)@ + encode_line(line@));
}

/// The bytes of a button report, as the device writes them.
pub fn encode_button_event(event: &ButtonPushed) -> (bytes: Vec<u8>)
    ensures
        bytes@ == encode_button(*event),
        decode_button(bytes@) == Ok::<ButtonPushed, DecodeError>(*event),
{
    let mut out: Vec<u8> = Vec::new();
    write_number_field(&mut out, BUTTON_NUMBER, event.number);
    proof {
        assert(out@ =~= encode_button(*event));
        lemma_button_round_trip(*event);
    }
    out
}

/// The bytes of a display request.
///
/// A request with more lines than `MAX_LINES` is refused, and so are one
/// brighter than `MAX_BRIGHTNESS` and one with a line of more bytes than
/// `MAX_LINE_BYTES`; every other request is written, and the bytes read
/// back as the same request.
pub fn encode_display_message(message: &DisplayText) -> (r: Result<Vec<u8>, EncodeError>)
    ensures
        match r {
            Ok(bytes) => encode_display_result(message@) == Ok::<Seq<u8>, EncodeError>(bytes@)
                && decode_display(bytes@) == Ok::<DisplayTextView, DecodeError>(message@),
            Err(e) => encode_display_result(message@) == Err::<Seq<u8>, EncodeError>(e),
        },
        r is Ok <==> message@.is_valid(),
{
    if message.lines.len() > MAX_LINES {
        return Err(EncodeError::TooManyLines);
    }
    if message.brightness > MAX_BRIGHTNESS {
        return Err(EncodeError::BrightnessOutOfRange);
    }
    let ghost lines = texts(message.lines@);
    let mut out: Vec<u8> = Vec::new();
    let mut i: usize = 0;
    proof {
        assert(lines.skip(0) =~= lines);
        assert(out@ + encode_lines(lines) =~= encode_lines(lines));
    }
    while i < message.lines.len()
        invariant
            i <= message.lines.len() <= MAX_LINES,
            message.brightness <= MAX_BRIGHTNESS,
            lines == texts(message.lines@),
            out@ + encode_lines(lines.skip(i as int)) == encode_lines(lines),
            forall|j: int|
                0 <= j < i ==> (#[trigger] encode_utf8(lines[j])).len() <= MAX_LINE_BYTES,
        decreases message.lines.len() - i,
    {
        if !line_fits(message.lines[i].as_str()) {
            assert(lines[i as int] == message.lines@[i as int]@);
            return Err(EncodeError::LineTooLong);
        }
        proof {
            assert(lines[i as int] == message.lines@[i as int]@);
            let rest = lines.skip(i as int);
            assert(rest[0] == message.lines@[i as int]@);
            assert(rest.skip(1) =~= lines.skip(i + 1));
            assert(out@ + encode_lines(rest) =~= out@ + encode_line(rest[0]) + encode_lines(
                lines.skip(i + 1),
            ));
        }
        write_line(&mut out, message.lines[i].as_str());
        i = i + 1;
    }
    proof {
        assert(encode_lines(lines.skip(i as int)) =~= Seq::<u8>::empty());
        assert(out@ =~= encode_lines(lines));
    }
    write_number_field(&mut out, DISPLAY_BRIGHTNESS, message.brightness);
    write_number_field(&mut out, DISPLAY_DURATION, message.duration_ms);
    proof {
        lemma_display_round_trip(message@);
    }
    Ok(out)
}

/// The button report that `bytes` spell.
///
/// `Incomplete` where the bytes stop inside a field, `Malformed` where they
/// cannot be the start of a report.
pub fn decode_button_event(bytes: &[u8]) -> (r: Result<ButtonPushed, DecodeError>)
    ensures
        r == decode_button(bytes@),
{
    let mut event = ButtonPushed { number: 0 };
    let mut pos: usize = 0;
    proof {
        assert(bytes@.skip(0) =~= bytes@);
    }
    while pos < bytes.len()
        invariant
            pos <= bytes.len(),
            parse_button(bytes@.skip(pos as int), event) == decode_button(bytes@),
        decreases bytes.len() - pos,
    {
        let ghost input = bytes@.skip(pos as int);
        let (field, wire, at) = match read_key(bytes, pos) {
            Err(e) => {
                return Err(e);
            },
            Ok(key) => key,
        };
        proof {
            assert(input.skip(at - pos) =~= bytes@.skip(at as int));
        }
        let next: usize;
        if field == BUTTON_NUMBER {
            match wire {
                WireType::Varint => {},
                _ => {
                    return Err(DecodeError::Malformed);
                },
            }
            match read_u32(bytes, at) {
                Err(e) => {
                    return Err(e);
                },
                Ok((number, end)) => {
                    event = ButtonPushed { number };
                    next = end;
                },
            }
        } else {
            match skip_payload(bytes, at, wire) {
                Err(e) => {
                    return Err(e);
                },
                Ok(end) => {
                    next = end;
                },
            }
        }
        proof {
            assert(input.skip(next - pos) =~= bytes@.skip(next as int));
        }
        pos = next;
    }
    Ok(event)
}

/// `String::from_utf8` of std: the string whose UTF-8 form is `bytes`, where
/// they are UTF-8, and nothing where they are not.
#[verifier::external_body]
fn text_from_utf8(bytes: Vec<u8>) -> (text: Option<String>)
    ensures
        text is Some <==> valid_utf8(bytes@),
        text matches Some(s) ==> encode_utf8(s@) == bytes@,
{
    String::from_utf8(bytes).ok()
}

/// The display request that `bytes` spell, as the device reads them.
///
/// `Incomplete` where the bytes stop inside a field, `Malformed` where they
/// cannot be the start of a request or a line is not UTF-8.
pub fn decode_display_message(bytes: &[u8]) -> (r: Result<DisplayText, DecodeError>)
    ensures
        match r {
            Ok(message) => decode_display(bytes@) == Ok::<DisplayTextView, DecodeError>(message@),
            Err(e) => decode_display(bytes@) == Err::<DisplayTextView, DecodeError>(e),
        },
{
    let mut lines: Vec<String> = Vec::new();
    let mut brightness: u32 = 0;
    let mut duration_ms: u32 = 0;
    let mut pos: usize = 0;
    proof {
        assert(bytes@.skip(0) =~= bytes@);
        assert(texts(lines@) =~= Seq::<Seq<char>>::empty());
    }
    while pos < bytes.len()
        invariant
            pos <= bytes.len(),
            parse_display(
                bytes@.skip(pos as int),
                DisplayTextView { lines: texts(lines@), brightness, duration_ms },
            ) == decode_display(bytes@),
        decreases bytes.len() - pos,
    {
        let ghost input = bytes@.skip(pos as int);
        let (field, wire, at) = match read_key(bytes, pos) {
            Err(e) => {
                return Err(e);
            },
            Ok(key) => key,
        };
        proof {
            assert(input.skip(at - pos) =~= bytes@.skip(at as int));
        }
        let next: usize;
        if field == DISPLAY_LINE {
            match wire {
                WireType::LengthDelimited => {},
                _ => {
                    return Err(DecodeError::Malformed);
                },
            }
            match read_chunk(bytes, at) {
                Err(e) => {
                    return Err(e);
                },
                Ok((from, end)) => {
                    let chunk = vstd::slice::slice_to_vec(
                        vstd::slice::slice_subrange(bytes, from, end),
                    );
                    match text_from_utf8(chunk) {
                        None => {
                            return Err(DecodeError::Malformed);
                        },
                        Some(line) => {
                            proof {
                                encode_utf8_decode_utf8(line@);
                                lemma_texts_push(lines@, line);
                            }
                            lines.push(line);
                        },
                    }
                    next = end;
                },
            }
        } else if field == DISPLAY_BRIGHTNESS || field == DISPLAY_DURATION {
            match wire {
                WireType::Varint => {},
                _ => {
                    return Err(DecodeError::Malformed);
                },
            }
            match read_u32(bytes, at) {
                Err(e) => {
                    return Err(e);
                },
                Ok((value, end)) => {
                    if field == DISPLAY_BRIGHTNESS {
                        brightness = value;
                    } else {
                        duration_ms = value;
                    }
                    next = end;
                },
            }
        } else {
            match skip_payload(bytes, at, wire) {
                Err(e) => {
                    return Err(e);
                },
                Ok(end) => {
                    next = end;
                },
            }
        }
        proof {
            assert(input.skip(next - pos) =~= bytes@.skip(next as int));
        }
        pos = next;
    }
    Ok(DisplayText { lines, brightness, duration_ms })
}

} // verus!
