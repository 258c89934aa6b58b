//! The two messages that cross the serial link.

use vstd::prelude::*;

verus! {

/// What the device reports when a button goes down.
#[derive(Clone, Copy, Debug, PartialEq, Eq, Structural)]
pub struct ButtonPushed {
    /// The button's number.
    pub number: u32,
}

/// What the host asks the device to show.
#[derive(Clone, Debug, PartialEq, Eq)]
pub struct DisplayText {
    /// The lines, top line first.
    pub lines: Vec<String>,
    /// How bright, from 0 to `MAX_BRIGHTNESS`.
    pub brightness: u32,
    /// For how long, in milliseconds.
    pub duration_ms: u32,
}

/// A `DisplayText` as plain values.
pub struct DisplayTextView {
    pub lines: Seq<Seq<char>>,
    pub brightness: u32,
    pub duration_ms: u32,
}

/// The most lines one message may carry.
pub const MAX_LINES: usize = 255;

/// The brightest a message may ask for.
pub const MAX_BRIGHTNESS: u32 = 255;

/// The most bytes one line may take as UTF-8: what a 32-bit length can say.
pub const MAX_LINE_BYTES: u32 = 0xffff_ffff;

/// Every line takes at most `MAX_LINE_BYTES` bytes as UTF-8.
pub open spec fn lines_fit(lines: Seq<Seq<char>>) -> bool {
    forall|i: int|
        0 <= i < lines.len() ==> (#[trigger] vstd::utf8::encode_utf8(lines[i])).len()
            <= MAX_LINE_BYTES
}

/// The characters of each string, in order.
pub open spec fn texts(lines: Seq<String>) -> Seq<Seq<char>> {
    lines.map_values(|s: String| s@)
}

impl View for DisplayText {
    type V = DisplayTextView;

    open spec fn view(&self) -> DisplayTextView {
        DisplayTextView {
            lines: texts(self.lines@),
            brightness: self.brightness,
            duration_ms: self.duration_ms,
        }
    }
}

impl DisplayTextView {
    /// A message fit to be sent: no more lines than `MAX_LINES`, no brighter
    /// than `MAX_BRIGHTNESS`, no line longer than `MAX_LINE_BYTES`.
    pub open spec fn is_valid(self) -> bool {
        self.lines.len() <= MAX_LINES && self.brightness <= MAX_BRIGHTNESS && lines_fit(
            self.lines,
        )
    }
}

/// The texts of lines with one more line are the texts with one more text.
pub proof fn lemma_texts_push(lines: Seq<String>, line: String)
    ensures
        texts(lines.push(line)) == texts(lines).push(line@),
{
    assert(texts(lines.push(line)) =~= texts(lines).push(line@));
}

/// Whether a line takes at most `MAX_LINE_BYTES` bytes as UTF-8.
pub fn line_fits(line: &str) -> (fits: bool)
    ensures
        fits == (vstd::utf8::encode_utf8(line@).len() <= MAX_LINE_BYTES),
{
    let len: usize = line.as_bytes().len();
    len as u64 <= MAX_LINE_BYTES as u64
}

/// A copy of `lines`, string by string.
pub fn copy_lines(lines: &Vec<String>) -> (copy: Vec<String>)
    ensures
        texts(copy@) == texts(lines@),
{
    let mut copy: Vec<String> = Vec::new();
    let mut i: usize = 0;
    while i < lines.len()
        invariant
            i <= lines.len(),
            copy.len() == i,
            forall|j: int| 0 <= j < i ==> copy@[j]@ == lines@[j]@,
        decreases lines.len() - i,
    {
        copy.push(lines[i].clone());
        i = i + 1;
    }
    assert(texts(copy@) =~= texts(lines@));
    copy
}

impl ButtonPushed {
    pub fn new(number: u32) -> (event: ButtonPushed)
        ensures
            event.number == number,
    {
        ButtonPushed { number }
    }
}

impl DisplayText {
    pub fn new(lines: Vec<String>, brightness: u32, duration_ms: u32) -> (message: DisplayText)
        ensures
            message.lines == lines,
            message.brightness == brightness,
            message.duration_ms == duration_ms,
    {
        DisplayText { lines, brightness, duration_ms }
    }

    /// Whether the message is fit to be sent.
    pub fn is_valid(&self) -> (valid: bool)
        ensures
            valid == self@.is_valid(),
    {
        if self.lines.len() > MAX_LINES || self.brightness > MAX_BRIGHTNESS {
            return false;
        }
        let mut i: usize = 0;
        while i < self.lines.len()
            invariant
                i <= self.lines.len(),
                forall|j: int|
                    0 <= j < i ==> (#[trigger] vstd::utf8::encode_utf8(self.lines@[j]@)).len()
                        <= MAX_LINE_BYTES,
            decreases self.lines.len() - i,
        {
            if !line_fits(self.lines[i].as_str()) {
                assert(texts(self.lines@)[i as int] == self.lines@[i as int]@);
                return false;
            }
            i = i + 1;
        }
        assert forall|j: int| 0 <= j < texts(self.lines@).len() implies (
        #[trigger] vstd::utf8::encode_utf8(texts(self.lines@)[j])).len() <= MAX_LINE_BYTES by {
            assert(texts(self.lines@)[j] == self.lines@[j]@);
        }
        true
    }

    /// A copy with the same lines, brightness and duration.
    pub fn duplicate(&self) -> (copy: DisplayText)
        ensures
            copy@ == self@,
    {
        DisplayText {
            lines: copy_lines(&self.lines),
            brightness: self.brightness,
            duration_ms: self.duration_ms,
        }
    }
}

} // verus!
