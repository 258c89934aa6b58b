//! Text handed in from outside the button path: it is cut into lines of a
//! fixed width and becomes a display request; the sender gets a short
//! answer back.

use vstd::prelude::*;
use crate::message::{lemma_texts_push, texts, DisplayText, DisplayTextView};

verus! {

/// How many characters go on one line.
pub const CHUNK_WIDTH: usize = 16;

/// How bright handed-in text is shown.
pub const INJECTED_BRIGHTNESS: u32 = 255;

/// How long handed-in text is shown, in milliseconds.
pub const INJECTED_DURATION_MS: u32 = 500;

/// `text` cut into pieces of `width` characters; the last piece holds what
/// is left. No text gives no piece.
pub open spec fn chunks(text: Seq<char>, width: nat) -> Seq<Seq<char>>
    decreases text.len(),
{
    if text.len() == 0 || width == 0 {
        Seq::empty()
    } else if text.len() <= width {
        seq![text]
    } else {
        seq![text.take(width as int)] + chunks(text.skip(width as int), width)
    }
}

/// The display request that shows `text`.
pub open spec fn injected_message(text: Seq<char>) -> DisplayTextView {
    DisplayTextView {
        lines: chunks(text, CHUNK_WIDTH as nat),
        brightness: INJECTED_BRIGHTNESS,
        duration_ms: INJECTED_DURATION_MS,
    }
}

/// `text` as std's `Debug` writes a string: in double quotes, with what
/// cannot stand in a string literal escaped.
pub uninterp spec fn quoted(text: Seq<char>) -> Seq<char>;

/// The answer to the sender of `text`, given the text in quotes.
pub open spec fn reply_text(quoted_text: Seq<char>) -> Seq<char> {
    "Got: "@ + quoted_text
}

/// The pieces are as many as the width asks for, none is empty and none is
/// wider than the width; put together they are the text.
pub proof fn lemma_chunks_shape(text: Seq<char>, width: nat)
    requires
        width > 0,
    ensures
        chunks(text, width).len() == (text.len() + width - 1) / (width as int),
        forall|i: int|
            0 <= i < chunks(text, width).len() ==> 0 < (#[trigger] chunks(text, width)[i]).len()
                <= width,
        chunks(text, width).flatten() == text,
    decreases text.len(),
{
    let pieces = chunks(text, width);
    reveal_with_fuel(Seq::flatten, 2);
    if text.len() == 0 {
        assert((text.len() + width - 1) / (width as int) == 0) by (nonlinear_arith)
            requires
                text.len() == 0,
                width > 0,
        ;
        assert(pieces.flatten() =~= text);
    } else if text.len() <= width {
        assert((text.len() + width - 1) / (width as int) == 1) by (nonlinear_arith)
            requires
                0 < text.len() <= width,
        ;
        assert(pieces.drop_first() =~= Seq::<Seq<char>>::empty());
        assert(pieces.flatten() =~= text);
    } else {
        let rest = text.skip(width as int);
        lemma_chunks_shape(rest, width);
        assert((text.len() + width - 1) / (width as int) == (rest.len() + width - 1) / (
        width as int) + 1) by (nonlinear_arith)
            requires
                rest.len() == text.len() - width,
                width > 0,
        ;
        assert(pieces.drop_first() =~= chunks(rest, width));
        assert(pieces.flatten() =~= text.take(width as int) + rest);
        assert(text.take(width as int) + rest =~= text);
    }
}

/// `text` cut into lines of `width` characters.
pub fn split_text(text: &str, width: usize) -> (lines: Vec<String>)
    requires
        width > 0,
    ensures
        texts(lines@) == chunks(text@, width as nat),
{
    let total = text.unicode_len();
    let mut lines: Vec<String> = Vec::new();
    let mut from: usize = 0;
    proof {
        assert(texts(lines@) =~= Seq::<Seq<char>>::empty());
        assert(text@.skip(0) =~= text@);
    }
    while from < total
        invariant
            width > 0,
            total == text@.len(),
            from <= total,
            texts(lines@) + chunks(text@.skip(from as int), width as nat) == chunks(
                text@,
                width as nat,
            ),
        decreases total - from,
    {
        let ghost rest = text@.skip(from as int);
        let to: usize = if total - from <= width {
            total
        } else {
            from + width
        };
        let line = String::from_str(text.substring_char(from, to));
        proof {
            lemma_texts_push(lines@, line);
            if total - from <= width {
                assert(line@ =~= rest);
                assert(text@.skip(to as int).len() == 0);
            } else {
                assert(line@ =~= rest.take(width as int));
                assert(rest.skip(width as int) =~= text@.skip(to as int));
            }
            assert(texts(lines@).push(line@) + chunks(text@.skip(to as int), width as nat)
                =~= texts(lines@) + chunks(rest, width as nat));
        }
        lines.push(line);
        from = to;
    }
    proof {
        assert(texts(lines@) + chunks(text@.skip(from as int), width as nat) =~= texts(lines@));
    }
    lines
}

/// `format!("{:?}", text)` of std: the text as `Debug` writes a string.
#[verifier::external_body]
fn debug_form(text: &str) -> (form: String)
    ensures
        form@ == quoted(text@),
{
    format!("{:?}", text)
}

/// The answer to a sender, given its text in quotes.
pub fn acknowledge(quoted_text: &str) -> (reply: String)
    ensures
        reply@ == reply_text(quoted_text@),
{
    String::from_str("Got: ").concat(quoted_text)
}

/// What handing in `text` comes to: the display request to put on the
/// queue to the device, and the answer to the sender.
pub fn submit_text(text: &str) -> (r: (DisplayText, String))
    ensures
        r.0@ == injected_message(text@),
        r.1@ == reply_text(quoted(text@)),
{
    let message = DisplayText {
        lines: split_text(text, CHUNK_WIDTH),
        brightness: INJECTED_BRIGHTNESS,
        duration_ms: INJECTED_DURATION_MS,
    };
    let form = debug_form(text);
    (message, acknowledge(form.as_str()))
}

} // verus!
