//! How deep a TOML text nests, found without parsing it.
//!
//! The parser of the configuration file calls itself once for each level of
//! nesting and has no limit of its own, so a text is measured before it is
//! handed over. The scan walks the bytes once. It tells strings and
//! comments from the rest as the parser's tokenizer does, and outside of
//! them it keeps count of the brackets and braces that are open and of the
//! dots of dotted keys in the statement at hand. The most that the two
//! counts come to together is the text's measure.
//!
//! A statement is a table header, or a key with its value. The value tree
//! that the parser builds is at most four times as deep as the measure,
//! and one more: a header gives at most two levels for each of its parts,
//! and a key with its value gives at most one level for each dot and two
//! for each bracket or brace.
//!
//! Where the scan loses track (a string that ends with its line unclosed,
//! a bracket that closes nothing) the parser is about to refuse the text;
//! from there on every bracket, brace and dot counts, in strings too, and
//! nothing closes.

use vstd::prelude::*;
use vstd::utf8::encode_utf8;

verus! {

/// The deepest measure that a text may have and still be parsed. The
/// parser then stays within 257 levels, which take less than half of the
/// stack that a thread gets by default.
pub const MAX_NESTING: usize = 64;

/// What the scan is in the middle of.
#[derive(Clone, Copy, Debug, PartialEq, Eq, Structural)]
pub enum Mode {
    /// Nothing: keys, values and what stands between them.
    Code,
    /// A comment, up to the end of the line.
    Comment,
    /// Just behind a quote that opens a string.
    One,
    /// Just behind two quotes: an empty string, or two thirds of the
    /// opening of a string of many lines.
    Empty,
    /// A string of one line.
    Single,
    /// Just behind a backslash in a string of one line.
    SingleEscape,
    /// A string of many lines.
    Multi,
    /// Just behind a backslash in a string of many lines.
    MultiEscape,
    /// Just behind the three quotes that close a string of many lines; up
    /// to two more quotes belong to the string.
    Close,
}

/// Where the scan stands.
pub struct Scan {
    pub mode: Mode,
    /// The quote of the string at hand.
    pub delim: u8,
    /// In a string of many lines: how many quotes stand right before this
    /// place. Behind its closing quotes: how many more were taken.
    pub run: nat,
    /// How many brackets and braces are open.
    pub open: nat,
    /// How many dots the statement at hand has outside of strings.
    pub dots: nat,
    /// The most that `open` and `dots` came to together.
    pub peak: nat,
    /// Whether the scan lost track.
    pub lost: bool,
}

pub const QUOTE: u8 = 0x22;

pub const TICK: u8 = 0x27;

pub const BACKSLASH: u8 = 0x5c;

pub const NEWLINE: u8 = 0x0a;

pub const HASH: u8 = 0x23;

pub const DOT: u8 = 0x2e;

/// `[` or `{`.
pub open spec fn opens(byte: u8) -> bool {
    byte == 0x5b || byte == 0x7b
}

/// `]` or `}`.
pub open spec fn closes(byte: u8) -> bool {
    byte == 0x5d || byte == 0x7d
}

/// The scan before the first byte.
pub open spec fn start() -> Scan {
    Scan { mode: Mode::Code, delim: QUOTE, run: 0, open: 0, dots: 0, peak: 0, lost: false }
}

/// The larger of two numbers.
pub open spec fn larger(a: nat, b: nat) -> nat {
    if a >= b {
        a
    } else {
        b
    }
}

/// One more bracket or brace is open.
pub open spec fn raise(s: Scan) -> Scan {
    Scan { open: s.open + 1, peak: larger(s.peak, s.open + 1 + s.dots), ..s }
}

/// One more dot in the statement.
pub open spec fn dot(s: Scan) -> Scan {
    Scan { dots: s.dots + 1, peak: larger(s.peak, s.open + s.dots + 1), ..s }
}

/// A byte outside of strings and comments.
pub open spec fn code_step(s: Scan, byte: u8) -> Scan {
    if byte == QUOTE || byte == TICK {
        Scan { mode: Mode::One, delim: byte, ..s }
    } else if byte == HASH {
        Scan { mode: Mode::Comment, ..s }
    } else if opens(byte) {
        raise(Scan { mode: Mode::Code, ..s })
    } else if closes(byte) {
        if s.open > 0 {
            Scan { mode: Mode::Code, open: (s.open - 1) as nat, ..s }
        } else {
            Scan { mode: Mode::Code, lost: true, ..s }
        }
    } else if byte == DOT {
        dot(Scan { mode: Mode::Code, ..s })
    } else if byte == NEWLINE {
        if s.open == 0 {
            Scan { mode: Mode::Code, dots: 0, ..s }
        } else {
            Scan { mode: Mode::Code, ..s }
        }
    } else {
        Scan { mode: Mode::Code, ..s }
    }
}

/// A byte in a string of one line.
pub open spec fn single_step(s: Scan, byte: u8) -> Scan {
    if byte == s.delim {
        Scan { mode: Mode::Code, ..s }
    } else if byte == NEWLINE {
        Scan { mode: Mode::Code, lost: true, ..s }
    } else if byte == BACKSLASH && s.delim == QUOTE {
        Scan { mode: Mode::SingleEscape, ..s }
    } else {
        Scan { mode: Mode::Single, ..s }
    }
}

/// A byte in a string of many lines.
pub open spec fn multi_step(s: Scan, byte: u8) -> Scan {
    if byte == s.delim {
        if s.run >= 2 {
            Scan { mode: Mode::Close, run: 0, ..s }
        } else {
            Scan { mode: Mode::Multi, run: s.run + 1, ..s }
        }
    } else if byte == BACKSLASH && s.delim == QUOTE {
        Scan { mode: Mode::MultiEscape, run: 0, ..s }
    } else {
        Scan { mode: Mode::Multi, run: 0, ..s }
    }
}

/// A byte where the scan has lost track: every mark counts, nothing closes.
pub open spec fn lost_step(s: Scan, byte: u8) -> Scan {
    if opens(byte) || byte == DOT {
        raise(s)
    } else {
        s
    }
}

/// The scan after one more byte.
pub open spec fn step(s: Scan, byte: u8) -> Scan {
    if s.lost {
        lost_step(s, byte)
    } else {
        match s.mode {
            Mode::Code => code_step(s, byte),
            Mode::Comment => if byte == NEWLINE {
                code_step(s, byte)
            } else {
                s
            },
            Mode::One => if byte == s.delim {
                Scan { mode: Mode::Empty, ..s }
            } else {
                single_step(s, byte)
            },
            Mode::Empty => if byte == s.delim {
                Scan { mode: Mode::Multi, run: 0, ..s }
            } else {
                code_step(s, byte)
            },
            Mode::Single => single_step(s, byte),
            Mode::SingleEscape => if byte == NEWLINE {
                Scan { mode: Mode::Code, lost: true, ..s }
            } else {
                Scan { mode: Mode::Single, ..s }
            },
            Mode::Multi => multi_step(s, byte),
            Mode::MultiEscape => Scan { mode: Mode::Multi, run: 0, ..s },
            Mode::Close => if byte == s.delim && s.run < 2 {
                Scan { run: s.run + 1, ..s }
            } else {
                code_step(s, byte)
            },
        }
    }
}

/// The scan after all of `bytes`.
pub open spec fn scan(bytes: Seq<u8>) -> Scan
    decreases bytes.len(),
{
    if bytes.len() == 0 {
        start()
    } else {
        step(scan(bytes.drop_last()), bytes.last())
    }
}

/// The measure of a text: the most that open brackets and braces and the
/// dots of one statement come to together.
pub open spec fn nesting_peak(bytes: Seq<u8>) -> nat {
    scan(bytes).peak
}

/// A step never lowers the measure, and the measure covers the counts.
pub proof fn lemma_step_grows(s: Scan, byte: u8)
    requires
        s.open + s.dots <= s.peak,
    ensures
        s.peak <= step(s, byte).peak <= s.peak + 1,
        step(s, byte).open + step(s, byte).dots <= step(s, byte).peak,
{
}

/// The measure covers the counts at every place.
pub proof fn lemma_scan_covers(bytes: Seq<u8>)
    ensures
        scan(bytes).open + scan(bytes).dots <= scan(bytes).peak,
    decreases bytes.len(),
{
    if bytes.len() > 0 {
        lemma_scan_covers(bytes.drop_last());
        lemma_step_grows(scan(bytes.drop_last()), bytes.last());
    }
}

/// The measure of a text is at least that of each of its beginnings.
pub proof fn lemma_peak_grows(bytes: Seq<u8>, upto: int)
    requires
        0 <= upto <= bytes.len(),
    ensures
        nesting_peak(bytes.take(upto)) <= nesting_peak(bytes),
    decreases bytes.len() - upto,
{
    if upto < bytes.len() {
        let next = bytes.take(upto + 1);
        assert(next.drop_last() =~= bytes.take(upto));
        lemma_scan_covers(bytes.take(upto));
        lemma_step_grows(scan(bytes.take(upto)), next.last());
        lemma_peak_grows(bytes, upto + 1);
    } else {
        assert(bytes.take(upto) =~= bytes);
    }
}

/// A scan in memory.
#[derive(Clone, Copy, Debug)]
pub struct Scanner {
    mode: Mode,
    delim: u8,
    run: u8,
    open: usize,
    dots: usize,
    peak: usize,
    lost: bool,
}

impl View for Scanner {
    type V = Scan;

    closed spec fn view(&self) -> Scan {
        Scan {
            mode: self.mode,
            delim: self.delim,
            run: self.run as nat,
            open: self.open as nat,
            dots: self.dots as nat,
            peak: self.peak as nat,
            lost: self.lost,
        }
    }
}

impl Scanner {
    fn new() -> (s: Scanner)
        ensures
            s@ == start(),
    {
        Scanner { mode: Mode::Code, delim: QUOTE, run: 0, open: 0, dots: 0, peak: 0, lost: false }
    }

    fn raised(self) -> (r: Scanner)
        requires
            self@.open + self@.dots <= self@.peak <= MAX_NESTING,
        ensures
            r@ == raise(self@),
    {
        let level = self.open + 1 + self.dots;
        Scanner {
            open: self.open + 1,
            peak: if self.peak >= level {
                self.peak
            } else {
                level
            },
            ..self
        }
    }

    fn dotted(self) -> (r: Scanner)
        requires
            self@.open + self@.dots <= self@.peak <= MAX_NESTING,
        ensures
            r@ == dot(self@),
    {
        let level = self.open + self.dots + 1;
        Scanner {
            dots: self.dots + 1,
            peak: if self.peak >= level {
                self.peak
            } else {
                level
            },
            ..self
        }
    }

    fn in_code(self, byte: u8) -> (r: Scanner)
        requires
            self@.open + self@.dots <= self@.peak <= MAX_NESTING,
        ensures
            r@ == code_step(self@, byte),
    {
        if byte == QUOTE || byte == TICK {
            Scanner { mode: Mode::One, delim: byte, ..self }
        } else if byte == HASH {
            Scanner { mode: Mode::Comment, ..self }
        } else if byte == 0x5b || byte == 0x7b {
            Scanner { mode: Mode::Code, ..self }.raised()
        } else if byte == 0x5d || byte == 0x7d {
            if self.open > 0 {
                Scanner { mode: Mode::Code, open: self.open - 1, ..self }
            } else {
                Scanner { mode: Mode::Code, lost: true, ..self }
            }
        } else if byte == DOT {
            Scanner { mode: Mode::Code, ..self }.dotted()
        } else if byte == NEWLINE {
            if self.open == 0 {
                Scanner { mode: Mode::Code, dots: 0, ..self }
            } else {
                Scanner { mode: Mode::Code, ..self }
            }
        } else {
            Scanner { mode: Mode::Code, ..self }
        }
    }

    fn in_single(self, byte: u8) -> (r: Scanner)
        ensures
            r@ == single_step(self@, byte),
    {
        if byte == self.delim {
            Scanner { mode: Mode::Code, ..self }
        } else if byte == NEWLINE {
            Scanner { mode: Mode::Code, lost: true, ..self }
        } else if byte == BACKSLASH && self.delim == QUOTE {
            Scanner { mode: Mode::SingleEscape, ..self }
        } else {
            Scanner { mode: Mode::Single, ..self }
        }
    }

    fn in_multi(self, byte: u8) -> (r: Scanner)
        requires
            self@.run <= 2,
        ensures
            r@ == multi_step(self@, byte),
            r@.run <= 2,
    {
        if byte == self.delim {
            if self.run >= 2 {
                Scanner { mode: Mode::Close, run: 0, ..self }
            } else {
                Scanner { mode: Mode::Multi, run: self.run + 1, ..self }
            }
        } else if byte == BACKSLASH && self.delim == QUOTE {
            Scanner { mode: Mode::MultiEscape, run: 0, ..self }
        } else {
            Scanner { mode: Mode::Multi, run: 0, ..self }
        }
    }

    fn advance(self, byte: u8) -> (r: Scanner)
        requires
            self@.open + self@.dots <= self@.peak <= MAX_NESTING,
            self@.run <= 2,
        ensures
            r@ == step(self@, byte),
            r@.run <= 2,
    {
        if self.lost {
            if byte == 0x5b || byte == 0x7b || byte == DOT {
                self.raised()
            } else {
                self
            }
        } else {
            match self.mode {
                Mode::Code => self.in_code(byte),
                Mode::Comment => if byte == NEWLINE {
                    self.in_code(byte)
                } else {
                    self
                },
                Mode::One => if byte == self.delim {
                    Scanner { mode: Mode::Empty, ..self }
                } else {
                    self.in_single(byte)
                },
                Mode::Empty => if byte == self.delim {
                    Scanner { mode: Mode::Multi, run: 0, ..self }
                } else {
                    self.in_code(byte)
                },
                Mode::Single => self.in_single(byte),
                Mode::SingleEscape => if byte == NEWLINE {
                    Scanner { mode: Mode::Code, lost: true, ..self }
                } else {
                    Scanner { mode: Mode::Single, ..self }
                },
                Mode::Multi => self.in_multi(byte),
                Mode::MultiEscape => Scanner { mode: Mode::Multi, run: 0, ..self },
                Mode::Close => if byte == self.delim && self.run < 2 {
                    Scanner { run: self.run + 1, ..self }
                } else {
                    self.in_code(byte)
                },
            }
        }
    }
}

/// The measure of `bytes`, where it is at most `MAX_NESTING`; nothing where
/// it is more.
pub fn measure(bytes: &[u8]) -> (r: Option<usize>)
    ensures
        match r {
            Some(peak) => peak == nesting_peak(bytes@) && peak <= MAX_NESTING,
            None => nesting_peak(bytes@) > MAX_NESTING,
        },
{
    let mut s = Scanner::new();
    let mut i: usize = 0;
    proof {
        assert(bytes@.take(0) =~= Seq::<u8>::empty());
    }
    while i < bytes.len()
        invariant
            i <= bytes.len(),
            s@ == scan(bytes@.take(i as int)),
            s@.peak <= MAX_NESTING,
            s@.run <= 2,
        decreases bytes.len() - i,
    {
        proof {
            assert(bytes@.take(i + 1).drop_last() =~= bytes@.take(i as int));
            lemma_scan_covers(bytes@.take(i as int));
        }
        s = s.advance(bytes[i]);
        i = i + 1;
        if s.peak > MAX_NESTING {
            proof {
                lemma_peak_grows(bytes@, i as int);
            }
            return None;
        }
    }
    proof {
        assert(bytes@.take(i as int) =~= bytes@);
    }
    Some(s.peak)
}

/// The measure of a text, where it is at most `MAX_NESTING`; nothing where
/// it is more.
pub fn deepest_nesting(text: &str) -> (r: Option<usize>)
    ensures
        match r {
            Some(peak) => peak == nesting_peak(encode_utf8(text@)) && peak <= MAX_NESTING,
            None => nesting_peak(encode_utf8(text@)) > MAX_NESTING,
        },
{
    measure(text.as_bytes())
}

} // verus!
