//! A coarse reading of a feed's markup, made before the feed is parsed: how
//! deep its elements nest, and whether it names an update schedule.
//!
//! The parser descends once for every element that stands open inside an
//! extension element, and it does not put up with a schedule that it cannot
//! read. A text is handed to it only where this reading finds neither.
use vstd::prelude::*;

verus! {

/// The most elements that may stand open at once in a text that is parsed.
pub const MAX_DEPTH: u32 = 64;

/// The byte `<`.
pub const LESS: u8 = 60;

/// The byte `>`.
pub const GREATER: u8 = 62;

/// The byte `/`.
pub const SLASH: u8 = 47;

/// The byte `!`.
pub const BANG: u8 = 33;

/// The byte `?`.
pub const QUESTION: u8 = 63;

/// The byte `-`.
pub const DASH: u8 = 45;

/// The byte `[`.
pub const BRACKET: u8 = 91;

/// The byte `]`.
pub const BRACKET_END: u8 = 93;

/// The single quote.
pub const QUOTE: u8 = 39;

/// The double quote.
pub const DOUBLE_QUOTE: u8 = 34;

/// Where in the markup the reading stands.
#[derive(Clone, Copy, Debug)]
pub enum Mode {
    /// Between tags.
    Text,
    /// Behind a `<`: the next byte tells what kind of tag begins.
    Opened,
    /// In an end tag or in a processing instruction: up to the next `>`.
    Closing,
    /// In a start tag, outside its attribute values; whether the last byte
    /// was a `/`.
    Element { slash: bool },
    /// In an attribute value between single quotes.
    Single,
    /// In an attribute value between double quotes.
    Double,
    /// Behind `<!`.
    Declaration,
    /// Behind `<!-`.
    Dash,
    /// Behind `<![` and this many bytes of `CDATA[`.
    Marker(u8),
    /// In a comment, which ends at `-->`: the dashes that the comment's
    /// text ends with so far, two at most.
    Comment(u8),
    /// In a character data section, which ends at `]]>`: the brackets that
    /// its text ends with so far, two at most.
    CData(u8),
    /// The text is not to be parsed: it nests too deep, or holds a
    /// declaration other than a comment or a character data section.
    Refused,
}

/// The reading so far.
#[derive(Clone, Copy, Debug)]
pub struct Scan {
    pub mode: Mode,
    /// No fewer than the elements that stand open; `MAX_DEPTH` at most.
    pub depth: u32,
}

/// The byte of `CDATA[` at position `at`.
pub open spec fn marker_byte(at: u8) -> u8 {
    if at == 0 {
        67
    } else if at == 1 {
        68
    } else if at == 2 {
        65
    } else if at == 3 {
        84
    } else if at == 4 {
        65
    } else {
        BRACKET
    }
}

impl Scan {
    /// The reading of an empty text.
    pub open spec fn begin() -> Scan {
        Scan { mode: Mode::Text, depth: 0 }
    }

    /// The reading after one more byte.
    ///
    /// A start tag counts as an open element from its first byte, and no
    /// longer once it has ended in `/>`; an end tag closes one element. A
    /// tag ends at the first `>` outside its attribute values.
    pub open spec fn step(self, byte: u8) -> Scan {
        match self.mode {
            Mode::Refused => self,
            Mode::Text => if byte == LESS {
                Scan { mode: Mode::Opened, ..self }
            } else {
                self
            },
            Mode::Opened => if byte == SLASH {
                Scan {
                    mode: Mode::Closing,
                    depth: if self.depth > 0 {
                        (self.depth - 1) as u32
                    } else {
                        0
                    },
                }
            } else if byte == QUESTION {
                Scan { mode: Mode::Closing, ..self }
            } else if byte == BANG {
                Scan { mode: Mode::Declaration, ..self }
            } else if self.depth >= MAX_DEPTH {
                Scan { mode: Mode::Refused, ..self }
            } else {
                Scan {
                    mode: if byte == GREATER {
                        Mode::Text
                    } else if byte == QUOTE {
                        Mode::Single
                    } else if byte == DOUBLE_QUOTE {
                        Mode::Double
                    } else {
                        Mode::Element { slash: false }
                    },
                    depth: (self.depth + 1) as u32,
                }
            },
            Mode::Closing => if byte == GREATER {
                Scan { mode: Mode::Text, ..self }
            } else {
                self
            },
            Mode::Element { slash } => if byte == GREATER {
                Scan {
                    mode: Mode::Text,
                    depth: if slash && self.depth > 0 {
                        (self.depth - 1) as u32
                    } else {
                        self.depth
                    },
                }
            } else if byte == QUOTE {
                Scan { mode: Mode::Single, ..self }
            } else if byte == DOUBLE_QUOTE {
                Scan { mode: Mode::Double, ..self }
            } else {
                Scan { mode: Mode::Element { slash: byte == SLASH }, ..self }
            },
            Mode::Single => if byte == QUOTE {
                Scan { mode: Mode::Element { slash: false }, ..self }
            } else {
                self
            },
            Mode::Double => if byte == DOUBLE_QUOTE {
                Scan { mode: Mode::Element { slash: false }, ..self }
            } else {
                self
            },
            Mode::Declaration => if byte == DASH {
                Scan { mode: Mode::Dash, ..self }
            } else if byte == BRACKET {
                Scan { mode: Mode::Marker(0), ..self }
            } else {
                Scan { mode: Mode::Refused, ..self }
            },
            Mode::Dash => if byte == DASH {
                Scan { mode: Mode::Comment(0), ..self }
            } else {
                Scan { mode: Mode::Refused, ..self }
            },
            Mode::Marker(at) => if at < 6 && byte == marker_byte(at) {
                Scan {
                    mode: if at == 5 {
                        Mode::CData(0)
                    } else {
                        Mode::Marker((at + 1) as u8)
                    },
                    ..self
                }
            } else {
                Scan { mode: Mode::Refused, ..self }
            },
            Mode::Comment(dashes) => if byte == GREATER && dashes >= 2 {
                Scan { mode: Mode::Text, ..self }
            } else if byte == DASH {
                Scan {
                    mode: Mode::Comment(
                        if dashes >= 1 {
                            2
                        } else {
                            1
                        },
                    ),
                    ..self
                }
            } else {
                Scan { mode: Mode::Comment(0), ..self }
            },
            Mode::CData(brackets) => if byte == GREATER && brackets >= 2 {
                Scan { mode: Mode::Text, ..self }
            } else if byte == BRACKET_END {
                Scan {
                    mode: Mode::CData(
                        if brackets >= 1 {
                            2
                        } else {
                            1
                        },
                    ),
                    ..self
                }
            } else {
                Scan { mode: Mode::CData(0), ..self }
            },
        }
    }

    fn next(self, byte: u8) -> (after: Scan)
        ensures
            after == self.step(byte),
    {
        let Scan { mode, depth } = self;
        match mode {
            Mode::Refused => self,
            Mode::Text => if byte == LESS {
                Scan { mode: Mode::Opened, depth }
            } else {
                self
            },
            Mode::Opened => if byte == SLASH {
                Scan {
                    mode: Mode::Closing,
                    depth: if depth > 0 {
                        depth - 1
                    } else {
                        0
                    },
                }
            } else if byte == QUESTION {
                Scan { mode: Mode::Closing, depth }
            } else if byte == BANG {
                Scan { mode: Mode::Declaration, depth }
            } else if depth >= MAX_DEPTH {
                Scan { mode: Mode::Refused, depth }
            } else {
                Scan {
                    mode: if byte == GREATER {
                        Mode::Text
                    } else if byte == QUOTE {
                        Mode::Single
                    } else if byte == DOUBLE_QUOTE {
                        Mode::Double
                    } else {
                        Mode::Element { slash: false }
                    },
                    depth: depth + 1,
                }
            },
            Mode::Closing => if byte == GREATER {
                Scan { mode: Mode::Text, depth }
            } else {
                self
            },
            Mode::Element { slash } => if byte == GREATER {
                Scan {
                    mode: Mode::Text,
                    depth: if slash && depth > 0 {
                        depth - 1
                    } else {
                        depth
                    },
                }
            } else if byte == QUOTE {
                Scan { mode: Mode::Single, depth }
            } else if byte == DOUBLE_QUOTE {
                Scan { mode: Mode::Double, depth }
            } else {
                Scan { mode: Mode::Element { slash: byte == SLASH }, depth }
            },
            Mode::Single => if byte == QUOTE {
                Scan { mode: Mode::Element { slash: false }, depth }
            } else {
                self
            },
            Mode::Double => if byte == DOUBLE_QUOTE {
                Scan { mode: Mode::Element { slash: false }, depth }
            } else {
                self
            },
            Mode::Declaration => if byte == DASH {
                Scan { mode: Mode::Dash, depth }
            } else if byte == BRACKET {
                Scan { mode: Mode::Marker(0), depth }
            } else {
                Scan { mode: Mode::Refused, depth }
            },
            Mode::Dash => if byte == DASH {
                Scan { mode: Mode::Comment(0), depth }
            } else {
                Scan { mode: Mode::Refused, depth }
            },
            Mode::Marker(at) => {
                let wanted: u8 = if at == 0 {
                    67
                } else if at == 1 {
                    68
                } else if at == 2 {
                    65
                } else if at == 3 {
                    84
                } else if at == 4 {
                    65
                } else {
                    BRACKET
                };
                if at < 6 && byte == wanted {
                    Scan {
                        mode: if at == 5 {
                            Mode::CData(0)
                        } else {
                            Mode::Marker(at + 1)
                        },
                        depth,
                    }
                } else {
                    Scan { mode: Mode::Refused, depth }
                }
            },
            Mode::Comment(dashes) => if byte == GREATER && dashes >= 2 {
                Scan { mode: Mode::Text, depth }
            } else if byte == DASH {
                Scan {
                    mode: Mode::Comment(
                        if dashes >= 1 {
                            2
                        } else {
                            1
                        },
                    ),
                    depth,
                }
            } else {
                Scan { mode: Mode::Comment(0), depth }
            },
            Mode::CData(brackets) => if byte == GREATER && brackets >= 2 {
                Scan { mode: Mode::Text, depth }
            } else if byte == BRACKET_END {
                Scan {
                    mode: Mode::CData(
                        if brackets >= 1 {
                            2
                        } else {
                            1
                        },
                    ),
                    depth,
                }
            } else {
                Scan { mode: Mode::CData(0), depth }
            },
        }
    }
}

/// The reading of a whole text.
pub open spec fn scanned(bytes: Seq<u8>) -> Scan
    decreases bytes.len(),
{
    if bytes.len() == 0 {
        Scan::begin()
    } else {
        scanned(bytes.drop_last()).step(bytes.last())
    }
}

/// Whether at no point of the text more than `MAX_DEPTH` elements stand
/// open, and the text holds no declaration but comments and character data.
pub open spec fn shallow(bytes: Seq<u8>) -> bool {
    !(scanned(bytes).mode is Refused)
}

/// Whether `name` stands in `bytes` at `at`.
pub open spec fn stands_at(name: Seq<u8>, bytes: Seq<u8>, at: int) -> bool {
    0 <= at <= bytes.len() - name.len() && bytes.subrange(at, at + name.len()) == name
}

/// Whether `name` stands somewhere in `bytes`.
pub open spec fn names(bytes: Seq<u8>, name: Seq<u8>) -> bool {
    exists|at: int| stands_at(name, bytes, at)
}

/// Whether the text of a feed is handed to the parser: its elements do not
/// nest too deep, and it names neither the period nor the frequency of an
/// update schedule.
pub open spec fn readable(text: Seq<char>) -> bool {
    let bytes = vstd::utf8::encode_utf8(text);
    &&& shallow(bytes)
    &&& !names(bytes, vstd::utf8::encode_utf8("updatePeriod"@))
    &&& !names(bytes, vstd::utf8::encode_utf8("updateFrequency"@))
}

/// Reads the markup of `bytes`.
pub fn scan(bytes: &[u8]) -> (end: Scan)
    ensures
        end == scanned(bytes@),
{
    let mut state = Scan { mode: Mode::Text, depth: 0 };
    let mut i: usize = 0;
    assert(bytes@.take(0) =~= Seq::empty());
    while i < bytes.len()
        invariant
            i <= bytes.len(),
            state == scanned(bytes@.take(i as int)),
        decreases bytes.len() - i,
    {
        proof {
            assert(bytes@.take(i + 1).drop_last() =~= bytes@.take(i as int));
        }
        state = state.next(bytes[i]);
        i = i + 1;
    }
    assert(bytes@.take(bytes.len() as int) =~= bytes@);
    state
}

/// Whether `name` stands somewhere in `bytes`.
pub fn find(bytes: &[u8], name: &[u8]) -> (found: bool)
    ensures
        found == names(bytes@, name@),
{
    if name.len() > bytes.len() {
        assert(forall|at: int| !stands_at(name@, bytes@, at));
        return false;
    }
    let last: usize = bytes.len() - name.len();
    let mut at: usize = 0;
    while at <= last
        invariant
            last == bytes.len() - name.len(),
            at <= last + 1,
            forall|before: int| 0 <= before < at ==> !stands_at(name@, bytes@, before),
        decreases last + 1 - at,
    {
        let mut k: usize = 0;
        while k < name.len() && bytes[at + k] == name[k]
            invariant
                last == bytes.len() - name.len(),
                at <= last,
                k <= name.len(),
                forall|j: int| 0 <= j < k ==> bytes@[at + j] == name@[j],
            decreases name.len() - k,
        {
            k = k + 1;
        }
        if k == name.len() {
            assert(bytes@.subrange(at as int, at + name.len()) =~= name@);
            assert(stands_at(name@, bytes@, at as int));
            return true;
        }
        assert(!stands_at(name@, bytes@, at as int)) by {
            if stands_at(name@, bytes@, at as int) {
                assert(bytes@.subrange(at as int, at + name.len())[k as int] == name@[k as int]);
            }
        }
        at = at + 1;
    }
    assert(forall|before: int| !stands_at(name@, bytes@, before));
    false
}

/// Whether the text of a feed is handed to the parser.
pub fn is_readable(text: &str) -> (fit: bool)
    ensures
        fit == readable(text@),
{
    let bytes = text.as_bytes();
    match scan(bytes).mode {
        Mode::Refused => false,
        _ => !find(bytes, "updatePeriod".as_bytes()) && !find(bytes, "updateFrequency".as_bytes()),
    }
}

} // verus!
