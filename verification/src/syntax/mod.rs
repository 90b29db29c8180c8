//! Source files, positions and spans.

use vstd::prelude::*;

pub mod error;
pub mod lexer;
pub mod parser;
pub mod text;
pub mod token;
pub mod tree;

verus! {

/// A half-open byte range `start..end` in the file numbered `file`.
#[derive(Debug, Clone, Copy, PartialEq, Eq, Structural)]
pub struct Span {
    pub file: usize,
    pub start: usize,
    pub end: usize,
}

impl Span {
    /// The span `start..end` of `file`.
    pub fn new(file: usize, start: usize, end: usize) -> (s: Span)
        ensures
            s == (Span { file, start, end }),
    {
        Span { file, start, end }
    }

    /// The empty span that sits at byte `pos` of `file`.
    pub fn empty(file: usize, pos: usize) -> (s: Span)
        ensures
            s == (Span { file, start: pos, end: pos }),
    {
        Span { file, start: pos, end: pos }
    }
}

} // verus!

verus! {

/// A position in a source file: the byte offset, the zero-based line and the
/// zero-based column (counted in steps of the lexer) on that line.
#[derive(Debug, Clone, Copy, PartialEq, Eq, Structural)]
pub struct SourcePos {
    pub file: usize,
    pub byte_offset: usize,
    pub line: usize,
    pub column: usize,
}

/// The start and end positions of a piece of source text.
#[derive(Debug, Clone, Copy, PartialEq, Eq, Structural)]
pub struct SourceSpan {
    pub start: SourcePos,
    pub end: SourcePos,
}

/// A source file: its number and its bytes.
#[derive(Debug, Clone, Copy)]
pub struct SourceFile<'a> {
    pub id: usize,
    pub source: &'a [u8],
}

/// The position one byte further along the same line.
pub open spec fn pos_row(p: SourcePos) -> SourcePos {
    SourcePos { byte_offset: (p.byte_offset + 1) as usize, column: (p.column + 1) as usize, ..p }
}

/// The position at the start of the next line, past one newline byte.
pub open spec fn pos_newline(p: SourcePos) -> SourcePos {
    SourcePos { byte_offset: (p.byte_offset + 1) as usize, line: (p.line + 1) as usize, column: 0, ..p }
}

/// The position past the character `c` on the same line.
pub open spec fn pos_advance_char(p: SourcePos, c: char) -> SourcePos {
    SourcePos {
        byte_offset: (p.byte_offset + text::utf8_width(c)) as usize,
        column: (p.column + 1) as usize,
        ..p
    }
}

/// Line and column never run ahead of the byte offset.
pub open spec fn pos_sane(p: SourcePos) -> bool {
    p.line <= p.byte_offset && p.column <= p.byte_offset
}

impl SourcePos {
    /// The first position of `file`.
    pub fn start_of_file(file: usize) -> (p: SourcePos)
        ensures
            p == (SourcePos { file, byte_offset: 0, line: 0, column: 0 }),
    {
        SourcePos { file, byte_offset: 0, line: 0, column: 0 }
    }

    /// Steps over one byte that is not a newline.
    pub fn row(&mut self)
        requires
            pos_sane(*old(self)),
            old(self).byte_offset < usize::MAX,
        ensures
            *final(self) == pos_row(*old(self)),
        no_unwind
    {
        self.byte_offset = self.byte_offset + 1;
        self.column = self.column + 1;
    }

    /// Steps over one newline byte.
    pub fn newline(&mut self)
        requires
            pos_sane(*old(self)),
            old(self).byte_offset < usize::MAX,
        ensures
            *final(self) == pos_newline(*old(self)),
        no_unwind
    {
        self.byte_offset = self.byte_offset + 1;
        self.line = self.line + 1;
        self.column = 0;
    }

    /// Steps over the encoding of `c`.
    pub fn advance_by_char(&mut self, c: char)
        requires
            pos_sane(*old(self)),
            old(self).byte_offset + text::utf8_width(c) <= usize::MAX,
        ensures
            *final(self) == pos_advance_char(*old(self), c),
        no_unwind
    {
        let n = text::char_len_utf8(c);
        self.byte_offset = self.byte_offset + n;
        self.column = self.column + 1;
    }
}

} // verus!
