//! Source locations and values that carry one.
use vstd::prelude::*;
use vstd::std_specs::ops::AddSpecImpl;
use vstd::string::StringSliceAdditionalSpecFns;

verus! {

/// A half-open range `[start, end)` of positions in the source text.
#[derive(Clone, Copy, Debug, PartialEq, Eq, Structural)]
pub struct Location {
    pub start: usize,
    pub end: usize,
}

impl Location {
    /// The smallest range that holds both `self` and `other`.
    pub open spec fn join(self, other: Location) -> Location {
        Location {
            start: if self.start <= other.start { self.start } else { other.start },
            end: if self.end >= other.end { self.end } else { other.end },
        }
    }

    /// True when the range is not reversed and lies inside a text of `len` positions.
    pub open spec fn within(self, len: nat) -> bool {
        self.start <= self.end && self.end <= len
    }

    pub fn new(start: usize, end: usize) -> (loc: Location)
        ensures
            loc == (Location { start, end }),
    {
        Location { start, end }
    }

    /// Pairs `content` with this location.
    pub fn with_content<T>(self, content: T) -> (located: Located<T>)
        ensures
            located == (Located { content, loc: self }),
    {
        Located { content, loc: self }
    }
}

impl core::ops::Add for Location {
    type Output = Location;

    fn add(self, rhs: Location) -> (loc: Location) {
        Location {
            start: if self.start <= rhs.start { self.start } else { rhs.start },
            end: if self.end >= rhs.end { self.end } else { rhs.end },
        }
    }
}

impl AddSpecImpl for Location {
    open spec fn obeys_add_spec() -> bool {
        true
    }

    open spec fn add_req(self, rhs: Location) -> bool {
        true
    }

    open spec fn add_spec(self, rhs: Location) -> Location {
        self.join(rhs)
    }
}

/// Joining keeps both operands inside the result, is commutative and
/// associative, and joining a range with itself changes nothing.
pub proof fn lemma_join_encloses(a: Location, b: Location, c: Location)
    ensures
        a.join(b).start <= a.start && a.end <= a.join(b).end,
        a.join(b).start <= b.start && b.end <= a.join(b).end,
        a.join(b) == b.join(a),
        a.join(b).join(c) == a.join(b.join(c)),
        a.join(a) == a,
{
}

/// Two ranges of one text join to a range of that text.
pub proof fn lemma_join_within(a: Location, b: Location, len: nat)
    requires
        a.within(len),
        b.within(len),
    ensures
        a.join(b).within(len),
{
}

/// A value together with the place in the source text that it came from.
#[derive(Clone, Copy, Debug, PartialEq, Eq)]
pub struct Located<T> {
    pub content: T,
    pub loc: Location,
}

impl<T> Located<T> {
    pub fn new(content: T, loc: Location) -> (located: Located<T>)
        ensures
            located == (Located { content, loc }),
    {
        Located { content, loc }
    }
}

/// A place in a text by its line and its column in that line, both counted
/// from 1 and in bytes.
#[derive(Clone, Copy, Debug, PartialEq, Eq, Structural)]
pub struct LineColumn {
    pub line: usize,
    pub column: usize,
}

/// The number of line feeds among the first `pos` bytes.
pub open spec fn spec_lines_before(bytes: Seq<u8>, pos: int) -> nat
    decreases pos,
{
    if pos <= 0 || pos > bytes.len() {
        0
    } else if bytes[pos - 1] == 10 {
        1 + spec_lines_before(bytes, pos - 1)
    } else {
        spec_lines_before(bytes, pos - 1)
    }
}

/// The position at which the line of `pos` starts: behind the last line feed
/// among the first `pos` bytes, or at 0.
pub open spec fn spec_line_start(bytes: Seq<u8>, pos: int) -> int
    decreases pos,
{
    if pos <= 0 || pos > bytes.len() {
        0
    } else if bytes[pos - 1] == 10 {
        pos
    } else {
        spec_line_start(bytes, pos - 1)
    }
}

impl Location {
    /// The line and the column of the start of the range in a text of the
    /// given bytes. A range that starts behind the text counts as starting
    /// at its end.
    pub open spec fn spec_line_column(self, bytes: Seq<u8>) -> LineColumn {
        let pos = if self.start <= bytes.len() {
            self.start as int
        } else {
            bytes.len() as int
        };
        LineColumn {
            line: (spec_lines_before(bytes, pos) + 1) as usize,
            column: (pos - spec_line_start(bytes, pos) + 1) as usize,
        }
    }

    /// The line and the column at which the range starts in `text`.
    pub fn line_column(&self, text: &str) -> (place: LineColumn)
        requires
            text.spec_bytes().len() < usize::MAX,
        ensures
            place == self.spec_line_column(text.spec_bytes()),
    {
        let bytes = text.as_bytes();
        let pos = if self.start <= bytes.len() {
            self.start
        } else {
            bytes.len()
        };
        let mut lines: usize = 0;
        let mut line_start: usize = 0;
        let mut i: usize = 0;
        while i < pos
            invariant
                i <= pos <= bytes@.len() < usize::MAX,
                lines == spec_lines_before(bytes@, i as int),
                line_start == spec_line_start(bytes@, i as int),
                lines <= i,
                line_start <= i,
            decreases pos - i,
        {
            if bytes[i] == 10 {
                lines += 1;
                line_start = i + 1;
            }
            i += 1;
        }
        LineColumn { line: lines + 1, column: pos - line_start + 1 }
    }
}

} // verus!
