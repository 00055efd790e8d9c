use vstd::prelude::*;

verus! {

/// A `::`-separated sequence of segments, such as `usr::bin::*`.
#[derive(Debug, PartialEq, Eq)]
pub struct Path<'a>(pub Vec<Segment<'a>>);

/// One component of a path.
#[derive(Debug, PartialEq, Eq)]
pub enum Segment<'a> {
    /// A run of ASCII letters and digits, borrowed from the input line.
    Atom(&'a str),
    /// A brace group `{p1, p2, ...}` of alternative paths.
    Multiple(Vec<Path<'a>>),
    /// The `*` marker.
    Wildcard,
}

/// The mathematical value of a segment.
pub enum SegmentModel {
    Atom(Seq<char>),
    Multiple(Seq<Seq<SegmentModel>>),
    Wildcard,
}

impl<'a> Path<'a> {
    pub open spec fn view(&self) -> Seq<SegmentModel>
        decreases self,
    {
        Seq::new(
            self.0.len() as nat,
            |i: int|
                if 0 <= i < self.0.len() {
                    self.0[i].view()
                } else {
                    SegmentModel::Wildcard
                },
        )
    }
}

impl<'a> Segment<'a> {
    pub open spec fn view(&self) -> SegmentModel
        decreases self,
    {
        match self {
            Segment::Atom(t) => SegmentModel::Atom(t@),
            Segment::Multiple(ps) => SegmentModel::Multiple(
                Seq::new(
                    ps.len() as nat,
                    |i: int|
                        if 0 <= i < ps.len() {
                            ps[i].view()
                        } else {
                            Seq::empty()
                        },
                ),
            ),
            Segment::Wildcard => SegmentModel::Wildcard,
        }
    }
}

/// What went wrong when a parse failed.
#[derive(Debug, Clone, Copy, PartialEq, Eq, Structural)]
pub enum ErrorKind {
    /// A required character was not found at the position.
    UnexpectedToken,
    /// The input ended where a production still needed characters.
    UnexpectedEnd,
    /// A one-or-more list matched no element.
    EmptyList,
}

/// A parse failure: its kind and the character position where it arose.
#[derive(Debug, Clone, Copy, PartialEq, Eq, Structural)]
pub struct ParseError {
    pub kind: ErrorKind,
    pub position: usize,
}

impl ParseError {
    pub open spec fn view(&self) -> (ErrorKind, int) {
        (self.kind, self.position as int)
    }
}

} // verus!
