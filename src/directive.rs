//! Classification of one line of the mesh format by its leading directive, and
//! the split of the rest of the line into tokens.
use vstd::prelude::*;

use crate::text::{chars_of, split_on, split_spec, trim, trim_spec};

verus! {

/// The kind of a line, chosen by its first one or two characters.
#[derive(Clone, Copy, Debug, PartialEq, Eq, Structural)]
pub enum Directive {
    /// `v ` : a position.
    Vertex,
    /// `vn` : a normal.
    VertexNormal,
    /// `f` : a triangle.
    Face,
    /// Anything else; the line is ignored.
    Unknown,
}

/// The directive of `line`: `vn` before `v `, so that the two are told apart
/// before any coordinate is read.
pub open spec fn directive_spec(line: Seq<char>) -> Directive {
    if line.len() >= 2 && line[0] == 'v' && line[1] == 'n' {
        Directive::VertexNormal
    } else if line.len() >= 2 && line[0] == 'v' && line[1] == ' ' {
        Directive::Vertex
    } else if line.len() >= 1 && line[0] == 'f' {
        Directive::Face
    } else {
        Directive::Unknown
    }
}

/// What follows the directive: the line after its first two characters (for a
/// face, the `f` and the separator after it).
pub open spec fn payload_spec(line: Seq<char>) -> Seq<char> {
    if line.len() >= 2 {
        line.skip(2)
    } else {
        Seq::empty()
    }
}

/// The tokens of a line: its payload, trimmed, split at every single space.
/// An ignored line has none.
pub open spec fn tokens_spec(line: Seq<char>) -> Seq<Seq<char>> {
    if directive_spec(line) == Directive::Unknown {
        Seq::empty()
    } else {
        split_spec(trim_spec(payload_spec(line)), ' ')
    }
}

/// One line, classified and cut into tokens.
#[derive(Debug)]
pub struct LineTokens {
    pub directive: Directive,
    pub tokens: Vec<Vec<char>>,
}

impl LineTokens {
    pub open spec fn tokens_view(&self) -> Seq<Seq<char>> {
        self.tokens@.map_values(|t: Vec<char>| t@)
    }
}

/// Classifies `line` (with or without its line terminator) and splits its
/// payload into tokens.
pub fn tokenize_line(line: &str) -> (r: LineTokens)
    ensures
        r.directive == directive_spec(line@),
        r.tokens_view() == tokens_spec(line@),
{
    let cs = chars_of(line);
    let n = cs.len();
    let directive = if n >= 2 && cs[0] == 'v' && cs[1] == 'n' {
        Directive::VertexNormal
    } else if n >= 2 && cs[0] == 'v' && cs[1] == ' ' {
        Directive::Vertex
    } else if n >= 1 && cs[0] == 'f' {
        Directive::Face
    } else {
        Directive::Unknown
    };
    if directive == Directive::Unknown {
        let tokens: Vec<Vec<char>> = Vec::new();
        assert(tokens@.map_values(|t: Vec<char>| t@) =~= Seq::empty());
        return LineTokens { directive, tokens };
    }
    let start: usize = if n >= 2 { 2 } else { n };
    assert(cs@.subrange(start as int, n as int) =~= payload_spec(line@));
    let payload = trim(&cs.as_slice()[start..n]);
    let tokens = split_on(payload.as_slice(), ' ');
    LineTokens { directive, tokens }
}

} // verus!
