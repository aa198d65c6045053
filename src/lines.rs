//! Classification of physical lines and joining of continued lines.
use vstd::prelude::*;
use crate::text::{
    trimmed, text_lines, trim_text, text_lines_of, starts_with_char, ends_with_char,
    drop_last_char,
};

verus! {

/// Marks a comment line.
pub const COMMENT_SYMBOL: char = '#';

/// The kind of a line of a configuration file.
#[derive(Debug, Clone, Copy, PartialEq, Eq, Structural)]
pub enum LineType {
    /// A binding, starting in the first column.
    Key,
    /// A command, indented.
    Command,
    /// A directive; none is produced by the classifier.
    Statement,
    /// A comment or a blank line.
    Other,
}

/// A line of a configuration file with its kind and 1-based number.
#[derive(Debug, Clone)]
pub struct Line {
    pub content: String,
    pub linetype: LineType,
    pub linenumber: u32,
}

/// What a `Line` holds, with its text as characters.
pub struct LineView {
    pub content: Seq<char>,
    pub linetype: LineType,
    pub linenumber: u32,
}

impl View for Line {
    type V = LineView;

    open spec fn view(&self) -> LineView {
        LineView { content: self.content@, linetype: self.linetype, linenumber: self.linenumber }
    }
}

impl PartialEq for Line {
    fn eq(&self, other: &Line) -> (r: bool) {
        self.linetype == other.linetype && self.linenumber == other.linenumber
            && self.content == other.content
    }
}

impl vstd::std_specs::cmp::PartialEqSpecImpl for Line {
    open spec fn obeys_eq_spec() -> bool {
        true
    }

    open spec fn eq_spec(&self, other: &Line) -> bool {
        self@ == other@
    }
}

/// The kind of a physical line: blank or comment lines are `Other`, indented
/// lines are commands, the rest are keys.
pub open spec fn line_kind(s: Seq<char>) -> LineType {
    let t = trimmed(s);
    if t.len() == 0 || t[0] == COMMENT_SYMBOL {
        LineType::Other
    } else if s.len() > 0 && (s[0] == ' ' || s[0] == '\t') {
        LineType::Command
    } else {
        LineType::Key
    }
}

/// Whether a line continues on the next one.
pub open spec fn continues(l: LineView) -> bool {
    l.content.len() > 0 && l.content.last() == '\\'
}

/// A line with its content trimmed.
pub open spec fn trimmed_line(l: LineView) -> LineView {
    LineView { content: trimmed(l.content), linetype: l.linetype, linenumber: l.linenumber }
}

/// A continued line `a` joined with `b`: the backslash of `a` is dropped, and
/// the content of `b` is appended only where both lines are of one kind.
pub open spec fn joined(a: LineView, b: LineView) -> LineView {
    LineView {
        content: if a.linetype == b.linetype {
            a.content.drop_last() + b.content
        } else {
            a.content.drop_last()
        },
        linetype: a.linetype,
        linenumber: a.linenumber,
    }
}

/// The lines among the first `n` physical lines `ls` that are not `Other`,
/// numbered from 1.
pub open spec fn kept_lines(ls: Seq<Seq<char>>, n: nat) -> Seq<LineView>
    decreases n,
{
    if n == 0 {
        seq![]
    } else {
        let prev = kept_lines(ls, (n - 1) as nat);
        let l = ls[n - 1];
        if line_kind(l) == LineType::Other {
            prev
        } else {
            prev.push(LineView { content: l, linetype: line_kind(l), linenumber: n as u32 })
        }
    }
}

/// The classified lines of a text, without blank and comment lines.
pub open spec fn classified_lines(s: Seq<char>) -> Seq<LineView> {
    kept_lines(text_lines(s), text_lines(s).len())
}

/// Joining the first `n` lines (`n >= 1`): the logical lines finished so far,
/// and the one still open.
pub open spec fn join_state(ls: Seq<LineView>, n: nat) -> (Seq<LineView>, LineView)
    decreases n,
{
    if n <= 1 {
        (seq![], trimmed_line(ls[0]))
    } else {
        let (done, open) = join_state(ls, (n - 1) as nat);
        let l = trimmed_line(ls[n - 1]);
        if !continues(open) {
            (done.push(open), l)
        } else {
            (done, joined(open, l))
        }
    }
}

/// The logical lines of `ls`: each trimmed, and each continued line joined
/// with those that follow it.
pub open spec fn joined_lines(ls: Seq<LineView>) -> Seq<LineView> {
    if ls.len() == 0 {
        seq![]
    } else {
        let (done, open) = join_state(ls, ls.len());
        done.push(open)
    }
}

/// The views of a sequence of lines.
pub open spec fn lines_view(ls: Seq<Line>) -> Seq<LineView> {
    ls.map_values(|l: Line| l@)
}

impl Line {
    pub fn new(content: String, linetype: LineType, linenumber: u32) -> (r: Self)
        ensures
            r@ == (LineView { content: content@, linetype, linenumber }),
    {
        Line { content, linetype, linenumber }
    }

    /// The kind of a physical line.
    pub fn mark_line(line: &str) -> (r: LineType)
        ensures
            r == line_kind(line@),
    {
        let t = trim_text(line);
        if t.as_str().unicode_len() == 0 || t.as_str().get_char(0) == COMMENT_SYMBOL {
            LineType::Other
        } else if starts_with_char(line, ' ') || starts_with_char(line, '\t') {
            LineType::Command
        } else {
            LineType::Key
        }
    }

    /// A line of the given text and number, classified.
    pub fn from_str(content: &str, linenumber: u32) -> (r: Self)
        ensures
            r@ == (LineView { content: content@, linetype: line_kind(content@), linenumber }),
    {
        Line { content: String::from_str(content), linetype: Self::mark_line(content), linenumber }
    }

    /// This continued line joined with `other`.
    pub fn join_line(self, other: &Self) -> (r: Self)
        requires
            continues(self@),
        ensures
            r@ == joined(self@, other@),
    {
        let head = drop_last_char(self.content.as_str());
        if self.linetype == other.linetype {
            Line {
                content: head.concat(other.content.as_str()),
                linetype: self.linetype,
                linenumber: self.linenumber,
            }
        } else {
            Line { content: head, linetype: self.linetype, linenumber: self.linenumber }
        }
    }

    /// This line with its content trimmed.
    pub fn trim(&self) -> (r: Self)
        ensures
            r@ == trimmed_line(self@),
    {
        Line {
            content: trim_text(self.content.as_str()),
            linetype: self.linetype,
            linenumber: self.linenumber,
        }
    }

    /// Whether this line continues on the next one.
    pub fn is_to_join(&self) -> (r: bool)
        ensures
            r == continues(self@),
    {
        ends_with_char(self.content.as_str(), '\\')
    }
}

/// The lines of a text, classified and numbered, without blank and comment lines.
pub fn load_to_lines(content: &str) -> (r: Vec<Line>)
    requires
        text_lines(content@).len() <= u32::MAX,
    ensures
        lines_view(r@) == classified_lines(content@),
{
    let physical = text_lines_of(content);
    let ghost ls = text_lines(content@);
    let mut lines: Vec<Line> = Vec::new();
    let mut linenumber: u32 = 0;
    let mut i: usize = 0;
    while i < physical.len()
        invariant
            physical@.len() == ls.len(),
            ls.len() <= u32::MAX,
            forall|j: int| 0 <= j < ls.len() ==> #[trigger] physical@[j]@ == ls[j],
            i <= physical@.len(),
            linenumber == i,
            lines_view(lines@) == kept_lines(ls, i as nat),
        decreases physical.len() - i,
    {
        linenumber = linenumber + 1;
        let current_line = Line::from_str(physical[i].as_str(), linenumber);
        if current_line.linetype != LineType::Other {
            lines.push(current_line);
        }
        i = i + 1;
        assert(lines_view(lines@) =~= kept_lines(ls, i as nat));
    }
    lines
}

/// The logical lines of a sequence of classified lines: each trimmed, and each
/// line that ends in a backslash joined with the lines that follow it.
pub fn join_lines(lines: Vec<Line>) -> (r: Vec<Line>)
    ensures
        lines_view(r@) == joined_lines(lines_view(lines@)),
{
    let ghost ls = lines_view(lines@);
    let mut joined: Vec<Line> = Vec::new();
    if lines.len() == 0 {
        assert(lines_view(joined@) =~= joined_lines(ls));
        return joined;
    }
    let mut prev = lines[0].trim();
    let mut i: usize = 1;
    while i < lines.len()
        invariant
            ls == lines_view(lines@),
            1 <= i <= lines@.len(),
            (lines_view(joined@), prev@) == join_state(ls, i as nat),
        decreases lines.len() - i,
    {
        let line = lines[i].trim();
        if !prev.is_to_join() {
            joined.push(prev);
            prev = line;
        } else {
            prev = prev.join_line(&line);
        }
        i = i + 1;
        assert(lines_view(joined@) =~= join_state(ls, i as nat).0);
    }
    joined.push(prev);
    assert(lines_view(joined@) =~= joined_lines(ls));
    joined
}

} // verus!
