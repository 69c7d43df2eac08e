//! Positions in source text.
use std::sync::Arc;
use vstd::prelude::*;

verus! {

/// A single location in source text: 1-based line and column, 0-based character offset.
#[derive(Debug, Clone, Copy, PartialEq, Eq, Structural, Hash, Default)]
pub struct Position {
    pub line: usize,
    pub column: usize,
    pub offset: usize,
}

/// A range of source text from `start` to `end`, both inclusive.
#[derive(Debug, Clone, Copy, PartialEq, Eq, Structural, Hash, Default)]
pub struct PositionRange {
    pub start: Position,
    pub end: Position,
}

impl PositionRange {
    /// The range that covers both `self` and `other`, from the start of `self` to the end of `other`.
    pub fn span_to(&self, other: &PositionRange) -> (r: PositionRange)
        ensures
            r.start == self.start,
            r.end == other.end,
    {
        PositionRange { start: self.start, end: other.end }
    }
}

/// A named source text.
#[derive(Debug, PartialEq, Eq, Hash, Clone)]
pub struct Source {
    /// The name of the source, e.g. a file name.
    pub name: String,
    /// The characters of the text.
    pub text: Vec<char>,
}

/// A range of a source text, together with that text.
#[derive(Debug, PartialEq, Eq, Hash, Clone)]
pub struct SourcePositionRange {
    /// The source text.
    pub source: Arc<Source>,
    /// The range in the source text.
    pub position: PositionRange,
}

/// Relies on `str::chars`: the characters of `s`, in order.
#[verifier::external_body]
fn chars_of(s: &str) -> (r: Vec<char>)
    ensures
        r@ == s@,
{
    s.chars().collect()
}

/// Relies on `String`'s `FromIterator<&char>`: the string of the given characters, in order.
#[verifier::external_body]
fn string_of(chars: &[char]) -> (r: String)
    ensures
        r@ == chars@,
{
    chars.iter().collect()
}

/// `line` without a carriage return at its end.
pub open spec fn strip_cr(line: Seq<char>) -> Seq<char> {
    if line.len() > 0 && line.last() == '\r' {
        line.drop_last()
    } else {
        line
    }
}

/// Reading `text` up to its end: the lines ended so far, each without its `\n` or `\r\n`, and the
/// characters of the line not yet ended.
pub open spec fn line_state(text: Seq<char>) -> (Seq<Seq<char>>, Seq<char>)
    decreases text.len(),
{
    if text.len() == 0 {
        (Seq::empty(), Seq::empty())
    } else {
        let (done, current) = line_state(text.drop_last());
        if text.last() == '\n' {
            (done.push(strip_cr(current)), Seq::empty())
        } else {
            (done, current.push(text.last()))
        }
    }
}

/// The lines of `text`: split at `\n` or `\r\n`, which are left out; a line ending at the end of
/// the text starts no further line.
pub open spec fn lines_of(text: Seq<char>) -> Seq<Seq<char>> {
    let (done, current) = line_state(text);
    if current.len() == 0 {
        done
    } else {
        done.push(current)
    }
}

/// The lines joined with `\n` between each two.
pub open spec fn join_lines(lines: Seq<Seq<char>>) -> Seq<char>
    decreases lines.len(),
{
    if lines.len() == 0 {
        Seq::empty()
    } else if lines.len() == 1 {
        lines[0]
    } else {
        join_lines(lines.drop_last()) + seq!['\n'] + lines.last()
    }
}

/// The text of a position: its line and column, separated by `:`.
pub open spec fn position_text(p: Position) -> Seq<char> {
    decimal(p.line as nat) + seq![':'] + decimal(p.column as nat)
}

impl Source {
    /// A source named `name` with the characters of `text`.
    pub fn new(name: String, text: String) -> (r: Source)
        ensures
            r.name == name,
            r.text@ == text@,
    {
        let text = chars_of(text.as_str());
        Source { name, text }
    }
}

impl Position {
    /// `line:column`
    pub fn to_string(&self) -> (r: String)
        ensures
            r@ == position_text(*self),
    {
        let mut r = String::new();
        append_decimal(&mut r, self.line);
        r.append(":");
        append_decimal(&mut r, self.column);
        proof {
            reveal_strlit(":");
        }
        assert(r@ =~= position_text(*self));
        r
    }
}

impl SourcePositionRange {
    /// The lines of the source that this range spans, joined with `\n`.
    pub fn get_affected_lines(&self) -> (r: String)
        requires
            1 <= self.position.start.line,
            1 <= self.position.end.line,
            self.position.start.line <= self.position.end.line + 1,
            self.position.end.line <= lines_of(self.source.text@).len(),
        ensures
            r@ == join_lines(
                lines_of(self.source.text@).subrange(
                    self.position.start.line - 1,
                    self.position.end.line as int,
                ),
            ),
    {
        let text = &self.source.text;
        let mut lines: Vec<Vec<char>> = Vec::new();
        let mut current: Vec<char> = Vec::new();
        let mut i: usize = 0;
        while i < text.len()
            invariant
                i <= text@.len(),
                lines@.map_values(|l: Vec<char>| l@) == line_state(text@.subrange(0, i as int)).0,
                current@ == line_state(text@.subrange(0, i as int)).1,
            decreases text@.len() - i,
        {
            proof {
                assert(text@.subrange(0, i + 1).drop_last() =~= text@.subrange(0, i as int));
            }
            let c = text[i];
            if c == '\n' {
                let n = current.len();
                if n > 0 && current[n - 1] == '\r' {
                    current.pop();
                }
                lines.push(current);
                current = Vec::new();
                assert(lines@.map_values(|l: Vec<char>| l@) =~= line_state(text@.subrange(0, i + 1)).0);
            } else {
                current.push(c);
                assert(lines@.map_values(|l: Vec<char>| l@) =~= line_state(text@.subrange(0, i + 1)).0);
            }
            i = i + 1;
        }
        proof {
            assert(text@.subrange(0, i as int) =~= text@);
        }
        if current.len() > 0 {
            lines.push(current);
        }
        let ghost all = lines_of(text@);
        assert(lines@.map_values(|l: Vec<char>| l@) =~= all);
        let first = self.position.start.line - 1;
        let last = self.position.end.line;
        let mut joined: Vec<char> = Vec::new();
        let mut k: usize = first;
        while k < last
            invariant
                first <= k <= last,
                last <= lines@.len(),
                lines@.map_values(|l: Vec<char>| l@) == all,
                joined@ == join_lines(all.subrange(first as int, k as int)),
            decreases last - k,
        {
            proof {
                assert(all.subrange(first as int, k + 1).drop_last() =~= all.subrange(first as int, k as int));
            }
            if k > first {
                joined.push('\n');
            }
            let line = &lines[k];
            let mut m: usize = 0;
            let ghost before = joined@;
            while m < line.len()
                invariant
                    m <= line@.len(),
                    joined@ == before + line@.subrange(0, m as int),
                decreases line@.len() - m,
            {
                joined.push(line[m]);
                assert(joined@ =~= before + line@.subrange(0, m + 1));
                m = m + 1;
            }
            assert(line@ == all[k as int]);
            assert(joined@ =~= join_lines(all.subrange(first as int, k + 1)));
            k = k + 1;
        }
        string_of(joined.as_slice())
    }

    /// The text that this range spans, from the start offset to the end offset, both included.
    pub fn get_affected_code(&self) -> (r: String)
        requires
            self.position.start.offset <= self.position.end.offset + 1,
            self.position.end.offset < self.source.text@.len(),
        ensures
            r@ == self.source.text@.subrange(
                self.position.start.offset as int,
                self.position.end.offset + 1,
            ),
    {
        let text = &self.source.text;
        let mut code: Vec<char> = Vec::new();
        let mut i: usize = self.position.start.offset;
        let end = self.position.end.offset;
        while i <= end
            invariant
                self.position.start.offset <= i <= end + 1,
                end < text.len(),
                code@ == text@.subrange(self.position.start.offset as int, i as int),
            decreases end + 1 - i,
        {
            code.push(text[i]);
            i = i + 1;
        }
        string_of(code.as_slice())
    }

    /// The name of the source and the start of the range: `name:line:column`.
    pub fn to_string(&self) -> (r: String)
        ensures
            r@ == self.source.name@ + seq![':'] + position_text(self.position.start),
    {
        let mut r = self.source.name.clone();
        r.append(":");
        let start = self.position.start.to_string();
        r.append(start.as_str());
        proof {
            reveal_strlit(":");
        }
        assert(r@ =~= self.source.name@ + seq![':'] + position_text(self.position.start));
        r
    }
}

/// The character of a decimal digit.
pub open spec fn digit_char(d: nat) -> char {
    if d == 0 {
        '0'
    } else if d == 1 {
        '1'
    } else if d == 2 {
        '2'
    } else if d == 3 {
        '3'
    } else if d == 4 {
        '4'
    } else if d == 5 {
        '5'
    } else if d == 6 {
        '6'
    } else if d == 7 {
        '7'
    } else if d == 8 {
        '8'
    } else {
        '9'
    }
}

/// The decimal digits of `n`, most significant first, without leading zeros.
pub open spec fn decimal(n: nat) -> Seq<char>
    decreases n,
{
    if n < 10 {
        seq![digit_char(n)]
    } else {
        decimal(n / 10).push(digit_char(n % 10))
    }
}

/// The one-character string of decimal digit `d`.
fn digit_str(d: usize) -> (r: &'static str)
    requires
        d < 10,
    ensures
        r@ == seq![digit_char(d as nat)],
{
    proof {
        reveal_strlit("0");
        reveal_strlit("1");
        reveal_strlit("2");
        reveal_strlit("3");
        reveal_strlit("4");
        reveal_strlit("5");
        reveal_strlit("6");
        reveal_strlit("7");
        reveal_strlit("8");
        reveal_strlit("9");
    }
    match d {
        0 => "0",
        1 => "1",
        2 => "2",
        3 => "3",
        4 => "4",
        5 => "5",
        6 => "6",
        7 => "7",
        8 => "8",
        _ => "9",
    }
}

/// Appends the decimal digits of `n` to `s`.
pub(crate) fn append_decimal(s: &mut String, n: usize)
    ensures
        final(s)@ == old(s)@ + decimal(n as nat),
    decreases n,
{
    if n >= 10 {
        append_decimal(s, n / 10);
    }
    s.append(digit_str(n % 10));
    proof {
        if n >= 10 {
            assert(decimal(n as nat) == decimal((n / 10) as nat).push(digit_char((n % 10) as nat)));
        }
    }
    assert(final(s)@ =~= old(s)@ + decimal(n as nat));
}

} // verus!
