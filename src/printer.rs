//! The tally of what was printed, and the summary line made from it.

use vstd::prelude::*;

use crate::path::chars_of;

verus! {

pub open spec fn digits() -> Seq<char> {
    seq!['0', '1', '2', '3', '4', '5', '6', '7', '8', '9']
}

/// The decimal digits of `n`.
pub open spec fn decimal(n: nat) -> Seq<char>
    decreases n,
{
    if n < 10 {
        seq![digits()[n as int]]
    } else {
        decimal(n / 10).push(digits()[(n % 10) as int])
    }
}

/// `word`, with an `s` unless there is exactly one.
pub open spec fn counted(n: nat, word: Seq<char>) -> Seq<char> {
    decimal(n) + seq![' '] + word + if n == 1 {
        Seq::empty()
    } else {
        seq!['s']
    }
}

/// The summary line for `files` files of `lines` lines in all, of which
/// `unreadable` could not be read.
pub open spec fn summary_line(files: nat, lines: nat, unreadable: nat) -> Seq<char> {
    "── Summary: "@ + counted(files, "file"@) + ", "@ + counted(lines, "line"@) + if unreadable
        > 0 {
        ", "@ + decimal(unreadable) + " unreadable skipped"@
    } else {
        Seq::empty()
    }
}

/// The number of `\n` in `s`.
pub open spec fn newlines(s: Seq<char>) -> nat
    decreases s.len(),
{
    if s.len() == 0 {
        0
    } else {
        newlines(s.drop_last()) + if s.last() == '\n' {
            1nat
        } else {
            0nat
        }
    }
}

/// How many lines `str::lines` finds in `s`: one per line ending, and one
/// more for a last line without an ending.
pub open spec fn line_count(s: Seq<char>) -> nat {
    newlines(s) + if s.len() > 0 && s.last() != '\n' {
        1nat
    } else {
        0nat
    }
}

/// Relies on `String`'s `FromIterator<char>`: the string of these
/// characters.
#[verifier::external_body]
fn collect_string(v: &Vec<char>) -> (r: String)
    ensures
        r@ == v@,
{
    v.iter().collect()
}

fn digit(d: usize) -> (r: char)
    requires
        d < 10,
    ensures
        r == digits()[d as int],
{
    match d {
        0 => '0',
        1 => '1',
        2 => '2',
        3 => '3',
        4 => '4',
        5 => '5',
        6 => '6',
        7 => '7',
        8 => '8',
        _ => '9',
    }
}

fn push_decimal(out: &mut Vec<char>, n: usize)
    ensures
        final(out)@ == old(out)@ + decimal(n as nat),
    decreases n,
{
    if n >= 10 {
        push_decimal(out, n / 10);
    }
    out.push(digit(n % 10));
}

fn push_str(out: &mut Vec<char>, s: &str)
    ensures
        final(out)@ == old(out)@ + s@,
{
    let cs = chars_of(s);
    let mut i: usize = 0;
    let ghost start = out@;
    while i < cs.len()
        invariant
            i <= cs.len(),
            cs@ == s@,
            out@ == start + cs@.take(i as int),
        decreases cs.len() - i,
    {
        out.push(cs[i]);
        assert(cs@.take(i + 1) == cs@.take(i as int).push(cs@[i as int]));
        i = i + 1;
    }
    assert(cs@.take(i as int) == cs@);
}

fn push_counted(out: &mut Vec<char>, n: usize, word: &str)
    ensures
        final(out)@ == old(out)@ + counted(n as nat, word@),
{
    let ghost start = out@;
    push_decimal(out, n);
    out.push(' ');
    push_str(out, word);
    if n != 1 {
        out.push('s');
        assert(out@ == start + counted(n as nat, word@));
    } else {
        assert(out@ == start + counted(n as nat, word@));
    }
}

/// Counts of the files printed, their lines, and the files that could not
/// be read.
pub struct Printer {
    file_count: usize,
    line_count: usize,
    skipped_unreadable: usize,
}

impl Printer {
    pub closed spec fn files(&self) -> nat {
        self.file_count as nat
    }

    pub closed spec fn lines(&self) -> nat {
        self.line_count as nat
    }

    pub closed spec fn unreadable(&self) -> nat {
        self.skipped_unreadable as nat
    }

    /// A tally with nothing counted yet.
    pub fn new(_summary: bool) -> (r: Printer)
        ensures
            r.files() == 0,
            r.lines() == 0,
            r.unreadable() == 0,
    {
        Printer { file_count: 0, line_count: 0, skipped_unreadable: 0 }
    }

    /// Counts a printed file, with its lines where they are known.
    pub fn record_printed(&mut self, lines: Option<usize>)
        requires
            old(self).files() < usize::MAX,
            lines matches Some(n) ==> old(self).lines() + n <= usize::MAX,
        ensures
            final(self).files() == old(self).files() + 1,
            final(self).lines() == old(self).lines() + match lines {
                Some(n) => n as nat,
                None => 0nat,
            },
            final(self).unreadable() == old(self).unreadable(),
    {
        self.file_count = self.file_count + 1;
        if let Some(n) = lines {
            self.line_count = self.line_count + n;
        }
    }

    /// Counts a file that could not be read.
    pub fn record_unreadable(&mut self)
        requires
            old(self).unreadable() < usize::MAX,
        ensures
            final(self).files() == old(self).files(),
            final(self).lines() == old(self).lines(),
            final(self).unreadable() == old(self).unreadable() + 1,
    {
        self.skipped_unreadable = self.skipped_unreadable + 1;
    }

    pub fn file_count(&self) -> (r: usize)
        ensures
            r == self.files(),
    {
        self.file_count
    }

    pub fn line_count(&self) -> (r: usize)
        ensures
            r == self.lines(),
    {
        self.line_count
    }

    pub fn skipped_unreadable(&self) -> (r: usize)
        ensures
            r == self.unreadable(),
    {
        self.skipped_unreadable
    }

    /// The summary line, such as `── Summary: 2 files, 1 line`.
    pub fn summary(&self) -> (r: String)
        ensures
            r@ == summary_line(self.files(), self.lines(), self.unreadable()),
    {
        let mut out: Vec<char> = Vec::new();
        push_str(&mut out, "── Summary: ");
        push_counted(&mut out, self.file_count, "file");
        push_str(&mut out, ", ");
        push_counted(&mut out, self.line_count, "line");
        if self.skipped_unreadable > 0 {
            push_str(&mut out, ", ");
            push_decimal(&mut out, self.skipped_unreadable);
            push_str(&mut out, " unreadable skipped");
        }
        collect_string(&out)
    }
}

/// The number of lines in `content`, as `str::lines` counts them.
pub fn count_lines(content: &str) -> (r: usize)
    ensures
        r == line_count(content@),
{
    let cs = chars_of(content);
    let mut n: usize = 0;
    let mut i: usize = 0;
    while i < cs.len()
        invariant
            i <= cs.len(),
            n == newlines(cs@.take(i as int)),
            n <= i,
            i > 0 && cs@[i - 1] != '\n' ==> n < i,
        decreases cs.len() - i,
    {
        assert(cs@.take(i + 1).drop_last() == cs@.take(i as int));
        if cs[i] == '\n' {
            n = n + 1;
        }
        i = i + 1;
    }
    assert(cs@.take(i as int) == cs@);
    if cs.len() > 0 && cs[cs.len() - 1] != '\n' {
        n + 1
    } else {
        n
    }
}

} // verus!
