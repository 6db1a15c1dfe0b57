//! The header of a template: `KEY: VALUE` lines, closed by a sentinel line.

use vstd::prelude::*;
use crate::errors::{HeaderFault, RegexError, SnippitError};
use crate::text::{contains, find_char, occurs_in, substring, to_chars};
use crate::variables::{entries_insert, Entry, VariableMap};

verus! {

/// The marker of the line that ends the header: six asterisks.
pub open spec fn sentinel() -> Seq<char> {
    seq!['*', '*', '*', '*', '*', '*']
}

/// `line` without a carriage return at its end.
pub open spec fn strip_cr(line: Seq<char>) -> Seq<char> {
    if line.len() > 0 && line.last() == '\r' {
        line.drop_last()
    } else {
        line
    }
}

/// The lines of `s`. A line ends at a line feed, or at a carriage return
/// followed by a line feed; neither is part of the line. What follows the
/// last line feed is a line of its own unless it is empty.
pub open spec fn split_lines(s: Seq<char>) -> Seq<Seq<char>>
    decreases s.len(),
{
    if s.len() == 0 {
        Seq::empty()
    } else {
        match s.index_of_first('\n') {
            Some(k) => {
                proof {
                    s.index_of_first_ensures('\n');
                }
                seq![strip_cr(s.take(k))] + split_lines(s.skip(k + 1))
            },
            None => seq![s],
        }
    }
}

/// What a header line says. A line that holds the sentinel says nothing.
/// Any other line names a variable: the name is what stands before the first
/// colon, the text is what follows the first space after that colon. Nothing
/// is trimmed from either.
pub open spec fn line_entry(line: Seq<char>) -> Result<Option<Entry>, HeaderFault> {
    if occurs_in(line, sentinel()) {
        Ok(None)
    } else {
        match line.index_of_first(':') {
            None => Err(HeaderFault::MissingKey),
            Some(colon) => {
                let rest = line.skip(colon + 1);
                match rest.index_of_first(' ') {
                    None => Err(HeaderFault::MissingValue),
                    Some(space) => Ok(Some((line.take(colon), rest.skip(space + 1)))),
                }
            },
        }
    }
}

/// The variables that `lines` define, taken from the first line to the last:
/// a name that comes again keeps its place and takes the later text. The
/// first line that is at fault decides the error.
pub open spec fn header_entries(lines: Seq<Seq<char>>) -> Result<Seq<Entry>, HeaderFault>
    decreases lines.len(),
{
    if lines.len() == 0 {
        Ok(Seq::empty())
    } else {
        match header_entries(lines.drop_last()) {
            Err(fault) => Err(fault),
            Ok(entries) => match line_entry(lines.last()) {
                Err(fault) => Err(fault),
                Ok(None) => Ok(entries),
                Ok(Some((key, value))) => Ok(entries_insert(entries, key, value)),
            },
        }
    }
}

/// Whether `vars` is what reading a header gives when its lines come to
/// `parsed`: the variables themselves, or the fault of the first line that
/// has one.
pub open spec fn reads_as(
    vars: Result<VariableMap, SnippitError>,
    parsed: Result<Seq<Entry>, HeaderFault>,
) -> bool {
    match parsed {
        Ok(entries) => vars matches Ok(map) && map@ == entries,
        Err(fault) => vars matches Err(SnippitError::Regex(e)) && e.fault == fault,
    }
}

/// One line of a header.
#[derive(Debug)]
pub enum HeaderLine {
    /// A line that holds the sentinel.
    Sentinel,
    /// A line that names a variable.
    Variable { key: String, value: String },
}

impl View for HeaderLine {
    type V = Option<Entry>;

    open spec fn view(&self) -> Option<Entry> {
        match self {
            HeaderLine::Sentinel => None,
            HeaderLine::Variable { key, value } => Some((key@, value@)),
        }
    }
}

/// The lines of `s`.
pub fn lines(s: &str) -> (out: Vec<String>)
    ensures
        out.deep_view() == split_lines(s@),
{
    let chars = to_chars(s);
    let n = chars.len();
    let mut out: Vec<String> = Vec::new();
    let mut pos: usize = 0;
    assert(s@.skip(0) == s@);
    assert(out.deep_view() + split_lines(s@) == split_lines(s@));
    while pos < n
        invariant
            pos <= n,
            n == s@.len(),
            chars@ == s@,
            out.deep_view() + split_lines(s@.skip(pos as int)) == split_lines(s@),
        decreases n - pos,
    {
        let ghost rest = s@.skip(pos as int);
        let ghost before = out.deep_view();
        let nl = find_char(&chars, '\n', pos);
        if nl == n {
            assert(split_lines(rest) == seq![rest]);
            let line = substring(s, pos, n - pos);
            assert(line@ == rest);
            out.push(line);
            assert(out.deep_view() == before.push(rest));
            assert(before.push(rest) == before + seq![rest]);
            pos = n;
            assert(split_lines(s@.skip(pos as int)) == Seq::<Seq<char>>::empty());
        } else {
            let end = if nl > pos && chars[nl - 1] == '\r' {
                nl - 1
            } else {
                nl
            };
            let ghost line = strip_cr(rest.take(nl - pos));
            assert(rest.take(nl - pos) == s@.subrange(pos as int, nl as int));
            assert(line == s@.subrange(pos as int, end as int));
            assert(rest.skip(nl - pos + 1) == s@.skip(nl + 1));
            assert(split_lines(rest) == seq![line] + split_lines(s@.skip(nl + 1)));
            let text = substring(s, pos, end - pos);
            assert(text@ == line);
            out.push(text);
            assert(out.deep_view() == before.push(line));
            assert(before.push(line) + split_lines(s@.skip(nl + 1)) == before + (seq![line]
                + split_lines(s@.skip(nl + 1))));
            pos = nl + 1;
        }
    }
    assert(split_lines(s@.skip(pos as int)) == Seq::<Seq<char>>::empty());
    out
}

/// Reads one line of a header.
pub fn parse_line(line: &str) -> (parsed: Result<HeaderLine, RegexError>)
    ensures
        match line_entry(line@) {
            Ok(entry) => parsed matches Ok(found) && found@ == entry,
            Err(fault) => parsed matches Err(e) && e.fault == fault,
        },
{
    proof {
        reveal_strlit("******");
    }
    assert("******"@ == sentinel());
    if contains(line, "******") {
        return Ok(HeaderLine::Sentinel);
    }
    let chars = to_chars(line);
    let n = chars.len();
    assert(line@.skip(0) == line@);
    let colon = find_char(&chars, ':', 0);
    if colon == n {
        return Err(RegexError { fault: HeaderFault::MissingKey });
    }
    let space = find_char(&chars, ' ', colon + 1);
    if space == n {
        return Err(RegexError { fault: HeaderFault::MissingValue });
    }
    let key = substring(line, 0, colon);
    let value = substring(line, space + 1, n - (space + 1));
    assert(line@.skip(colon + 1).skip(space - (colon + 1) + 1) == line@.subrange(
        space + 1,
        n as int,
    ));
    Ok(HeaderLine::Variable { key, value })
}

/// Reads the variables of a header. `string_to_read` is the header with its
/// sentinel line; a line that holds the sentinel defines nothing, and every
/// other line has to name a variable.
pub fn make_snippits(string_to_read: &str) -> (vars: Result<VariableMap, SnippitError>)
    ensures
        reads_as(vars, header_entries(split_lines(string_to_read@))),
{
    let all = lines(string_to_read);
    let ghost texts = split_lines(string_to_read@);
    let mut snip = VariableMap::new();
    let mut i: usize = 0;
    assert(texts.take(0) == Seq::<Seq<char>>::empty());
    while i < all.len()
        invariant
            i <= all@.len(),
            all.deep_view() == texts,
            texts == split_lines(string_to_read@),
            header_entries(texts.take(i as int)) == Ok::<Seq<Entry>, HeaderFault>(snip@),
        decreases all@.len() - i,
    {
        assert(texts.take(i + 1).drop_last() == texts.take(i as int));
        assert(texts.take(i + 1).last() == all@[i as int]@);
        match parse_line(all[i].as_str()) {
            Err(e) => {
                proof {
                    lemma_fault_stays(texts, i + 1);
                }
                return Err(SnippitError::Regex(e));
            },
            Ok(HeaderLine::Sentinel) => {},
            Ok(HeaderLine::Variable { key, value }) => {
                snip.insert(key, value);
            },
        }
        i += 1;
    }
    assert(texts.take(i as int) == texts);
    Ok(snip)
}

/// A fault among the first `n` lines is the fault of all the lines.
pub proof fn lemma_fault_stays(lines: Seq<Seq<char>>, n: int)
    requires
        0 <= n <= lines.len(),
        header_entries(lines.take(n)) is Err,
    ensures
        header_entries(lines) == header_entries(lines.take(n)),
    decreases lines.len() - n,
{
    if n < lines.len() {
        assert(lines.take(n + 1).drop_last() == lines.take(n));
        lemma_fault_stays(lines, n + 1);
    } else {
        assert(lines.take(n) == lines);
    }
}

} // verus!
