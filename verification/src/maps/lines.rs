//! The text of a memory map as a whole: its lines, and the regions that
//! they describe together.

use vstd::prelude::*;

use crate::error::ParseError;
use crate::maps::grammar::line_region;
use crate::maps::scanner::read_line;
use crate::memory_region::{region_views, MemoryRegion, RegionView};
use crate::text::chars_of;

verus! {

/// The first place at or after `i` that holds a line feed; the end of `s`
/// where none follows.
pub open spec fn line_break(s: Seq<char>, i: int) -> int
    decreases s.len() - i,
{
    if 0 <= i < s.len() && s[i] != '\n' {
        line_break(s, i + 1)
    } else {
        i
    }
}

/// The lines of `text`: each ends before a line feed, the last one also at
/// the end of the text. A text that ends in a line feed has no empty line
/// behind it, and the empty text has no line.
pub open spec fn text_lines(text: Seq<char>) -> Seq<Seq<char>>
    decreases text.len(),
{
    if text.len() == 0 {
        Seq::empty()
    } else {
        let n = line_break(text, 0);
        let rest = if 0 <= n < text.len() {
            text.skip(n + 1)
        } else {
            Seq::empty()
        };
        seq![text.take(n)] + text_lines(rest)
    }
}

/// Whether `k` is the first line of `lines` that is no record.
pub open spec fn first_malformed(lines: Seq<Seq<char>>, k: int) -> bool {
    &&& 0 <= k < lines.len()
    &&& line_region(lines[k]) is None
    &&& forall|j: int| 0 <= j < k ==> (#[trigger] line_region(lines[j])) is Some
}

/// Whether `regions` are what `lines` describe, line by line.
pub open spec fn regions_of_lines(lines: Seq<Seq<char>>, regions: Seq<RegionView>) -> bool {
    &&& regions.len() == lines.len()
    &&& forall|i: int| 0 <= i < lines.len() ==> line_region(#[trigger] lines[i]) == Some(regions[i])
}

/// What `lines` describe: the region of each line, in the order of the
/// lines, unless one of them is no record; then the first such line is
/// named and no region is kept.
pub open spec fn lines_regions(lines: Seq<Seq<char>>) -> Result<Seq<RegionView>, ParseError> {
    if exists|k: int| first_malformed(lines, k) {
        Err(ParseError::MalformedLine { line: (choose|k: int| first_malformed(lines, k)) as usize })
    } else {
        Ok(lines.map_values(|line: Seq<char>| line_region(line)->0))
    }
}

/// What the text of a memory map describes.
pub open spec fn text_regions(text: Seq<char>) -> Result<Seq<RegionView>, ParseError> {
    lines_regions(text_lines(text))
}

/// What reading the memory map of a process gave.
#[derive(Debug, PartialEq, Eq)]
pub enum MapsRead {
    /// The map could not be read.
    Failed,
    /// The text of the map.
    Text(String),
}

/// What `maps` describes: the regions of its text, or why there are none.
/// A map that could not be read describes nothing.
pub open spec fn maps_regions(maps: MapsRead) -> Result<Seq<RegionView>, ParseError> {
    match maps {
        MapsRead::Failed => Err(ParseError::IoFailure),
        MapsRead::Text(text) => text_regions(text@),
    }
}

/// The text that holds `lines` one after the other, a line feed behind
/// each.
pub open spec fn joined(lines: Seq<Seq<char>>) -> Seq<char>
    decreases lines.len(),
{
    if lines.len() == 0 {
        Seq::empty()
    } else {
        lines.first() + seq!['\n'] + joined(lines.drop_first())
    }
}

/// Only one line is the first that is no record.
pub proof fn lemma_first_malformed_is_unique(lines: Seq<Seq<char>>, i: int, j: int)
    requires
        first_malformed(lines, i),
        first_malformed(lines, j),
    ensures
        i == j,
{
    if i < j {
        assert(line_region(lines[i]) is Some);
    }
    if j < i {
        assert(line_region(lines[j]) is Some);
    }
}

/// The first line that is no record fails the lines, whatever follows it.
pub proof fn lemma_first_malformed_fails(lines: Seq<Seq<char>>, k: int)
    requires
        first_malformed(lines, k),
    ensures
        lines_regions(lines) == Err::<Seq<RegionView>, ParseError>(
            ParseError::MalformedLine { line: k as usize },
        ),
{
    let chosen = choose|k: int| first_malformed(lines, k);
    lemma_first_malformed_is_unique(lines, k, chosen);
}

/// Lines that are all records describe as many regions, in their order.
pub proof fn lemma_records_give_regions(lines: Seq<Seq<char>>, regions: Seq<RegionView>)
    requires
        regions_of_lines(lines, regions),
    ensures
        lines_regions(lines) == Ok::<Seq<RegionView>, ParseError>(regions),
{
    assert forall|k: int| !first_malformed(lines, k) by {
        if 0 <= k < lines.len() {
            assert(line_region(lines[k]) == Some(regions[k]));
        }
    }
    let described = lines.map_values(|line: Seq<char>| line_region(line)->0);
    assert(described =~= regions) by {
        assert forall|i: int| 0 <= i < lines.len() implies described[i] == regions[i] by {
            assert(line_region(lines[i]) == Some(regions[i]));
        }
    }
}

/// A line without a line feed breaks where it ends, whatever follows the
/// line feed behind it.
proof fn lemma_line_break_of_line(line: Seq<char>, rest: Seq<char>, i: int)
    requires
        0 <= i <= line.len(),
        forall|j: int| 0 <= j < line.len() ==> line[j] != '\n',
    ensures
        line_break(line + seq!['\n'] + rest, i) == line.len(),
    decreases line.len() - i,
{
    let text = line + seq!['\n'] + rest;
    if i < line.len() {
        assert(text[i] == line[i]);
        lemma_line_break_of_line(line, rest, i + 1);
    } else {
        assert(text[i] == '\n');
    }
}

/// A text is read back line by line: the lines of the text that holds
/// `lines`, a line feed behind each, are `lines`, as many and in the same
/// order.
pub proof fn lemma_lines_of_joined(lines: Seq<Seq<char>>)
    requires
        forall|i: int, j: int|
            0 <= i < lines.len() && 0 <= j < lines[i].len() ==> (#[trigger] lines[i][j]) != '\n',
    ensures
        text_lines(joined(lines)) == lines,
    decreases lines.len(),
{
    if lines.len() > 0 {
        let line = lines.first();
        let rest = joined(lines.drop_first());
        let text = joined(lines);
        assert forall|j: int| 0 <= j < line.len() implies line[j] != '\n' by {
            assert(lines[0][j] != '\n');
        }
        lemma_line_break_of_line(line, rest, 0);
        assert(text.take(line.len() as int) == line);
        assert(text.skip(line.len() as int + 1) == rest);
        assert forall|i: int, j: int|
            0 <= i < lines.drop_first().len() && 0 <= j < lines.drop_first()[i].len() implies (
        #[trigger] lines.drop_first()[i][j]) != '\n' by {
            assert(lines[i + 1][j] != '\n');
        }
        lemma_lines_of_joined(lines.drop_first());
        assert(seq![line] + lines.drop_first() == lines);
    }
}

/// A text of N records describes N regions, in the order of its lines: the
/// text that holds `lines`, a line feed behind each, describes `regions`
/// where each line is a record and describes the region in its place.
pub proof fn lemma_text_of_records(lines: Seq<Seq<char>>, regions: Seq<RegionView>)
    requires
        forall|i: int, j: int|
            0 <= i < lines.len() && 0 <= j < lines[i].len() ==> (#[trigger] lines[i][j]) != '\n',
        regions_of_lines(lines, regions),
    ensures
        text_regions(joined(lines)) == Ok::<Seq<RegionView>, ParseError>(regions),
        regions.len() == lines.len(),
{
    lemma_lines_of_joined(lines);
    lemma_records_give_regions(lines, regions);
}

/// A line break found in the rest of a text is the same break in the text.
proof fn lemma_line_break_skip(s: Seq<char>, from: int, i: int)
    requires
        0 <= from <= s.len(),
        0 <= i,
    ensures
        line_break(s.skip(from), i) + from == line_break(s, from + i),
    decreases s.len() - from - i,
{
    if i < s.len() - from && s[from + i] != '\n' {
        assert(s.skip(from)[i] == s[from + i]);
        lemma_line_break_skip(s, from, i + 1);
    }
}

/// The place of the first line feed at or after `from`.
fn line_break_from(chars: &Vec<char>, from: usize) -> (at: usize)
    requires
        from <= chars@.len(),
    ensures
        at == line_break(chars@, from as int),
        from <= at <= chars@.len(),
{
    let mut i: usize = from;
    while i < chars.len() && chars[i] != '\n'
        invariant
            from <= i <= chars@.len(),
            line_break(chars@, from as int) == line_break(chars@, i as int),
        decreases chars@.len() - i,
    {
        i = i + 1;
    }
    i
}

/// The characters of `chars` from `from` up to `to`.
fn copy_range(chars: &Vec<char>, from: usize, to: usize) -> (part: Vec<char>)
    requires
        from <= to <= chars@.len(),
    ensures
        part@ == chars@.subrange(from as int, to as int),
{
    let mut part: Vec<char> = Vec::new();
    let mut i: usize = from;
    while i < to
        invariant
            from <= i <= to <= chars@.len(),
            part@ == chars@.subrange(from as int, i as int),
        decreases to - i,
    {
        part.push(chars[i]);
        i = i + 1;
    }
    part
}

/// Reads the text of a memory map: one region for each line, in the order
/// of the lines. One line that is no record fails the whole text; the
/// error names the first such line.
pub fn parse_text(text: &str) -> (parsed: Result<Vec<MemoryRegion>, ParseError>)
    ensures
        match text_regions(text@) {
            Ok(described) => parsed matches Ok(regions) && region_views(regions@) == described,
            Err(e) => parsed == Err::<Vec<MemoryRegion>, ParseError>(e),
        },
{
    let chars = chars_of(text);
    let n: usize = chars.len();
    let mut regions: Vec<MemoryRegion> = Vec::new();
    let mut at: usize = 0;
    let ghost mut done: Seq<Seq<char>> = Seq::empty();
    proof {
        assert(text@.skip(0) == text@);
        assert(done + text_lines(text@) == text_lines(text@));
    }
    while at < n
        invariant
            chars@ == text@,
            n == chars@.len(),
            at <= n,
            text_lines(text@) == done + text_lines(text@.skip(at as int)),
            regions_of_lines(done, region_views(regions@)),
        decreases n - at,
    {
        let ghost rest = text@.skip(at as int);
        let end = line_break_from(&chars, at);
        let line = copy_range(&chars, at, end);
        let next: usize = if end < n {
            end + 1
        } else {
            end
        };
        proof {
            lemma_line_break_skip(text@, at as int, 0);
            assert(line@ == rest.take(end - at));
            if end < n {
                assert(rest.skip(end - at + 1) == text@.skip(next as int));
            } else {
                assert(text@.skip(next as int) == Seq::<char>::empty());
            }
            assert(text_lines(rest) == seq![line@] + text_lines(text@.skip(next as int)));
            assert(done + text_lines(rest) == done.push(line@) + text_lines(
                text@.skip(next as int),
            ));
        }
        match read_line(&line) {
            None => {
                proof {
                    let lines = text_lines(text@);
                    let k = done.len() as int;
                    assert(lines[k] == line@);
                    assert forall|j: int| 0 <= j < k implies (#[trigger] line_region(
                        lines[j],
                    )) is Some by {
                        assert(lines[j] == done[j]);
                    }
                    lemma_first_malformed_fails(lines, k);
                }
                return Err(ParseError::MalformedLine { line: regions.len() });
            },
            Some(region) => {
                let ghost before = region_views(regions@);
                regions.push(region);
                proof {
                    let after = region_views(regions@);
                    let lines = done.push(line@);
                    assert forall|i: int| 0 <= i < lines.len() implies line_region(
                        #[trigger] lines[i],
                    ) == Some(after[i]) by {
                        if i < done.len() {
                            assert(lines[i] == done[i]);
                            assert(after[i] == before[i]);
                        }
                    }
                    done = lines;
                }
            },
        }
        at = next;
    }
    proof {
        assert(text_lines(text@.skip(at as int)) == Seq::<Seq<char>>::empty());
        assert(done + Seq::<Seq<char>>::empty() == done);
        lemma_records_give_regions(done, region_views(regions@));
    }
    Ok(regions)
}

} // verus!
