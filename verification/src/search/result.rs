//! What a search reports: lines, entries of neighbouring lines, and the
//! entries of one file.

use vstd::prelude::*;
use std::path::PathBuf;
use crate::search::pattern::{find_all, occurrences, valid_spans, CompiledMatcher};

verus! {

/// `std::path::PathBuf`: the path of a searched file, carried from the
/// walker to the consumer.
#[verifier::external_type_specification]
#[verifier::external_body]
pub struct ExPathBuf(PathBuf);

/// One reported line of a file.
pub struct SearchResultLine {
    /// The number of the line in its file, counted from one.
    pub line_number: u64,
    /// The raw bytes of the line.
    pub bytes: Vec<u8>,
    /// The occurrences of the pattern in `bytes`, as (start, end) offsets.
    /// A line without occurrences is shown as context.
    pub matches: Vec<(usize, usize)>,
}

/// The mathematical content of a [`SearchResultLine`].
pub struct LineView {
    pub line_number: u64,
    pub bytes: Seq<u8>,
    pub matches: Seq<(usize, usize)>,
}

impl View for SearchResultLine {
    type V = LineView;

    open spec fn view(&self) -> LineView {
        LineView { line_number: self.line_number, bytes: self.bytes@, matches: self.matches@ }
    }
}

impl LineView {
    /// The occurrences are valid spans of the line's bytes.
    pub open spec fn wf(self) -> bool {
        valid_spans(self.bytes.len(), self.matches)
    }
}

impl SearchResultLine {
    /// Whether the line holds an occurrence of the pattern.
    pub fn is_matched(&self) -> (matched: bool)
        ensures
            matched == (self@.matches.len() > 0),
    {
        !self.matches.is_empty()
    }
}

/// A match and the lines around it: the group of lines between two context
/// breaks.
pub struct SearchResultEntry {
    /// The number of the matched line that was added last.
    pub matched_line_number: u64,
    /// The lines of the group, in the order in which they were reported.
    pub lines: Vec<SearchResultLine>,
}

/// The mathematical content of a [`SearchResultEntry`].
pub struct EntryView {
    pub matched_line_number: u64,
    pub lines: Seq<LineView>,
}

/// The views of a sequence of lines.
pub open spec fn line_views(lines: Seq<SearchResultLine>) -> Seq<LineView> {
    lines.map_values(|line: SearchResultLine| line@)
}

/// The views of a sequence of entries.
pub open spec fn entry_views(entries: Seq<SearchResultEntry>) -> Seq<EntryView> {
    entries.map_values(|entry: SearchResultEntry| entry@)
}

impl View for SearchResultEntry {
    type V = EntryView;

    open spec fn view(&self) -> EntryView {
        EntryView {
            matched_line_number: self.matched_line_number,
            lines: line_views(self.lines@),
        }
    }
}

impl EntryView {
    /// The entry without lines that a builder starts from.
    pub open spec fn empty() -> EntryView {
        EntryView { matched_line_number: 0, lines: Seq::empty() }
    }

    /// The entry with one more matched line at its end.
    pub open spec fn with_match(
        self,
        line_number: u64,
        bytes: Seq<u8>,
        matches: Seq<(usize, usize)>,
    ) -> EntryView {
        EntryView {
            matched_line_number: line_number,
            lines: self.lines.push(LineView { line_number, bytes, matches }),
        }
    }

    /// The entry with one more context line at its end.
    pub open spec fn with_context(self, line_number: u64, bytes: Seq<u8>) -> EntryView {
        EntryView {
            matched_line_number: self.matched_line_number,
            lines: self.lines.push(LineView { line_number, bytes, matches: Seq::empty() }),
        }
    }

    /// Every line of the entry is well formed.
    pub open spec fn wf(self) -> bool {
        forall|i: int| 0 <= i < self.lines.len() ==> (#[trigger] self.lines[i]).wf()
    }
}

impl Default for SearchResultEntry {
    fn default() -> (entry: Self)
        ensures
            entry@ == EntryView::empty(),
    {
        let entry = SearchResultEntry { matched_line_number: 0, lines: Vec::new() };
        assert(entry@.lines =~= Seq::empty());
        entry
    }
}

/// The entry that is being filled, if any.
pub struct SearchResultEntryBuilder(Option<SearchResultEntry>);

/// The entry that a line is added to: the open one, or a fresh one.
pub open spec fn open_entry(current: Option<EntryView>) -> EntryView {
    match current {
        Some(entry) => entry,
        None => EntryView::empty(),
    }
}

impl View for SearchResultEntryBuilder {
    type V = Option<EntryView>;

    closed spec fn view(&self) -> Option<EntryView> {
        match self.0 {
            Some(entry) => Some(entry@),
            None => None,
        }
    }
}

impl SearchResultEntryBuilder {
    /// A builder with no open entry.
    pub fn new() -> (builder: Self)
        ensures
            builder@ is None,
    {
        SearchResultEntryBuilder(None)
    }

    /// Hands out the open entry and leaves the builder without one.
    pub fn take(&mut self) -> (entry: Option<SearchResultEntry>)
        ensures
            final(self)@ is None,
            match entry {
                Some(taken) => old(self)@ == Some(taken@),
                None => old(self)@ is None,
            },
    {
        self.0.take()
    }

    /// Adds a matched line whose occurrences are already known.
    pub fn push_match_line(
        &mut self,
        line_number: u64,
        bytes: Vec<u8>,
        matches: Vec<(usize, usize)>,
    )
        ensures
            final(self)@ == Some(open_entry(old(self)@).with_match(line_number, bytes@, matches@)),
    {
        let mut entry = match self.0.take() {
            Some(entry) => entry,
            None => SearchResultEntry::default(),
        };
        let ghost before = entry@;
        let line = SearchResultLine { line_number, bytes, matches };
        entry.matched_line_number = line_number;
        entry.lines.push(line);
        assert(entry@.lines =~= before.lines.push(line@));
        self.0 = Some(entry);
    }

    /// Adds a matched line, with every occurrence of the pattern of `matcher`
    /// in it.
    pub fn with_match_line(
        &mut self,
        matcher: &CompiledMatcher,
        line_number: u64,
        bytes: Vec<u8>,
    ) -> (builder: &mut Self)
        ensures
            builder@ == Some(
                open_entry(old(self)@).with_match(
                    line_number,
                    bytes@,
                    occurrences(matcher@, bytes@, 0),
                ),
            ),
            *final(self) == *final(builder),
    {
        let matches = find_all(matcher, bytes.as_slice());
        self.push_match_line(line_number, bytes, matches);
        self
    }

    /// Adds a context line.
    pub fn with_context(&mut self, line_number: u64, bytes: Vec<u8>) -> (builder: &mut Self)
        ensures
            builder@ == Some(open_entry(old(self)@).with_context(line_number, bytes@)),
            *final(self) == *final(builder),
    {
        let mut entry = match self.0.take() {
            Some(entry) => entry,
            None => SearchResultEntry::default(),
        };
        let ghost before = entry@;
        let line = SearchResultLine { line_number, bytes, matches: Vec::new() };
        entry.lines.push(line);
        assert(entry@.lines =~= before.lines.push(line@));
        self.0 = Some(entry);
        self
    }
}

/// The entries found in one file.
pub struct SearchResult {
    /// The file.
    pub path: PathBuf,
    /// Its entries, in the order in which they were closed.
    pub entries: Vec<SearchResultEntry>,
}

} // verus!
