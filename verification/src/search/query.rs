//! One query of a search, and the worker that scans files for it.

use vstd::prelude::*;
use crate::search::pattern::{
    compile,
    compiles,
    escape,
    escaped,
    CompiledMatcher,
    MatcherOptions,
    PatternError,
    PatternView,
};
use crate::search::sink::{SearchSink, SinkView};

verus! {

/// The byte that marks a file as binary.
pub const BINARY_BYTE: u8 = 0;

/// The byte that ends a line.
pub const LINE_TERMINATOR: u8 = 10;

/// What a scan does with a byte that marks binary content.
#[derive(Clone, Copy, Debug, PartialEq, Eq, Structural)]
pub enum BinaryPolicy {
    /// Every byte is scanned.
    ScanAll,
    /// The byte is read as a line break and the scan goes on.
    Convert(u8),
    /// The scan stops at the byte, as if the file ended there.
    Quit(u8),
}

/// The binary policy for a file found `depth` levels below the root it
/// was found under: none where binary files are searched, conversion for a
/// file that was named as a root, and a stop for every other file.
pub open spec fn binary_policy_for(search_binary: bool, depth: usize) -> BinaryPolicy {
    if search_binary {
        BinaryPolicy::ScanAll
    } else if depth == 0 {
        BinaryPolicy::Convert(BINARY_BYTE)
    } else {
        BinaryPolicy::Quit(BINARY_BYTE)
    }
}

/// How a file is scanned for one query.
#[derive(Clone, Copy, Debug, PartialEq, Eq, Structural)]
pub struct ScanOptions {
    /// The lines that do not hold the pattern are the matched ones.
    pub invert_match: bool,
    /// Lines are numbered.
    pub line_number: bool,
    /// The number of lines reported before a matched line.
    pub before_context: usize,
    /// The number of lines reported after a matched line.
    pub after_context: usize,
}

/// One text query.
#[derive(Debug)]
pub struct SearchQuery {
    /// The text to look for.
    pub query: String,
    /// The text is a regular expression; otherwise it is matched verbatim.
    pub regex_syntax: bool,
    /// Letters match both of their cases, unless the text holds an upper
    /// case letter.
    pub ignore_case: bool,
    /// The lines that do not hold the text are the matched ones.
    pub invert_match: bool,
    /// The number of lines reported before and after each matched line.
    pub extra_context: usize,
}

impl Clone for SearchQuery {
    fn clone(&self) -> (copy: Self)
        ensures
            copy == *self,
    {
        SearchQuery {
            query: self.query.clone(),
            regex_syntax: self.regex_syntax,
            ignore_case: self.ignore_case,
            invert_match: self.invert_match,
            extra_context: self.extra_context,
        }
    }
}

impl SearchQuery {
    /// The compiler options of the query: matching goes line by line, with
    /// `\n` ending a line, anchors that match at every line and a `.` that
    /// stops at the end of the line; case is folded the smart way where the
    /// query asks to ignore case.
    pub open spec fn spec_matcher_options(&self) -> MatcherOptions {
        MatcherOptions {
            case_insensitive: false,
            case_smart: self.ignore_case,
            multi_line: true,
            unicode: true,
            octal: false,
            line_terminator: Some(LINE_TERMINATOR),
            dot_matches_new_line: false,
        }
    }

    /// The regular expression of the query: its text, escaped where the
    /// query is to be matched verbatim.
    pub open spec fn spec_pattern_text(&self) -> Seq<char> {
        if self.regex_syntax {
            self.query@
        } else {
            escaped(self.query@)
        }
    }

    /// The scan options of the query.
    pub open spec fn spec_searcher(&self, line_number: bool) -> ScanOptions {
        ScanOptions {
            invert_match: self.invert_match,
            line_number,
            before_context: self.extra_context,
            after_context: self.extra_context,
        }
    }

    /// What the matcher of the query is compiled from.
    pub open spec fn spec_pattern(&self) -> PatternView {
        PatternView { options: self.spec_matcher_options(), text: self.spec_pattern_text() }
    }

    /// Whether the query compiles.
    pub open spec fn spec_compiles(&self) -> bool {
        compiles(self.spec_matcher_options(), self.spec_pattern_text())
    }

    /// The worker of the query, if the query compiles.
    pub open spec fn spec_search_worker(&self, line_number: bool) -> Option<WorkerView> {
        if self.spec_compiles() {
            Some(
                WorkerView {
                    pattern: self.spec_pattern(),
                    searcher: self.spec_searcher(line_number),
                },
            )
        } else {
            None
        }
    }

    /// An empty literal query that ignores case and reports no context.
    pub fn new() -> (query: Self)
        ensures
            query.query@ == Seq::<char>::empty(),
            !query.regex_syntax,
            query.ignore_case,
            !query.invert_match,
            query.extra_context == 0,
    {
        SearchQuery {
            query: String::new(),
            regex_syntax: false,
            ignore_case: true,
            invert_match: false,
            extra_context: 0,
        }
    }

    /// The compiler options of the query.
    #[verifier::when_used_as_spec(spec_matcher_options)]
    pub fn matcher_options(&self) -> (options: MatcherOptions)
        ensures
            options == self.spec_matcher_options(),
    {
        MatcherOptions {
            case_insensitive: false,
            case_smart: self.ignore_case,
            multi_line: true,
            unicode: true,
            octal: false,
            line_terminator: Some(LINE_TERMINATOR),
            dot_matches_new_line: false,
        }
    }

    /// The regular expression that is compiled for the query.
    pub fn pattern_text(&self) -> (text: String)
        ensures
            text@ == self.spec_pattern_text(),
    {
        if self.regex_syntax {
            self.query.clone()
        } else {
            escape(self.query.as_str())
        }
    }

    /// Compiles the query.
    pub fn matcher(&self) -> (result: Result<CompiledMatcher, PatternError>)
        ensures
            result is Ok <==> self.spec_compiles(),
            result matches Ok(matcher) ==> matcher@ == self.spec_pattern(),
    {
        let options = self.matcher_options();
        let text = self.pattern_text();
        compile(&options, text.as_str())
    }

    /// The scan options of the query. Context is symmetric: as many lines
    /// before a match as after it.
    #[verifier::when_used_as_spec(spec_searcher)]
    pub fn searcher(&self, line_number: bool) -> (options: ScanOptions)
        ensures
            options == self.spec_searcher(line_number),
    {
        ScanOptions {
            invert_match: self.invert_match,
            line_number,
            before_context: self.extra_context,
            after_context: self.extra_context,
        }
    }

    /// The worker that scans files for the query.
    pub fn search_worker(&self, line_number: bool) -> (result: Result<SearchWorker, PatternError>)
        ensures
            result matches Ok(worker) ==> self.spec_search_worker(line_number) == Some(worker@),
            result is Err ==> self.spec_search_worker(line_number) is None,
    {
        match self.matcher() {
            Ok(matcher) => Ok(SearchWorker { matcher, searcher: self.searcher(line_number) }),
            Err(error) => Err(error),
        }
    }
}

/// The mathematical content of a [`SearchWorker`].
pub struct WorkerView {
    /// What the matcher of the worker was compiled from.
    pub pattern: PatternView,
    /// How the worker scans.
    pub searcher: ScanOptions,
}

/// A compiled query together with its scan options. Each thread of a search
/// works on a copy of its own.
pub struct SearchWorker {
    matcher: CompiledMatcher,
    searcher: ScanOptions,
}

impl Clone for SearchWorker {
    /// A copy that finds and reports what this worker finds and reports.
    fn clone(&self) -> (copy: Self)
        ensures
            copy@ == self@,
    {
        SearchWorker { matcher: self.matcher.clone(), searcher: self.searcher }
    }
}

impl View for SearchWorker {
    type V = WorkerView;

    closed spec fn view(&self) -> WorkerView {
        WorkerView { pattern: self.matcher@, searcher: self.searcher }
    }
}

impl SearchWorker {
    /// The compiled pattern of the worker.
    pub fn matcher(&self) -> (matcher: &CompiledMatcher)
        ensures
            matcher@ == self@.pattern,
    {
        &self.matcher
    }

    /// The scan options of the worker.
    pub fn scan_options(&self) -> (options: ScanOptions)
        ensures
            options == self@.searcher,
    {
        self.searcher
    }

    /// The binary policy for a file found `depth` levels below its root.
    pub fn binary_policy(search_binary: bool, depth: usize) -> (policy: BinaryPolicy)
        ensures
            policy == binary_policy_for(search_binary, depth),
    {
        if search_binary {
            BinaryPolicy::ScanAll
        } else if depth == 0 {
            BinaryPolicy::Convert(BINARY_BYTE)
        } else {
            BinaryPolicy::Quit(BINARY_BYTE)
        }
    }

    /// The sink for one scan with this worker: entries stay open across
    /// lines exactly when the worker reports context.
    pub fn sink(&self) -> (sink: SearchSink<'_>)
        ensures
            sink@ == SinkView::start(self@.searcher.before_context != 0),
            sink.pattern() == self@.pattern,
            sink.later() == Seq::<WorkerView>::empty(),
    {
        SearchSink::new(&self.matcher, self.searcher.before_context != 0)
    }
}

} // verus!
