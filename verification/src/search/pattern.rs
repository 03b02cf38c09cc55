//! Pattern compilation and the occurrences of a compiled pattern in a line.

use vstd::prelude::*;
use grep::matcher::Matcher;
use grep::regex::{RegexMatcher, RegexMatcherBuilder};

verus! {

/// `RegexMatcher` of the grep crate: the compiled form of one pattern. Its
/// inside is not visible to the proofs.
#[verifier::external_type_specification]
#[verifier::external_body]
pub struct ExRegexMatcher(RegexMatcher);

/// `Error` of the grep crate's regex module: the reason the regex compiler
/// gives when it rejects a pattern.
#[verifier::external_type_specification]
#[verifier::external_body]
pub struct ExRegexError(grep::regex::Error);

/// The pattern compiler rejected the text of a query.
#[derive(Clone, Copy, Debug)]
pub struct PatternError;

/// The knobs of the pattern compiler that this engine sets.
#[derive(Clone, Copy, Debug)]
pub struct MatcherOptions {
    /// Letters match both of their cases, whatever the pattern holds.
    pub case_insensitive: bool,
    /// Letters match both of their cases unless the pattern holds an upper
    /// case literal.
    pub case_smart: bool,
    /// `^` and `$` match at the start and end of every line.
    pub multi_line: bool,
    /// Character classes follow Unicode.
    pub unicode: bool,
    /// Octal escapes are part of the syntax.
    pub octal: bool,
    /// A byte that no occurrence may contain.
    pub line_terminator: Option<u8>,
    /// `.` also matches the line terminator.
    pub dot_matches_new_line: bool,
}

/// What a matcher was compiled from.
pub struct PatternView {
    /// The options of the compiler.
    pub options: MatcherOptions,
    /// The regular expression.
    pub text: Seq<char>,
}

/// A compiled pattern: the matcher of the regex compiler together with the
/// options and the regular expression that it was compiled from. The fields
/// are private, and a value comes from [`compile`] or is the copy of one:
/// the matcher of a value is always the one that was compiled from its
/// options and its text.
pub struct CompiledMatcher {
    regex: RegexMatcher,
    options: MatcherOptions,
    text: String,
}

impl View for CompiledMatcher {
    type V = PatternView;

    closed spec fn view(&self) -> PatternView {
        PatternView { options: self.options, text: self.text@ }
    }
}

/// Whether the regex compiler accepts `pattern` under `options`.
pub uninterp spec fn compiles(options: MatcherOptions, pattern: Seq<char>) -> bool;

/// The leftmost occurrence of `pattern`, compiled under `options`, in
/// `haystack` that a search starting at byte offset `at` reports, as
/// (start, end) offsets into `haystack`.
pub uninterp spec fn first_occurrence(
    options: MatcherOptions,
    pattern: Seq<char>,
    haystack: Seq<u8>,
    at: usize,
) -> Option<(usize, usize)>;

/// `RegexMatcherBuilder::build`, on a builder that was given each field of
/// `options` through the setter of the same name: the compiler accepts the
/// pattern exactly where [`compiles`] says so, and the value that comes back
/// records what its matcher was compiled from.
#[verifier::external_body]
fn build_matcher(options: &MatcherOptions, pattern: &str) -> (built: Result<
    CompiledMatcher,
    grep::regex::Error,
>)
    ensures
        built is Ok <==> compiles(*options, pattern@),
        built matches Ok(matcher) ==> matcher@ == (PatternView {
            options: *options,
            text: pattern@,
        }),
{
    let regex = RegexMatcherBuilder::new()
        .case_insensitive(options.case_insensitive)
        .case_smart(options.case_smart)
        .multi_line(options.multi_line)
        .unicode(options.unicode)
        .octal(options.octal)
        .line_terminator(options.line_terminator)
        .dot_matches_new_line(options.dot_matches_new_line)
        .build(pattern)?;
    Ok(CompiledMatcher { regex, options: *options, text: pattern.to_string() })
}

/// `RegexMatcher::clone`: another matcher for the same pattern.
pub assume_specification[ <RegexMatcher as Clone>::clone ](matcher: &RegexMatcher) -> RegexMatcher;

/// `Matcher::find_at` of `RegexMatcher`: the occurrence named by
/// [`first_occurrence`] for what the matcher was compiled from; it lies at or
/// after `at`, inside the haystack, and its start does not exceed its end.
#[verifier::external_body]
fn find_at(matcher: &CompiledMatcher, haystack: &[u8], at: usize) -> (found: Option<(usize, usize)>)
    requires
        at <= haystack@.len(),
    ensures
        found == first_occurrence(matcher@.options, matcher@.text, haystack@, at),
        found matches Some((start, end)) ==> at <= start <= end <= haystack@.len(),
{
    match matcher.regex.find_at(haystack, at) {
        Ok(Some(occurrence)) => Some((occurrence.start(), occurrence.end())),
        _ => None,
    }
}

impl Clone for CompiledMatcher {
    /// A matcher of its own for the same pattern: each thread of a search
    /// works on a copy.
    fn clone(&self) -> (copy: Self)
        ensures
            copy@ == self@,
    {
        CompiledMatcher {
            regex: self.regex.clone(),
            options: self.options,
            text: self.text.clone(),
        }
    }
}

impl CompiledMatcher {
    /// The matcher of the regex compiler, for the scanner that reads files
    /// with it.
    pub fn regex(&self) -> (regex: &RegexMatcher)
        ensures
            *regex == self.matcher_of(),
    {
        &self.regex
    }

    /// The next occurrence of the pattern in `haystack` at or after byte
    /// offset `at`; none where `at` lies beyond the end of `haystack`.
    pub fn find_at(&self, haystack: &[u8], at: usize) -> (found: Option<(usize, usize)>)
        ensures
            found == (if at <= haystack@.len() {
                first_occurrence(self@.options, self@.text, haystack@, at)
            } else {
                None
            }),
            found matches Some((start, end)) ==> at <= start <= end <= haystack@.len(),
    {
        if at <= haystack.len() {
            find_at(self, haystack, at)
        } else {
            None
        }
    }

    /// The matcher that the value holds: the one that was compiled from its
    /// options and its text.
    pub closed spec fn matcher_of(&self) -> RegexMatcher {
        self.regex
    }
}

/// The characters that have a meaning of their own in a regular expression.
pub open spec fn is_meta_character(c: char) -> bool {
    c == '\\' || c == '.' || c == '+' || c == '*' || c == '?' || c == '(' || c == ')' || c == '|'
        || c == '[' || c == ']' || c == '{' || c == '}' || c == '^' || c == '$' || c == '#' || c
        == '&' || c == '-' || c == '~'
}

/// `text` with a backslash in front of each meta character, so that as a
/// regular expression it matches `text` verbatim.
pub open spec fn escaped(text: Seq<char>) -> Seq<char>
    decreases text.len(),
{
    if text.len() == 0 {
        Seq::empty()
    } else if is_meta_character(text.last()) {
        escaped(text.drop_last()).push('\\').push(text.last())
    } else {
        escaped(text.drop_last()).push(text.last())
    }
}

/// Whether `c` has a meaning of its own in a regular expression.
pub fn is_meta(c: char) -> (meta: bool)
    ensures
        meta == is_meta_character(c),
{
    c == '\\' || c == '.' || c == '+' || c == '*' || c == '?' || c == '(' || c == ')' || c == '|'
        || c == '[' || c == ']' || c == '{' || c == '}' || c == '^' || c == '$' || c == '#' || c
        == '&' || c == '-' || c == '~'
}

/// Puts a backslash in front of every meta character of `text` and changes
/// nothing else.
pub fn escape(text: &str) -> (quoted: String)
    ensures
        quoted@ == escaped(text@),
{
    let mut quoted = String::new();
    assert(text@.take(0) =~= Seq::empty());
    for c in it: text.chars()
        invariant
            it.seq() == text@,
            quoted@ == escaped(text@.take(it.index() as int)),
    {
        assert(text@.take(it.index() as int + 1).drop_last() =~= text@.take(it.index() as int));
        if is_meta(c) {
            quoted.push('\\');
        }
        quoted.push(c);
    }
    assert(text@.take(text@.len() as int) =~= text@);
    quoted
}

/// Compiles `pattern` under `options`.
pub fn compile(options: &MatcherOptions, pattern: &str) -> (result: Result<
    CompiledMatcher,
    PatternError,
>)
    ensures
        result is Ok <==> compiles(*options, pattern@),
        result matches Ok(matcher) ==> matcher@ == (PatternView {
            options: *options,
            text: pattern@,
        }),
{
    match build_matcher(options, pattern) {
        Ok(matcher) => Ok(matcher),
        Err(_) => Err(PatternError),
    }
}

/// Whether `found` is an occurrence that a search of `line` from `at` can
/// report: it starts at or after `at`, ends inside the line, and its start
/// does not exceed its end.
pub open spec fn in_line(line: Seq<u8>, at: int, found: Option<(usize, usize)>) -> bool {
    found matches Some((start, end)) && at <= start <= end <= line.len()
}

/// Where the search goes on after an occurrence: at its end, or one byte
/// further where the occurrence is empty, so that every step advances.
pub open spec fn resume_after(occurrence: (usize, usize)) -> int {
    if occurrence.0 < occurrence.1 {
        occurrence.1 as int
    } else {
        occurrence.1 + 1
    }
}

/// Where the search of a line of `len` bytes goes on after `occurrence`, or
/// `None` where that is beyond the end of the line.
pub fn resume_offset(occurrence: (usize, usize), len: usize) -> (next: Option<usize>)
    ensures
        next == (if resume_after(occurrence) <= len {
            Some(resume_after(occurrence) as usize)
        } else {
            None
        }),
{
    if occurrence.0 < occurrence.1 {
        if occurrence.1 <= len {
            Some(occurrence.1)
        } else {
            None
        }
    } else if occurrence.1 < len {
        Some(occurrence.1 + 1)
    } else {
        None
    }
}

/// All the occurrences of a pattern in `line` from byte offset `at` on: the
/// first one that a search from `at` reports, then those from where the
/// search resumes after it.
pub open spec fn occurrences(pattern: PatternView, line: Seq<u8>, at: int) -> Seq<(usize, usize)>
    decreases line.len() + 1 - at,
{
    if 0 <= at <= line.len() && at <= usize::MAX {
        let found = first_occurrence(pattern.options, pattern.text, line, at as usize);
        if in_line(line, at, found) {
            seq![found->0] + occurrences(pattern, line, resume_after(found->0))
        } else {
            Seq::empty()
        }
    } else {
        Seq::empty()
    }
}

/// Spans that lie inside a line of `len` bytes, each with its start not
/// after its end, in ascending order and without overlap.
pub open spec fn valid_spans(len: nat, spans: Seq<(usize, usize)>) -> bool {
    &&& forall|i: int| 0 <= i < spans.len() ==> (#[trigger] spans[i]).0 <= spans[i].1 <= len
    &&& forall|i: int, j: int|
        0 <= i < j < spans.len() ==> (#[trigger] spans[i]).1 <= (#[trigger] spans[j]).0
}

/// The occurrences of a pattern in a line are valid spans that start at or
/// after the offset the search began at.
pub proof fn lemma_occurrences_valid(pattern: PatternView, line: Seq<u8>, at: int)
    ensures
        valid_spans(line.len(), occurrences(pattern, line, at)),
        forall|i: int|
            0 <= i < occurrences(pattern, line, at).len() ==> at <= (#[trigger] occurrences(
                pattern,
                line,
                at,
            )[i]).0,
    decreases line.len() + 1 - at,
{
    if 0 <= at <= line.len() && at <= usize::MAX && in_line(
        line,
        at,
        first_occurrence(pattern.options, pattern.text, line, at as usize),
    ) {
        let found = first_occurrence(pattern.options, pattern.text, line, at as usize);
        let rest = occurrences(pattern, line, resume_after(found->0));
        lemma_occurrences_valid(pattern, line, resume_after(found->0));
        let all = occurrences(pattern, line, at);
        assert(all == seq![found->0] + rest);
        assert forall|i: int| 0 <= i < all.len() implies (#[trigger] all[i]).0 <= all[i].1
            <= line.len() && at <= all[i].0 by {
            if i > 0 {
                assert(all[i] == rest[i - 1]);
            }
        }
        assert forall|i: int, j: int| 0 <= i < j < all.len() implies (#[trigger] all[i]).1 <= (
        #[trigger] all[j]).0 by {
            assert(all[j] == rest[j - 1]);
            if i > 0 {
                assert(all[i] == rest[i - 1]);
            }
        }
    }
}

/// Finds every occurrence of the pattern of `matcher` in `line`, left to
/// right. An empty occurrence is recorded like any other, and the search
/// resumes one byte after it.
pub fn find_all(matcher: &CompiledMatcher, line: &[u8]) -> (spans: Vec<(usize, usize)>)
    ensures
        spans@ == occurrences(matcher@, line@, 0),
        valid_spans(line@.len(), spans@),
{
    let mut spans: Vec<(usize, usize)> = Vec::new();
    let mut at: usize = 0;
    let mut searching = true;
    while searching
        invariant
            at <= line@.len(),
            occurrences(matcher@, line@, 0) == spans@ + (if searching {
                occurrences(matcher@, line@, at as int)
            } else {
                Seq::empty()
            }),
        decreases line@.len() - at + (if searching { 1int } else { 0int }),
    {
        match find_at(matcher, line, at) {
            Some((start, end)) => {
                proof {
                    let rest = occurrences(matcher@, line@, resume_after((start, end)));
                    assert(spans@ + (seq![(start, end)] + rest) == spans@.push((start, end))
                        + rest);
                    if resume_after((start, end)) > line@.len() {
                        assert(rest == Seq::<(usize, usize)>::empty());
                    }
                }
                spans.push((start, end));
                match resume_offset((start, end), line.len()) {
                    Some(next) => {
                        at = next;
                    },
                    None => {
                        searching = false;
                    },
                }
            },
            None => {
                searching = false;
            },
        }
    }
    proof {
        lemma_occurrences_valid(matcher@, line@, 0);
        assert(spans@ + Seq::<(usize, usize)>::empty() == spans@);
    }
    spans
}

} // verus!
