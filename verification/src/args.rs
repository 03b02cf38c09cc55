//! Splitting a command line into arguments, with backslash escapes and
//! double quotes.

use vstd::prelude::*;
use crate::text::string_views;

verus! {

/// Why a command line has no arguments.
#[derive(Clone, Copy, Debug, PartialEq, Eq, Structural)]
pub enum ArgsError {
    /// The line ends in a backslash that escapes nothing.
    DanglingEscape,
    /// A double quote is never closed.
    UnclosedQuote,
}

/// What the parser knows after a prefix of the command line.
pub struct ParseState {
    /// The arguments that are complete.
    pub args: Seq<Seq<char>>,
    /// The argument that is being read.
    pub current: Seq<char>,
    /// The last character was a backslash that escapes the next one.
    pub escaping: bool,
    /// A double quote is open.
    pub in_quote: bool,
    /// The argument that is being read counts even if it stays empty,
    /// because a quote was seen in it.
    pub keep_empty: bool,
}

/// The characters between arguments.
pub open spec fn is_blank(c: char) -> bool {
    c == ' ' || c == '\t'
}

/// The characters that a backslash escapes; in front of any other character
/// the backslash stands for itself.
pub open spec fn is_escapable(c: char) -> bool {
    c == '"' || c == '\\' || c == ' ' || c == '\t'
}

impl ParseState {
    /// The state before the first character.
    pub open spec fn start() -> ParseState {
        ParseState {
            args: Seq::empty(),
            current: Seq::empty(),
            escaping: false,
            in_quote: false,
            keep_empty: false,
        }
    }

    /// The state after one more character.
    pub open spec fn step(self, c: char) -> ParseState {
        if self.escaping {
            ParseState {
                current: if is_escapable(c) {
                    self.current.push(c)
                } else {
                    self.current.push('\\').push(c)
                },
                escaping: false,
                ..self
            }
        } else if c == '\\' {
            ParseState { escaping: true, ..self }
        } else if c == '"' {
            ParseState { in_quote: !self.in_quote, keep_empty: true, ..self }
        } else if is_blank(c) && !self.in_quote {
            if self.current.len() > 0 || self.keep_empty {
                ParseState {
                    args: self.args.push(self.current),
                    current: Seq::empty(),
                    keep_empty: false,
                    ..self
                }
            } else {
                self
            }
        } else {
            ParseState { current: self.current.push(c), ..self }
        }
    }

    /// The state after every character of `text`.
    pub open spec fn after(text: Seq<char>) -> ParseState
        decreases text.len(),
    {
        if text.len() == 0 {
            ParseState::start()
        } else {
            ParseState::after(text.drop_last()).step(text.last())
        }
    }

    /// The arguments, once the line has ended: a pending escape or an open
    /// quote is an error, and the last argument counts if it is not empty.
    pub open spec fn finish(self) -> Result<Seq<Seq<char>>, ArgsError> {
        if self.escaping {
            Err(ArgsError::DanglingEscape)
        } else if self.in_quote {
            Err(ArgsError::UnclosedQuote)
        } else if self.current.len() > 0 {
            Ok(self.args.push(self.current))
        } else {
            Ok(self.args)
        }
    }
}

/// The arguments of a command line. Blanks separate arguments; a double
/// quote starts or ends a stretch in which blanks are ordinary characters;
/// a backslash takes the next character literally.
pub open spec fn parsed_args(cmdline: Seq<char>) -> Result<Seq<Seq<char>>, ArgsError> {
    ParseState::after(cmdline).finish()
}

/// A command line without backslashes and double quotes always has
/// arguments, and none of them holds a blank.
pub proof fn lemma_plain_line_parses(cmdline: Seq<char>)
    requires
        forall|i: int| 0 <= i < cmdline.len() ==> cmdline[i] != '\\' && cmdline[i] != '"',
    ensures
        parsed_args(cmdline) is Ok,
        forall|i: int, j: int|
            0 <= i < parsed_args(cmdline)->Ok_0.len() && 0 <= j < parsed_args(
                cmdline,
            )->Ok_0[i].len() ==> !is_blank(#[trigger] parsed_args(cmdline)->Ok_0[i][j]),
{
    lemma_plain_state(cmdline);
}

proof fn lemma_plain_state(text: Seq<char>)
    requires
        forall|i: int| 0 <= i < text.len() ==> text[i] != '\\' && text[i] != '"',
    ensures
        !ParseState::after(text).escaping,
        !ParseState::after(text).in_quote,
        forall|j: int|
            0 <= j < ParseState::after(text).current.len() ==> !is_blank(
                #[trigger] ParseState::after(text).current[j],
            ),
        forall|i: int, j: int|
            0 <= i < ParseState::after(text).args.len() && 0 <= j < ParseState::after(
                text,
            ).args[i].len() ==> !is_blank(#[trigger] ParseState::after(text).args[i][j]),
    decreases text.len(),
{
    if text.len() > 0 {
        lemma_plain_state(text.drop_last());
    }
}

/// Splits a command line into its arguments.
pub fn parse_args(cmdline: &str) -> (result: Result<Vec<String>, ArgsError>)
    ensures
        match result {
            Ok(args) => parsed_args(cmdline@) == Ok::<Seq<Seq<char>>, ArgsError>(
                string_views(args@),
            ),
            Err(error) => parsed_args(cmdline@) == Err::<Seq<Seq<char>>, ArgsError>(error),
        },
{
    let mut results: Vec<String> = Vec::new();
    let mut arg_builder = String::new();
    let mut escaping = false;
    let mut in_quote = false;
    // Empty arguments are not saved, unless a quote was seen in them.
    let mut save_empty_arg = false;
    proof {
        assert(string_views(results@) =~= Seq::empty());
        assert(cmdline@.take(0) =~= Seq::empty());
    }
    for value in it: cmdline.chars()
        invariant
            it.seq() == cmdline@,
            ParseState::after(cmdline@.take(it.index() as int)) == (ParseState {
                args: string_views(results@),
                current: arg_builder@,
                escaping,
                in_quote,
                keep_empty: save_empty_arg,
            }),
    {
        proof {
            let next = cmdline@.take(it.index() as int + 1);
            assert(next.drop_last() =~= cmdline@.take(it.index() as int));
            assert(next.last() == value);
        }
        if escaping {
            let need_escape = value == '"' || value == '\\' || value == ' ' || value == '\t';
            if !need_escape {
                arg_builder.push('\\');
            }
            arg_builder.push(value);
            escaping = false;
        } else if value == '\\' {
            escaping = true;
        } else if value == '"' {
            in_quote = !in_quote;
            save_empty_arg = true;
        } else if (value == ' ' || value == '\t') && !in_quote {
            if !arg_builder.as_str().is_empty() || save_empty_arg {
                let ghost before = results@;
                results.push(arg_builder);
                assert(string_views(results@) =~= string_views(before).push(arg_builder@));
                arg_builder = String::new();
                save_empty_arg = false;
            }
        } else {
            arg_builder.push(value);
        }
    }
    proof {
        assert(cmdline@.take(cmdline@.len() as int) =~= cmdline@);
    }
    if escaping {
        return Err(ArgsError::DanglingEscape);
    }
    if in_quote {
        return Err(ArgsError::UnclosedQuote);
    }
    if !arg_builder.as_str().is_empty() {
        let ghost before = results@;
        results.push(arg_builder);
        assert(string_views(results@) =~= string_views(before).push(arg_builder@));
    }
    Ok(results)
}

} // verus!
