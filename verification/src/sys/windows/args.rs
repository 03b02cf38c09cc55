//! Splitting a command line into arguments the way Windows programs do:
//! backslashes are ordinary characters unless a double quote follows them.

use vstd::prelude::*;
use vstd::string::StrSliceExecFns;
use crate::text::string_views;

verus! {

/// What the parser knows after a prefix of the command line.
pub struct ParseState {
    /// The arguments that are complete.
    pub args: Seq<Seq<char>>,
    /// The argument that is being read.
    pub current: Seq<char>,
    /// The number of backslashes read since the last other character.
    pub backslashes: nat,
    /// A double quote is open.
    pub in_quote: bool,
    /// The argument that is being read counts even if it stays empty,
    /// because a quote was seen in it.
    pub keep_empty: bool,
}

/// The characters between arguments.
pub open spec fn is_blank(c: char) -> bool {
    c == ' ' || c == '\t'
}

/// `count` backslashes.
pub open spec fn backslashes(count: nat) -> Seq<char> {
    Seq::new(count, |i: int| '\\')
}

impl ParseState {
    /// The state before the first character.
    pub open spec fn start() -> ParseState {
        ParseState {
            args: Seq::empty(),
            current: Seq::empty(),
            backslashes: 0,
            in_quote: false,
            keep_empty: false,
        }
    }

    /// The state after one more character. Backslashes wait until the next
    /// other character shows what they mean: in front of a double quote
    /// each pair stands for one backslash, and one left over escapes the
    /// quote; in front of anything else they stand for themselves.
    pub open spec fn step(self, c: char) -> ParseState {
        if c == '\\' {
            ParseState { backslashes: self.backslashes + 1, ..self }
        } else if c == '"' {
            let current = self.current + backslashes(self.backslashes / 2);
            if self.backslashes % 2 == 1 {
                ParseState { current: current.push('"'), backslashes: 0, ..self }
            } else {
                ParseState {
                    current,
                    backslashes: 0,
                    in_quote: !self.in_quote,
                    keep_empty: true,
                    ..self
                }
            }
        } else {
            let current = self.current + backslashes(self.backslashes);
            if is_blank(c) && !self.in_quote {
                if current.len() > 0 || self.keep_empty {
                    ParseState {
                        args: self.args.push(current),
                        current: Seq::empty(),
                        backslashes: 0,
                        keep_empty: false,
                        ..self
                    }
                } else {
                    ParseState { current, backslashes: 0, ..self }
                }
            } else {
                ParseState { current: current.push(c), backslashes: 0, ..self }
            }
        }
    }

    /// The state after every character of `text`.
    pub open spec fn after(text: Seq<char>) -> ParseState
        decreases text.len(),
    {
        if text.len() == 0 {
            ParseState::start()
        } else {
            ParseState::after(text.drop_last()).step(text.last())
        }
    }

    /// The arguments, once the line has ended: the last argument counts if
    /// it is not empty. Backslashes at the very end of the line are dropped,
    /// and an open quote is closed by the end of the line.
    pub open spec fn finish(self) -> Seq<Seq<char>> {
        if self.current.len() > 0 {
            self.args.push(self.current)
        } else {
            self.args
        }
    }
}

/// The arguments of a command line.
pub open spec fn parsed_args(cmdline: Seq<char>) -> Seq<Seq<char>> {
    ParseState::after(cmdline).finish()
}

/// No more backslashes wait than characters were read.
proof fn lemma_backslashes_bounded(text: Seq<char>)
    ensures
        ParseState::after(text).backslashes <= text.len(),
    decreases text.len(),
{
    if text.len() > 0 {
        lemma_backslashes_bounded(text.drop_last());
    }
}

/// Appends `count` backslashes to `arg`.
fn push_backslashes(arg: &mut String, count: usize)
    ensures
        final(arg)@ == old(arg)@ + backslashes(count as nat),
{
    let mut pushed: usize = 0;
    assert(arg@ =~= old(arg)@ + backslashes(0));
    while pushed < count
        invariant
            pushed <= count,
            arg@ == old(arg)@ + backslashes(pushed as nat),
        decreases count - pushed,
    {
        arg.push('\\');
        pushed += 1;
        assert(arg@ =~= old(arg)@ + backslashes(pushed as nat));
    }
}

/// Splits a command line into its arguments.
pub fn parse_args(cmdline: &str) -> (results: Vec<String>)
    ensures
        string_views(results@) == parsed_args(cmdline@),
{
    let mut results: Vec<String> = Vec::new();
    let mut arg = String::new();
    let mut in_quote = false;
    // Empty arguments are not saved, unless a quote was seen in them.
    let mut save_empty_arg = false;
    // How many backslashes to keep depends on the character that follows them.
    let mut backslash_count: usize = 0;
    // The counter never exceeds the number of characters, which fits.
    let length = cmdline.unicode_len();
    proof {
        assert(string_views(results@) =~= Seq::empty());
        assert(cmdline@.take(0) =~= Seq::empty());
    }
    for value in it: cmdline.chars()
        invariant
            it.seq() == cmdline@,
            length == cmdline@.len(),
            ParseState::after(cmdline@.take(it.index() as int)) == (ParseState {
                args: string_views(results@),
                current: arg@,
                backslashes: backslash_count as nat,
                in_quote,
                keep_empty: save_empty_arg,
            }),
    {
        proof {
            let next = cmdline@.take(it.index() as int + 1);
            assert(next.drop_last() =~= cmdline@.take(it.index() as int));
            assert(next.last() == value);
            lemma_backslashes_bounded(cmdline@.take(it.index() as int));
        }
        if value == '\\' {
            backslash_count += 1;
        } else if value == '"' {
            push_backslashes(&mut arg, backslash_count / 2);
            // After an odd number of backslashes the quote is escaped.
            if backslash_count % 2 == 1 {
                arg.push('"');
            } else {
                in_quote = !in_quote;
                save_empty_arg = true;
            }
            backslash_count = 0;
        } else {
            push_backslashes(&mut arg, backslash_count);
            backslash_count = 0;
            if (value == ' ' || value == '\t') && !in_quote {
                if !arg.as_str().is_empty() || save_empty_arg {
                    let ghost before = results@;
                    results.push(arg);
                    assert(string_views(results@) =~= string_views(before).push(arg@));
                    arg = String::new();
                    save_empty_arg = false;
                }
            } else {
                arg.push(value);
            }
        }
    }
    proof {
        assert(cmdline@.take(cmdline@.len() as int) =~= cmdline@);
    }
    if !arg.as_str().is_empty() {
        let ghost before = results@;
        results.push(arg);
        assert(string_views(results@) =~= string_views(before).push(arg@));
    }
    results
}

} // verus!
