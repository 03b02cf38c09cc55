//! The command that opens a search result in an editor: a template with
//! `{file}` and `{line}` in it, filled in for one result.

use vstd::prelude::*;
use crate::sys::windows::args::{parse_args, parsed_args};
use crate::text::string_views;

verus! {

/// Why a template could not be filled in.
#[derive(Clone, Copy, Debug, PartialEq, Eq, Structural)]
pub enum EditorError {
    /// The template ends in a backslash that escapes nothing.
    DanglingEscape,
    /// A `{` stands inside braces.
    NestedBrace,
    /// A `}` stands outside braces.
    UnmatchedBrace,
    /// Nothing is known by the name between the braces that open at this
    /// position, counted in characters.
    UnknownKey { position: usize },
    /// The braces that open at this position, counted in characters, are
    /// never closed.
    UnclosedBrace { position: usize },
    /// The command names no program.
    NoProgram,
}

/// The value that was stored last under `key`, if any.
pub open spec fn lookup(entries: Seq<(Seq<char>, Seq<char>)>, key: Seq<char>) -> Option<Seq<char>>
    decreases entries.len(),
{
    if entries.len() == 0 {
        None
    } else if entries.last().0 == key {
        Some(entries.last().1)
    } else {
        lookup(entries.drop_last(), key)
    }
}

/// The texts that stand for the names in a template.
pub struct Replacements {
    entries: Vec<(String, String)>,
}

impl View for Replacements {
    type V = Seq<(Seq<char>, Seq<char>)>;

    closed spec fn view(&self) -> Seq<(Seq<char>, Seq<char>)> {
        self.entries@.map_values(|entry: (String, String)| (entry.0@, entry.1@))
    }
}

impl Replacements {
    /// No replacements.
    pub fn new() -> (replacements: Self)
        ensures
            replacements@ == Seq::<(Seq<char>, Seq<char>)>::empty(),
    {
        let replacements = Replacements { entries: Vec::new() };
        assert(replacements@ =~= Seq::empty());
        replacements
    }

    /// Stores `value` under `key`, in place of what was stored there.
    pub fn insert(&mut self, key: String, value: String)
        ensures
            final(self)@ == old(self)@.push((key@, value@)),
            lookup(final(self)@, key@) == Some(value@),
            forall|other: Seq<char>|
                other != key@ ==> lookup(final(self)@, other) == lookup(old(self)@, other),
    {
        self.entries.push((key, value));
        assert(self@ =~= old(self)@.push((key@, value@)));
        assert(self@.drop_last() =~= old(self)@);
    }

    /// The value stored under `key`.
    pub fn get(&self, key: &String) -> (found: Option<&String>)
        ensures
            match found {
                Some(value) => lookup(self@, key@) == Some(value@),
                None => lookup(self@, key@) is None,
            },
    {
        let mut i = self.entries.len();
        assert(self@.take(i as int) =~= self@);
        while i > 0
            invariant
                i <= self.entries@.len(),
                lookup(self@, key@) == lookup(self@.take(i as int), key@),
            decreases i,
        {
            i -= 1;
            assert(self@.take(i as int + 1).drop_last() =~= self@.take(i as int));
            if self.entries[i].0 == *key {
                return Some(&self.entries[i].1);
            }
        }
        None
    }
}

/// What is known after a prefix of a template.
pub struct TemplateState {
    /// The text produced so far.
    pub out: Seq<char>,
    /// Inside braces: the position of the `{` and the name read so far.
    pub open: Option<(nat, Seq<char>)>,
    /// The last character was a backslash that escapes the next one.
    pub escaping: bool,
    /// The first fault, after which nothing changes any more.
    pub failed: Option<EditorError>,
    /// The number of characters read.
    pub position: nat,
}

impl TemplateState {
    /// The state before the first character.
    pub open spec fn start() -> TemplateState {
        TemplateState {
            out: Seq::empty(),
            open: None,
            escaping: false,
            failed: None,
            position: 0,
        }
    }

    /// The state after one more character. A backslash puts the next
    /// character into the text as it is. Between `{` and `}` stands a name,
    /// and the `}` puts the replacement of the name into the text.
    pub open spec fn step(self, entries: Seq<(Seq<char>, Seq<char>)>, c: char) -> TemplateState {
        let next = TemplateState { position: self.position + 1, ..self };
        if self.failed is Some {
            self
        } else if self.escaping {
            TemplateState {
                out: self.out.push(c),
                open: match self.open {
                    Some((position, name)) => Some((position, name.push(c))),
                    None => None,
                },
                escaping: false,
                ..next
            }
        } else if c == '\\' {
            TemplateState {
                open: match self.open {
                    Some((position, name)) => Some((position, name.push(c))),
                    None => None,
                },
                escaping: true,
                ..next
            }
        } else if c == '{' {
            if self.open is Some {
                TemplateState { failed: Some(EditorError::NestedBrace), ..next }
            } else {
                TemplateState { open: Some((self.position, Seq::empty())), ..next }
            }
        } else if c == '}' {
            match self.open {
                Some((position, name)) => match lookup(entries, name) {
                    Some(replacement) => TemplateState {
                        out: self.out + replacement,
                        open: None,
                        ..next
                    },
                    None => TemplateState {
                        failed: Some(EditorError::UnknownKey { position: position as usize }),
                        ..next
                    },
                },
                None => TemplateState { failed: Some(EditorError::UnmatchedBrace), ..next },
            }
        } else {
            match self.open {
                Some((position, name)) => TemplateState {
                    open: Some((position, name.push(c))),
                    ..next
                },
                None => TemplateState { out: self.out.push(c), ..next },
            }
        }
    }

    /// The state after every character of `template`.
    pub open spec fn after(
        entries: Seq<(Seq<char>, Seq<char>)>,
        template: Seq<char>,
    ) -> TemplateState
        decreases template.len(),
    {
        if template.len() == 0 {
            TemplateState::start()
        } else {
            TemplateState::after(entries, template.drop_last()).step(entries, template.last())
        }
    }

    /// The text, once the template has ended: the first fault if there was
    /// one; else a pending escape or open braces are faults.
    pub open spec fn finish(self) -> Result<Seq<char>, EditorError> {
        if self.failed is Some {
            Err(self.failed->0)
        } else if self.escaping {
            Err(EditorError::DanglingEscape)
        } else {
            match self.open {
                Some((position, name)) => Err(
                    EditorError::UnclosedBrace { position: position as usize },
                ),
                None => Ok(self.out),
            }
        }
    }
}

/// `template` with each `{name}` replaced by what `entries` hold for the
/// name, and each `\c` by `c`.
pub open spec fn replaced(entries: Seq<(Seq<char>, Seq<char>)>, template: Seq<char>) -> Result<
    Seq<char>,
    EditorError,
> {
    TemplateState::after(entries, template).finish()
}

/// A template without braces and backslashes stands for itself.
pub proof fn lemma_plain_template(entries: Seq<(Seq<char>, Seq<char>)>, template: Seq<char>)
    requires
        forall|i: int|
            0 <= i < template.len() ==> template[i] != '\\' && template[i] != '{' && template[i]
                != '}',
    ensures
        replaced(entries, template) == Ok::<Seq<char>, EditorError>(template),
{
    lemma_plain_state(entries, template);
}

proof fn lemma_plain_state(entries: Seq<(Seq<char>, Seq<char>)>, template: Seq<char>)
    requires
        forall|i: int|
            0 <= i < template.len() ==> template[i] != '\\' && template[i] != '{' && template[i]
                != '}',
    ensures
        TemplateState::after(entries, template) == (TemplateState {
            out: template,
            open: None,
            escaping: false,
            failed: None,
            position: template.len(),
        }),
    decreases template.len(),
{
    if template.len() > 0 {
        lemma_plain_state(entries, template.drop_last());
        assert(template.drop_last().push(template.last()) =~= template);
    } else {
        assert(template =~= Seq::empty());
    }
}

/// A fault is final, and until one occurs the position counts the
/// characters.
proof fn lemma_after_prefix(entries: Seq<(Seq<char>, Seq<char>)>, template: Seq<char>, n: int)
    requires
        0 <= n <= template.len(),
    ensures
        TemplateState::after(entries, template).failed is None ==> TemplateState::after(
            entries,
            template,
        ).position == template.len(),
        TemplateState::after(entries, template.take(n)).failed is Some ==> TemplateState::after(
            entries,
            template,
        ).failed == TemplateState::after(entries, template.take(n)).failed,
    decreases template.len(),
{
    if template.len() > 0 {
        if n < template.len() {
            assert(template.drop_last().take(n) =~= template.take(n));
            lemma_after_prefix(entries, template.drop_last(), n);
        } else {
            assert(template.take(n) =~= template);
            lemma_after_prefix(entries, template.drop_last(), n - 1);
        }
    }
}

/// Fills in a template.
pub fn replace(argument: &str, replacements: &Replacements) -> (result: Result<String, EditorError>)
    ensures
        match result {
            Ok(text) => replaced(replacements@, argument@) == Ok::<Seq<char>, EditorError>(text@),
            Err(error) => replaced(replacements@, argument@) == Err::<Seq<char>, EditorError>(
                error,
            ),
        },
{
    let mut result = String::new();
    let mut key = String::new();
    let mut in_open_brace: Option<usize> = None;
    let mut escaping = false;
    let mut position: usize = 0;
    let length = argument.unicode_len();
    proof {
        assert(argument@.take(0) =~= Seq::empty());
    }
    for value in it: argument.chars()
        invariant
            it.seq() == argument@,
            length == argument@.len(),
            position == it.index(),
            in_open_brace is None ==> key@ == Seq::<char>::empty(),
            TemplateState::after(replacements@, argument@.take(it.index() as int)) == (
            TemplateState {
                out: result@,
                open: match in_open_brace {
                    Some(open_pos) => Some((open_pos as nat, key@)),
                    None => None,
                },
                escaping,
                failed: None,
                position: position as nat,
            }),
    {
        proof {
            let next = argument@.take(it.index() as int + 1);
            assert(next.drop_last() =~= argument@.take(it.index() as int));
            assert(next.last() == value);
            lemma_after_prefix(replacements@, argument@, it.index() as int + 1);
        }
        if escaping {
            result.push(value);
            if in_open_brace.is_some() {
                key.push(value);
            }
            escaping = false;
        } else if value == '\\' {
            if in_open_brace.is_some() {
                key.push(value);
            }
            escaping = true;
        } else if value == '{' {
            if in_open_brace.is_some() {
                return Err(EditorError::NestedBrace);
            }
            in_open_brace = Some(position);
        } else if value == '}' {
            match in_open_brace {
                Some(open_pos) => {
                    match replacements.get(&key) {
                        Some(replacement) => {
                            result.append(replacement.as_str());
                        },
                        None => {
                            return Err(EditorError::UnknownKey { position: open_pos });
                        },
                    }
                    in_open_brace = None;
                    key = String::new();
                },
                None => {
                    return Err(EditorError::UnmatchedBrace);
                },
            }
        } else if in_open_brace.is_some() {
            key.push(value);
        } else {
            result.push(value);
        }
        position += 1;
    }
    proof {
        assert(argument@.take(argument@.len() as int) =~= argument@);
    }
    if escaping {
        return Err(EditorError::DanglingEscape);
    }
    match in_open_brace {
        Some(open_pos) => Err(EditorError::UnclosedBrace { position: open_pos }),
        None => Ok(result),
    }
}

/// The decimal digit for a number below ten.
pub open spec fn digit(value: nat) -> char {
    ('0' as u8 + value) as char
}

/// The decimal numeral of a number, without leading zeros.
pub open spec fn decimal(value: nat) -> Seq<char>
    decreases value,
{
    if value < 10 {
        seq![digit(value)]
    } else {
        decimal(value / 10).push(digit(value % 10))
    }
}

/// Appends the decimal numeral of `value` to `out`.
fn push_decimal(out: &mut String, value: usize)
    ensures
        final(out)@ == old(out)@ + decimal(value as nat),
    decreases value,
{
    if value >= 10 {
        push_decimal(out, value / 10);
    }
    let low: u8 = (value % 10) as u8;
    out.push((48u8 + low) as char);
    assert(out@ =~= old(out)@ + decimal(value as nat));
}

/// The decimal numeral of `value`.
pub fn to_decimal(value: usize) -> (numeral: String)
    ensures
        numeral@ == decimal(value as nat),
{
    let mut numeral = String::new();
    push_decimal(&mut numeral, value);
    assert(numeral@ =~= decimal(value as nat));
    numeral
}

/// A program and the arguments it is started with.
#[derive(Debug)]
pub struct CommandLine {
    pub program: String,
    pub arguments: Vec<String>,
}

/// The replacements for one search result: its path under `file`, the
/// numeral of its line under `line`.
pub open spec fn result_replacements(file_path: Seq<char>, line_number: nat) -> Seq<
    (Seq<char>, Seq<char>),
> {
    seq![("file"@, file_path), ("line"@, decimal(line_number))]
}

/// The templates filled in one after the other, or the first fault.
pub open spec fn replaced_all(
    entries: Seq<(Seq<char>, Seq<char>)>,
    templates: Seq<Seq<char>>,
) -> Result<Seq<Seq<char>>, EditorError>
    decreases templates.len(),
{
    if templates.len() == 0 {
        Ok(Seq::empty())
    } else {
        match replaced_all(entries, templates.drop_last()) {
            Ok(filled) => match replaced(entries, templates.last()) {
                Ok(text) => Ok(filled.push(text)),
                Err(error) => Err(error),
            },
            Err(error) => Err(error),
        }
    }
}

/// The command that `editor` describes for a file and a line: `editor` is
/// split like a command line; its first word is the program, taken as it
/// is, and each further word is a template.
pub open spec fn command_for(editor: Seq<char>, file_path: Seq<char>, line_number: nat) -> Result<
    (Seq<char>, Seq<Seq<char>>),
    EditorError,
> {
    let words = parsed_args(editor);
    if words.len() == 0 {
        Err(EditorError::NoProgram)
    } else {
        match replaced_all(result_replacements(file_path, line_number), words.skip(1)) {
            Ok(arguments) => Ok((words[0], arguments)),
            Err(error) => Err(error),
        }
    }
}

/// Builds the command that opens `file_path` at `line_number` in the editor
/// that `editor` describes.
pub fn build_command(editor: &str, file_path: String, line_number: usize) -> (result: Result<
    CommandLine,
    EditorError,
>)
    ensures
        match result {
            Ok(command) => command_for(editor@, file_path@, line_number as nat) == Ok::<
                (Seq<char>, Seq<Seq<char>>),
                EditorError,
            >((command.program@, string_views(command.arguments@))),
            Err(error) => command_for(editor@, file_path@, line_number as nat) == Err::<
                (Seq<char>, Seq<Seq<char>>),
                EditorError,
            >(error),
        },
{
    let words = parse_args(editor);
    if words.len() == 0 {
        return Err(EditorError::NoProgram);
    }
    let mut replacements = Replacements::new();
    replacements.insert(String::from_str("file"), file_path);
    replacements.insert(String::from_str("line"), to_decimal(line_number));
    assert(replacements@ =~= result_replacements(file_path@, line_number as nat));
    let ghost templates = string_views(words@).skip(1);
    let mut arguments: Vec<String> = Vec::new();
    let mut i: usize = 1;
    proof {
        assert(string_views(arguments@) =~= Seq::empty());
        assert(templates.take(0) =~= Seq::empty());
    }
    while i < words.len()
        invariant
            1 <= i <= words@.len(),
            string_views(words@) == parsed_args(editor@),
            replacements@ == result_replacements(file_path@, line_number as nat),
            templates == string_views(words@).skip(1),
            replaced_all(replacements@, templates.take(i - 1)) == Ok::<
                Seq<Seq<char>>,
                EditorError,
            >(string_views(arguments@)),
        decreases words@.len() - i,
    {
        proof {
            assert(templates.take(i as int).drop_last() =~= templates.take(i - 1));
            assert(templates.take(i as int).last() == words@[i as int]@);
        }
        match replace(words[i].as_str(), &replacements) {
            Ok(text) => {
                let ghost before = arguments@;
                arguments.push(text);
                assert(string_views(arguments@) =~= string_views(before).push(text@));
            },
            Err(error) => {
                proof {
                    assert(replaced_all(replacements@, templates.take(i as int)) == Err::<
                        Seq<Seq<char>>,
                        EditorError,
                    >(error));
                    lemma_replaced_all_fails(replacements@, templates, i as int);
                }
                return Err(error);
            },
        }
        i += 1;
    }
    proof {
        assert(templates.take(i - 1) =~= templates);
    }
    Ok(CommandLine { program: words[0].clone(), arguments })
}

/// Once a prefix of the templates has a fault, the whole has that fault.
proof fn lemma_replaced_all_fails(
    entries: Seq<(Seq<char>, Seq<char>)>,
    templates: Seq<Seq<char>>,
    n: int,
)
    requires
        0 <= n <= templates.len(),
        replaced_all(entries, templates.take(n)) is Err,
    ensures
        replaced_all(entries, templates) == replaced_all(entries, templates.take(n)),
    decreases templates.len(),
{
    if n < templates.len() {
        assert(templates.drop_last().take(n) =~= templates.take(n));
        lemma_replaced_all_fails(entries, templates.drop_last(), n);
    } else {
        assert(templates.take(n) =~= templates);
    }
}

} // verus!
