//! Character-level helpers shared by the parsers of this crate.

use vstd::prelude::*;

verus! {

/// `String::push` appends one character to the end of the string.
pub assume_specification[ String::push ](s: &mut String, c: char)
    ensures
        final(s)@ == old(s)@.push(c),
;

/// The views of a sequence of strings.
pub open spec fn string_views(strings: Seq<String>) -> Seq<Seq<char>> {
    strings.map_values(|s: String| s@)
}

/// The pieces that `separator` cuts `text` into, empty ones included: one
/// more piece than `text` holds separators.
pub open spec fn fields(text: Seq<char>, separator: char) -> Seq<Seq<char>>
    decreases text.len(),
{
    if text.len() == 0 {
        seq![Seq::empty()]
    } else {
        let before = fields(text.drop_last(), separator);
        if text.last() == separator {
            before.push(Seq::empty())
        } else {
            before.drop_last().push(before.last().push(text.last()))
        }
    }
}

/// The test for a piece that holds at least one character.
pub open spec fn is_nonempty() -> spec_fn(Seq<char>) -> bool {
    |piece: Seq<char>| piece.len() > 0
}

/// The non-empty pieces that `separator` cuts `text` into, in order.
pub open spec fn tokens(text: Seq<char>, separator: char) -> Seq<Seq<char>> {
    fields(text, separator).filter(is_nonempty())
}

/// A text is never cut into zero pieces.
pub proof fn lemma_fields_nonempty(text: Seq<char>, separator: char)
    ensures
        fields(text, separator).len() > 0,
    decreases text.len(),
{
    if text.len() > 0 {
        lemma_fields_nonempty(text.drop_last(), separator);
    }
}

/// No piece holds the separator.
pub proof fn lemma_fields_hold_no_separator(text: Seq<char>, separator: char)
    ensures
        forall|i: int, j: int|
            0 <= i < fields(text, separator).len() && 0 <= j < fields(text, separator)[i].len()
                ==> (#[trigger] fields(text, separator)[i][j]) != separator,
    decreases text.len(),
{
    if text.len() > 0 {
        lemma_fields_hold_no_separator(text.drop_last(), separator);
        lemma_fields_nonempty(text.drop_last(), separator);
    }
}

/// Every token holds at least one character, and none holds the separator.
pub proof fn lemma_tokens_are_words(text: Seq<char>, separator: char)
    ensures
        forall|i: int|
            0 <= i < tokens(text, separator).len() ==> (#[trigger] tokens(
                text,
                separator,
            )[i]).len() > 0 && !tokens(text, separator)[i].contains(separator),
{
    let pieces = fields(text, separator);
    let words = tokens(text, separator);
    lemma_fields_hold_no_separator(text, separator);
    assert forall|i: int| 0 <= i < words.len() implies (#[trigger] words[i]).len() > 0
        && !words[i].contains(separator) by {
        pieces.lemma_filter_pred(is_nonempty(), i);
        pieces.lemma_filter_contains_rev(is_nonempty(), words[i]);
        let k = choose|k: int| 0 <= k < pieces.len() && pieces[k] == words[i];
        if words[i].contains(separator) {
            let j = choose|j: int| 0 <= j < words[i].len() && words[i][j] == separator;
            assert(pieces[k][j] == separator);
        }
    }
}

/// Cuts `text` at every `separator` and keeps the pieces that are not empty.
pub fn split_nonempty(text: &str, separator: char) -> (pieces: Vec<String>)
    ensures
        string_views(pieces@) == tokens(text@, separator),
{
    let mut pieces: Vec<String> = Vec::new();
    let mut current = String::new();
    proof {
        assert(string_views(pieces@) =~= Seq::empty());
        assert(fields(text@.take(0), separator).drop_last() =~= Seq::empty());
        Seq::<Seq<char>>::empty().lemma_all_neg_filter_empty(is_nonempty());
    }
    for c in it: text.chars()
        invariant
            it.seq() == text@,
            fields(text@.take(it.index() as int), separator).len() > 0,
            current@ == fields(text@.take(it.index() as int), separator).last(),
            string_views(pieces@) == fields(
                text@.take(it.index() as int),
                separator,
            ).drop_last().filter(is_nonempty()),
    {
        let ghost seen = text@.take(it.index() as int);
        let ghost next = text@.take(it.index() as int + 1);
        proof {
            assert(next.drop_last() =~= seen);
            assert(next.last() == c);
            lemma_fields_nonempty(next, separator);
        }
        if c == separator {
            let ghost closed = fields(seen, separator);
            proof {
                assert(fields(next, separator).drop_last() =~= closed);
                assert(closed =~= closed.drop_last().push(closed.last()));
                closed.drop_last().lemma_filter_push(closed.last(), is_nonempty());
            }
            if !current.as_str().is_empty() {
                let ghost before = pieces@;
                pieces.push(current);
                assert(string_views(pieces@) =~= string_views(before).push(closed.last()));
            }
            current = String::new();
        } else {
            current.push(c);
            assert(fields(next, separator).drop_last() =~= fields(seen, separator).drop_last());
        }
    }
    proof {
        assert(text@.take(text@.len() as int) =~= text@);
        let all = fields(text@, separator);
        assert(all =~= all.drop_last().push(all.last()));
        all.drop_last().lemma_filter_push(all.last(), is_nonempty());
    }
    if !current.as_str().is_empty() {
        let ghost before = pieces@;
        pieces.push(current);
        assert(string_views(pieces@) =~= string_views(before).push(current@));
    }
    pieces
}

} // verus!
