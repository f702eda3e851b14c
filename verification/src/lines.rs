//! The characters of a text, its raw lines and their words.

use vstd::prelude::*;

verus! {

/// Whether a character has the Unicode property `White_Space`.
pub open spec fn spec_is_whitespace(c: char) -> bool {
    let code = c as u32;
    ||| 0x09 <= code <= 0x0d
    ||| code == 0x20
    ||| code == 0x85
    ||| code == 0xa0
    ||| code == 0x1680
    ||| 0x2000 <= code <= 0x200a
    ||| code == 0x2028
    ||| code == 0x2029
    ||| code == 0x202f
    ||| code == 0x205f
    ||| code == 0x3000
}

/// Whether a character has the Unicode property `White_Space`.
#[verifier::when_used_as_spec(spec_is_whitespace)]
pub fn is_whitespace(c: char) -> (white: bool)
    ensures
        white == spec_is_whitespace(c),
{
    let code = c as u32;
    (0x09 <= code && code <= 0x0d) || code == 0x20 || code == 0x85 || code == 0xa0 || code
        == 0x1680 || (0x2000 <= code && code <= 0x200a) || code == 0x2028 || code == 0x2029
        || code == 0x202f || code == 0x205f || code == 0x3000
}

/// The characters of a string.
pub fn chars_of(text: &str) -> (chars: Vec<char>)
    ensures
        chars@ == text@,
{
    let mut chars: Vec<char> = Vec::new();
    for c in it: text.chars()
        invariant
            it.seq() == text@,
            chars@ == it.seq().take(it.index() as int),
    {
        chars.push(c);
        assert(it.seq().take(it.index() + 1) =~= it.seq().take(it.index() as int).push(c));
    }
    assert(chars@ =~= text@);
    chars
}

/// The contents of a list of character vectors.
pub open spec fn texts_view(texts: Seq<Vec<char>>) -> Seq<Seq<char>> {
    texts.map_values(|text: Vec<char>| text@)
}

/// The raw lines of a text: what stands between its newlines. A text with
/// `n` newlines has `n + 1` raw lines, some of them possibly empty.
pub open spec fn raw_lines(text: Seq<char>) -> Seq<Seq<char>>
    decreases text.len(),
{
    if text.len() == 0 {
        seq![seq![]]
    } else {
        let before = raw_lines(text.drop_last());
        if text.last() == '\n' {
            before.push(seq![])
        } else {
            before.drop_last().push(before.last().push(text.last()))
        }
    }
}

/// How often `c` occurs in `text`.
pub open spec fn occurrences(text: Seq<char>, c: char) -> nat
    decreases text.len(),
{
    if text.len() == 0 {
        0
    } else {
        occurrences(text.drop_last(), c) + if text.last() == c {
            1nat
        } else {
            0nat
        }
    }
}

/// `lines`, each but the last followed by a newline, in one sequence.
pub open spec fn joined(lines: Seq<Seq<char>>) -> Seq<char>
    decreases lines.len(),
{
    if lines.len() == 0 {
        seq![]
    } else if lines.len() == 1 {
        lines[0]
    } else {
        joined(lines.drop_last()) + seq!['\n'] + lines.last()
    }
}

/// There is one raw line more than there are newlines, no raw line holds a
/// newline, and the raw lines joined by newlines are the text.
pub proof fn lemma_raw_lines(text: Seq<char>)
    ensures
        raw_lines(text).len() == occurrences(text, '\n') + 1,
        forall|i: int, j: int|
            0 <= i < raw_lines(text).len() && 0 <= j < raw_lines(text)[i].len()
                ==> raw_lines(text)[i][j] != '\n',
        joined(raw_lines(text)) == text,
    decreases text.len(),
{
    if text.len() == 0 {
        assert(joined(raw_lines(text)) =~= text);
    } else {
        let before = raw_lines(text.drop_last());
        lemma_raw_lines(text.drop_last());
        if text.last() == '\n' {
            let lines = before.push(seq![]);
            assert(lines.drop_last() =~= before);
            assert(joined(lines) =~= text);
        } else {
            let line = before.last().push(text.last());
            let lines = before.drop_last().push(line);
            assert(lines.drop_last() =~= before.drop_last());
            if before.len() == 1 {
                assert(joined(lines) =~= text);
            } else {
                assert(joined(lines) =~= joined(before).push(text.last()));
                assert(joined(lines) =~= text);
            }
        }
    }
}

/// Splits a text at its newlines.
pub fn split_lines(text: &[char]) -> (lines: Vec<Vec<char>>)
    ensures
        texts_view(lines@) == raw_lines(text@),
{
    let mut lines: Vec<Vec<char>> = Vec::new();
    let mut current: Vec<char> = Vec::new();
    let mut i: usize = 0;
    assert(texts_view(lines@).push(current@) =~= raw_lines(text@.take(0)));
    while i < text.len()
        invariant
            i <= text.len(),
            texts_view(lines@).push(current@) == raw_lines(text@.take(i as int)),
        decreases text.len() - i,
    {
        let c = text[i];
        proof {
            assert(text@.take(i + 1).drop_last() =~= text@.take(i as int));
            assert(texts_view(lines@).push(current@).drop_last() =~= texts_view(lines@));
        }
        if c == '\n' {
            let ghost done = texts_view(lines@).push(current@);
            lines.push(current);
            current = Vec::new();
            assert(texts_view(lines@) =~= done);
        } else {
            current.push(c);
        }
        i += 1;
    }
    assert(text@.take(i as int) =~= text@);
    let ghost done = texts_view(lines@).push(current@);
    lines.push(current);
    assert(texts_view(lines@) =~= done);
    lines
}

/// The words read so far and the word being read, after a scan of `line`
/// from its start.
pub open spec fn scanned(line: Seq<char>) -> (Seq<Seq<char>>, Seq<char>)
    decreases line.len(),
{
    if line.len() == 0 {
        (seq![], seq![])
    } else {
        let (words, word) = scanned(line.drop_last());
        if !is_whitespace(line.last()) {
            (words, word.push(line.last()))
        } else if word.len() > 0 {
            (words.push(word), seq![])
        } else {
            (words, word)
        }
    }
}

/// The words of a line: its maximal runs of characters that are not white
/// space, in order.
pub open spec fn words_of(line: Seq<char>) -> Seq<Seq<char>> {
    let (words, word) = scanned(line);
    if word.len() > 0 {
        words.push(word)
    } else {
        words
    }
}

/// No word is empty and no word holds white space.
pub proof fn lemma_words_are_solid(line: Seq<char>)
    ensures
        forall|i: int|
            0 <= i < words_of(line).len() ==> (#[trigger] words_of(line)[i]).len() > 0,
        forall|i: int, j: int|
            0 <= i < words_of(line).len() && 0 <= j < words_of(line)[i].len() ==> !is_whitespace(
                words_of(line)[i][j],
            ),
    decreases line.len(),
{
    if line.len() > 0 {
        lemma_words_are_solid(line.drop_last());
        let (words, word) = scanned(line.drop_last());
        assert(forall|i: int| 0 <= i < words.len() ==> words[i] == words_of(line.drop_last())[i]);
        if word.len() > 0 {
            assert(word == words_of(line.drop_last())[words.len() as int]);
        }
    }
}

/// A line of white space only has no words.
pub proof fn lemma_blank_line_has_no_words(line: Seq<char>)
    requires
        forall|j: int| 0 <= j < line.len() ==> is_whitespace(line[j]),
    ensures
        scanned(line) == (Seq::<Seq<char>>::empty(), Seq::<char>::empty()),
        words_of(line).len() == 0,
    decreases line.len(),
{
    if line.len() > 0 {
        lemma_blank_line_has_no_words(line.drop_last());
    }
}

/// Splits a line into its words.
pub fn split_words(line: &[char]) -> (words: Vec<Vec<char>>)
    ensures
        texts_view(words@) == words_of(line@),
{
    let mut words: Vec<Vec<char>> = Vec::new();
    let mut word: Vec<char> = Vec::new();
    let mut i: usize = 0;
    assert(texts_view(words@) =~= scanned(line@.take(0)).0);
    while i < line.len()
        invariant
            i <= line.len(),
            (texts_view(words@), word@) == scanned(line@.take(i as int)),
        decreases line.len() - i,
    {
        let c = line[i];
        proof {
            assert(line@.take(i + 1).drop_last() =~= line@.take(i as int));
        }
        if !is_whitespace(c) {
            word.push(c);
        } else if word.len() > 0 {
            let ghost done = texts_view(words@).push(word@);
            words.push(word);
            word = Vec::new();
            assert(texts_view(words@) =~= done);
        }
        i += 1;
    }
    assert(line@.take(i as int) =~= line@);
    if word.len() > 0 {
        let ghost done = texts_view(words@).push(word@);
        words.push(word);
        assert(texts_view(words@) =~= done);
    }
    words
}

} // verus!
