//! Greedy line wrapping.
//!
//! A text is split at its newlines into raw lines. Where lines wrap, every
//! raw line is split into words and the words are put on visual lines, one
//! space apart, as long as the line stays within the wrapping width. The
//! breaker decides where lines break; the widths it decides on are measured
//! and added up by the embedding program.

use crate::ieee::le;
use crate::ieee::ZERO;
use crate::lines::is_whitespace;
use crate::lines::lemma_raw_lines;
use crate::lines::lemma_words_are_solid;
use crate::lines::occurrences;
use crate::lines::raw_lines;
use crate::lines::scanned;
use crate::lines::words_of;
use crate::text::wraps;
use vstd::prelude::*;
use vstd::slice::slice_to_vec;

verus! {

/// One visual line: its characters and its measured width.
#[derive(Clone, Debug, PartialEq, Eq)]
pub struct LineLayout {
    pub text: Vec<char>,
    pub width: u32,
}

/// Mathematical value of a [`LineLayout`].
pub ghost struct LineView {
    pub text: Seq<char>,
    pub width: u32,
}

impl View for LineLayout {
    type V = LineView;

    open spec fn view(&self) -> LineView {
        LineView { text: self.text@, width: self.width }
    }
}

/// The values of a list of lines, in order.
pub open spec fn lines_view(lines: Seq<LineLayout>) -> Seq<LineView> {
    lines.map_values(|line: LineLayout| line@)
}

/// Greedy line breaking, one word at a time.
///
/// The breaker holds the lines that are finished and the line that is being
/// filled. The caller measures each word, works out how wide the line would
/// be with the word added to it, and hands both over; the breaker decides
/// whether the word still fits.
#[derive(Debug)]
pub struct LineBreaker {
    pub max_width: u32,
    pub lines: Vec<LineLayout>,
    pub current: Vec<char>,
    pub current_width: u32,
}

/// Mathematical value of a [`LineBreaker`].
pub ghost struct BreakerView {
    pub max_width: u32,
    pub lines: Seq<LineView>,
    pub current: Seq<char>,
    pub current_width: u32,
}

impl View for LineBreaker {
    type V = BreakerView;

    open spec fn view(&self) -> BreakerView {
        BreakerView {
            max_width: self.max_width,
            lines: lines_view(self.lines@),
            current: self.current@,
            current_width: self.current_width,
        }
    }
}

impl BreakerView {
    /// No line is finished and the line being filled is empty.
    pub open spec fn start(max_width: u32) -> Self {
        BreakerView { max_width, lines: seq![], current: seq![], current_width: ZERO }
    }

    /// The state after a word was placed. The first word of a line starts
    /// it. A later word joins the line, behind one space, if the line so
    /// extended is no wider than the wrapping width; else the line is
    /// finished as it is and the word starts the next one. A word is never
    /// split, however wide it is.
    pub open spec fn placed(self, word: Seq<char>, word_width: u32, extended_width: u32) -> Self {
        if self.current.len() == 0 {
            BreakerView { current: word, current_width: word_width, ..self }
        } else if le(extended_width, self.max_width) {
            BreakerView {
                current: self.current + seq![' '] + word,
                current_width: extended_width,
                ..self
            }
        } else {
            BreakerView {
                lines: self.lines.push(
                    LineView { text: self.current, width: self.current_width },
                ),
                current: word,
                current_width: word_width,
                ..self
            }
        }
    }

    /// The state at the end of a raw line: the line being filled is
    /// finished, empty or not, and a new one begins.
    pub open spec fn line_ended(self) -> Self {
        BreakerView {
            lines: self.lines.push(LineView { text: self.current, width: self.current_width }),
            current: seq![],
            current_width: ZERO,
            ..self
        }
    }

    /// The state after a whole line was added as it is.
    pub open spec fn line_pushed(self, text: Seq<char>, width: u32) -> Self {
        BreakerView { lines: self.lines.push(LineView { text, width }), ..self }
    }

    /// Every finished line from the one numbered `first` on, and the line
    /// being filled, is no wider than the wrapping width.
    pub open spec fn fit_from(self, first: int) -> bool {
        &&& forall|i: int|
            first <= i < self.lines.len() ==> le(
                (#[trigger] self.lines[i]).width,
                self.max_width,
            )
        &&& le(self.current_width, self.max_width)
    }

    /// Whether the finished lines are those of `before` and lines behind
    /// them.
    pub open spec fn extends(self, before: Self) -> bool {
        &&& self.max_width == before.max_width
        &&& self.lines.len() >= before.lines.len()
        &&& forall|i: int| 0 <= i < before.lines.len() ==> self.lines[i] == before.lines[i]
    }

    /// A raw line is about to begin: the line being filled is empty and has
    /// no width.
    pub open spec fn at_line_start(self) -> bool {
        self.current.len() == 0 && self.current_width == ZERO
    }

    /// The state after the words of one raw line were placed in order, each
    /// measured by `measure`, the extended width worked out by `extend` from
    /// the width of the line so far and that of the word.
    pub open spec fn words_placed(
        self,
        words: Seq<Seq<char>>,
        measure: spec_fn(Seq<char>) -> u32,
        extend: spec_fn(u32, u32) -> u32,
    ) -> Self
        decreases words.len(),
    {
        if words.len() == 0 {
            self
        } else {
            let before = self.words_placed(words.drop_last(), measure, extend);
            let width = measure(words.last());
            before.placed(words.last(), width, extend(before.current_width, width))
        }
    }

    /// The state after raw lines were wrapped in order.
    pub open spec fn lines_wrapped(
        self,
        raw: Seq<Seq<char>>,
        measure: spec_fn(Seq<char>) -> u32,
        extend: spec_fn(u32, u32) -> u32,
    ) -> Self
        decreases raw.len(),
    {
        if raw.len() == 0 {
            self
        } else {
            self.lines_wrapped(raw.drop_last(), measure, extend).words_placed(
                words_of(raw.last()),
                measure,
                extend,
            ).line_ended()
        }
    }
}

/// The visual lines of a text. Where lines wrap, every raw line is broken
/// greedily between its words; else every raw line is one visual line, as
/// wide as it measures.
pub open spec fn wrapped(
    text: Seq<char>,
    max_width: u32,
    measure: spec_fn(Seq<char>) -> u32,
    extend: spec_fn(u32, u32) -> u32,
) -> Seq<LineView> {
    if wraps(max_width) {
        BreakerView::start(max_width).lines_wrapped(raw_lines(text), measure, extend).lines
    } else {
        raw_lines(text).map_values(|line: Seq<char>| LineView { text: line, width: measure(line) })
    }
}

/// Whether `measure` finds every word of every line of `raw` no wider than
/// `max_width`.
pub open spec fn words_fit(
    raw: Seq<Seq<char>>,
    max_width: u32,
    measure: spec_fn(Seq<char>) -> u32,
) -> bool {
    forall|i: int, j: int|
        0 <= i < raw.len() && 0 <= j < words_of(raw[i]).len() ==> le(
            measure(#[trigger] words_of(raw[i])[j]),
            max_width,
        )
}

/// Whether a word is not empty and holds no white space.
pub open spec fn is_solid(word: Seq<char>) -> bool {
    word.len() > 0 && forall|j: int| 0 <= j < word.len() ==> !is_whitespace(word[j])
}

/// The words of the lines of `lines`, in order.
pub open spec fn words_of_lines(lines: Seq<LineView>) -> Seq<Seq<char>>
    decreases lines.len(),
{
    if lines.len() == 0 {
        seq![]
    } else {
        words_of_lines(lines.drop_last()) + words_of(lines.last().text)
    }
}

/// The words of the texts of `texts`, in order.
pub open spec fn words_of_texts(texts: Seq<Seq<char>>) -> Seq<Seq<char>>
    decreases texts.len(),
{
    if texts.len() == 0 {
        seq![]
    } else {
        words_of_texts(texts.drop_last()) + words_of(texts.last())
    }
}

proof fn lemma_scan_past_solid(line: Seq<char>, word: Seq<char>)
    requires
        forall|j: int| 0 <= j < word.len() ==> !is_whitespace(word[j]),
    ensures
        scanned(line + word) == (scanned(line).0, scanned(line).1 + word),
    decreases word.len(),
{
    if word.len() == 0 {
        assert(line + word =~= line);
        assert(scanned(line).1 + word =~= scanned(line).1);
    } else {
        lemma_scan_past_solid(line, word.drop_last());
        assert((line + word).drop_last() =~= line + word.drop_last());
        assert((scanned(line).1 + word.drop_last()).push(word.last()) =~= scanned(line).1 + word);
    }
}

/// A solid word is its own only word, and behind a line and one space it is
/// one word more.
pub proof fn lemma_words_of_joined(line: Seq<char>, word: Seq<char>)
    requires
        is_solid(word),
    ensures
        words_of(word) == seq![word],
        words_of(line + seq![' '] + word) == words_of(line).push(word),
{
    lemma_scan_past_solid(seq![], word);
    assert(Seq::<char>::empty() + word =~= word);
    let spaced = line + seq![' '];
    assert(spaced.drop_last() =~= line);
    assert(scanned(spaced) == (words_of(line), Seq::<char>::empty()));
    lemma_scan_past_solid(spaced, word);
    assert(Seq::<char>::empty() + word =~= word);
}

proof fn lemma_placed_keeps_words(
    breaker: BreakerView,
    word: Seq<char>,
    word_width: u32,
    extended_width: u32,
)
    requires
        is_solid(word),
    ensures
        words_of_lines(breaker.placed(word, word_width, extended_width).lines) + words_of(
            breaker.placed(word, word_width, extended_width).current,
        ) == (words_of_lines(breaker.lines) + words_of(breaker.current)).push(word),
{
    let after = breaker.placed(word, word_width, extended_width);
    lemma_words_of_joined(breaker.current, word);
    if breaker.current.len() == 0 {
        assert(words_of_lines(breaker.lines) + words_of(breaker.current) =~= words_of_lines(
            breaker.lines,
        ));
        assert(words_of_lines(after.lines) + seq![word] =~= words_of_lines(breaker.lines).push(
            word,
        ));
    } else if le(extended_width, breaker.max_width) {
        assert(words_of_lines(after.lines) + words_of(breaker.current).push(word) =~= (
        words_of_lines(breaker.lines) + words_of(breaker.current)).push(word));
    } else {
        assert(after.lines.drop_last() =~= breaker.lines);
        assert(words_of_lines(after.lines) + seq![word] =~= (words_of_lines(breaker.lines)
            + words_of(breaker.current)).push(word));
    }
}

proof fn lemma_words_placed_keep_words(
    breaker: BreakerView,
    words: Seq<Seq<char>>,
    measure: spec_fn(Seq<char>) -> u32,
    extend: spec_fn(u32, u32) -> u32,
)
    requires
        forall|j: int| 0 <= j < words.len() ==> is_solid(#[trigger] words[j]),
    ensures
        words_of_lines(breaker.words_placed(words, measure, extend).lines) + words_of(
            breaker.words_placed(words, measure, extend).current,
        ) == words_of_lines(breaker.lines) + words_of(breaker.current) + words,
    decreases words.len(),
{
    let start = words_of_lines(breaker.lines) + words_of(breaker.current);
    if words.len() == 0 {
        assert(start + words =~= start);
    } else {
        lemma_words_placed_keep_words(breaker, words.drop_last(), measure, extend);
        let before = breaker.words_placed(words.drop_last(), measure, extend);
        let width = measure(words.last());
        assert(is_solid(words[words.len() - 1]));
        lemma_placed_keeps_words(
            before,
            words.last(),
            width,
            extend(before.current_width, width),
        );
        assert((start + words.drop_last()).push(words.last()) =~= start + words);
    }
}

proof fn lemma_lines_wrapped_keep_words(
    breaker: BreakerView,
    raw: Seq<Seq<char>>,
    measure: spec_fn(Seq<char>) -> u32,
    extend: spec_fn(u32, u32) -> u32,
)
    requires
        breaker.current.len() == 0,
    ensures
        breaker.lines_wrapped(raw, measure, extend).current.len() == 0,
        words_of_lines(breaker.lines_wrapped(raw, measure, extend).lines) == words_of_lines(
            breaker.lines,
        ) + words_of_texts(raw),
        breaker.lines_wrapped(raw, measure, extend).lines.len() >= breaker.lines.len()
            + raw.len(),
    decreases raw.len(),
{
    if raw.len() == 0 {
        assert(words_of_lines(breaker.lines) + words_of_texts(raw) =~= words_of_lines(
            breaker.lines,
        ));
    } else {
        lemma_lines_wrapped_keep_words(breaker, raw.drop_last(), measure, extend);
        let before = breaker.lines_wrapped(raw.drop_last(), measure, extend);
        let words = words_of(raw.last());
        lemma_words_are_solid(raw.last());
        lemma_words_placed_keep_words(before, words, measure, extend);
        lemma_words_placed_grow(before, words, measure, extend);
        let filled = before.words_placed(words, measure, extend);
        let ended = filled.line_ended();
        assert(ended.lines.drop_last() =~= filled.lines);
        assert(words_of_lines(before.lines) + words_of(before.current) =~= words_of_lines(
            before.lines,
        ));
        assert(words_of_lines(breaker.lines) + words_of_texts(raw.drop_last()) + words
            =~= words_of_lines(breaker.lines) + words_of_texts(raw));
    }
}

proof fn lemma_words_placed_grow(
    breaker: BreakerView,
    words: Seq<Seq<char>>,
    measure: spec_fn(Seq<char>) -> u32,
    extend: spec_fn(u32, u32) -> u32,
)
    ensures
        breaker.words_placed(words, measure, extend).lines.len() >= breaker.lines.len(),
    decreases words.len(),
{
    if words.len() > 0 {
        lemma_words_placed_grow(breaker, words.drop_last(), measure, extend);
    }
}

/// Wrapping neither loses nor adds a word, and gives every raw line at
/// least one visual line: the words of the visual lines, in order, are the
/// words of the raw lines.
pub proof fn lemma_wrapping_keeps_words(
    text: Seq<char>,
    max_width: u32,
    measure: spec_fn(Seq<char>) -> u32,
    extend: spec_fn(u32, u32) -> u32,
)
    requires
        wraps(max_width),
    ensures
        words_of_lines(wrapped(text, max_width, measure, extend)) == words_of_texts(
            raw_lines(text),
        ),
        wrapped(text, max_width, measure, extend).len() >= raw_lines(text).len(),
{
    let start = BreakerView::start(max_width);
    lemma_lines_wrapped_keep_words(start, raw_lines(text), measure, extend);
    assert(words_of_lines(start.lines) + words_of_texts(raw_lines(text)) =~= words_of_texts(
        raw_lines(text),
    ));
}

/// Placing a word that fits keeps the lines fitting, and keeps the lines
/// that were finished before.
pub proof fn lemma_placed_fits(
    breaker: BreakerView,
    first: int,
    word: Seq<char>,
    word_width: u32,
    extended_width: u32,
)
    requires
        0 <= first,
        breaker.fit_from(first),
        le(word_width, breaker.max_width),
    ensures
        breaker.placed(word, word_width, extended_width).fit_from(first),
        breaker.placed(word, word_width, extended_width).extends(breaker),
{
}

/// Ending a line keeps the lines fitting, and keeps the lines that were
/// finished before.
pub proof fn lemma_line_ended_fits(breaker: BreakerView, first: int)
    requires
        0 <= first,
        breaker.fit_from(first),
        wraps(breaker.max_width),
    ensures
        breaker.line_ended().fit_from(first),
        breaker.line_ended().extends(breaker),
        breaker.line_ended().at_line_start(),
        breaker.line_ended().lines.len() > breaker.lines.len(),
{
}

proof fn lemma_words_placed_fit(
    breaker: BreakerView,
    first: int,
    words: Seq<Seq<char>>,
    measure: spec_fn(Seq<char>) -> u32,
    extend: spec_fn(u32, u32) -> u32,
)
    requires
        0 <= first,
        breaker.fit_from(first),
        forall|j: int| 0 <= j < words.len() ==> le(measure(#[trigger] words[j]), breaker.max_width),
    ensures
        breaker.words_placed(words, measure, extend).fit_from(first),
        breaker.words_placed(words, measure, extend).extends(breaker),
    decreases words.len(),
{
    if words.len() > 0 {
        lemma_words_placed_fit(breaker, first, words.drop_last(), measure, extend);
        let before = breaker.words_placed(words.drop_last(), measure, extend);
        let width = measure(words.last());
        assert(words.last() == words[words.len() - 1]);
        lemma_placed_fits(before, first, words.last(), width, extend(before.current_width, width));
    }
}

/// Where lines wrap, a raw line none of whose words is wider than the
/// wrapping width gives visual lines none of which is wider than it,
/// whatever the words measure, however widths add up and whatever came
/// before. It gives at least one line and leaves the earlier lines as they
/// are.
pub proof fn lemma_wrapped_raw_line_fits(
    breaker: BreakerView,
    line: Seq<char>,
    measure: spec_fn(Seq<char>) -> u32,
    extend: spec_fn(u32, u32) -> u32,
)
    requires
        wraps(breaker.max_width),
        breaker.at_line_start(),
        forall|j: int|
            0 <= j < words_of(line).len() ==> le(
                measure(#[trigger] words_of(line)[j]),
                breaker.max_width,
            ),
    ensures
        ({
            let after = breaker.words_placed(words_of(line), measure, extend).line_ended();
            &&& after.extends(breaker)
            &&& after.lines.len() > breaker.lines.len()
            &&& after.fit_from(breaker.lines.len() as int)
            &&& after.at_line_start()
        }),
{
    let first = breaker.lines.len() as int;
    lemma_words_placed_fit(breaker, first, words_of(line), measure, extend);
    lemma_line_ended_fits(breaker.words_placed(words_of(line), measure, extend), first);
}

proof fn lemma_lines_wrapped_fit(
    breaker: BreakerView,
    raw: Seq<Seq<char>>,
    measure: spec_fn(Seq<char>) -> u32,
    extend: spec_fn(u32, u32) -> u32,
)
    requires
        breaker.fit_from(0),
        wraps(breaker.max_width),
        words_fit(raw, breaker.max_width, measure),
    ensures
        breaker.lines_wrapped(raw, measure, extend).fit_from(0),
        breaker.lines_wrapped(raw, measure, extend).max_width == breaker.max_width,
    decreases raw.len(),
{
    if raw.len() > 0 {
        assert(words_fit(raw.drop_last(), breaker.max_width, measure)) by {
            assert(forall|i: int| 0 <= i < raw.len() - 1 ==> raw.drop_last()[i] == raw[i]);
        }
        lemma_lines_wrapped_fit(breaker, raw.drop_last(), measure, extend);
        let before = breaker.lines_wrapped(raw.drop_last(), measure, extend);
        assert(raw.last() == raw[raw.len() - 1]);
        lemma_words_placed_fit(before, 0, words_of(raw.last()), measure, extend);
        lemma_line_ended_fits(before.words_placed(words_of(raw.last()), measure, extend), 0);
    }
}

/// Where lines wrap and no word is wider than the wrapping width, no visual
/// line is wider than the wrapping width, whatever the words measure and
/// however widths add up.
pub proof fn lemma_wrapped_lines_fit(
    text: Seq<char>,
    max_width: u32,
    measure: spec_fn(Seq<char>) -> u32,
    extend: spec_fn(u32, u32) -> u32,
)
    requires
        wraps(max_width),
        words_fit(raw_lines(text), max_width, measure),
    ensures
        forall|i: int|
            0 <= i < wrapped(text, max_width, measure, extend).len() ==> le(
                (#[trigger] wrapped(text, max_width, measure, extend)[i]).width,
                max_width,
            ),
{
    lemma_lines_wrapped_fit(BreakerView::start(max_width), raw_lines(text), measure, extend);
}

/// Where lines do not wrap, there is one visual line for every raw line:
/// one more than the text has newlines, each holding its raw line
/// unchanged.
pub proof fn lemma_unwrapped_lines_are_raw_lines(
    text: Seq<char>,
    max_width: u32,
    measure: spec_fn(Seq<char>) -> u32,
    extend: spec_fn(u32, u32) -> u32,
)
    requires
        !wraps(max_width),
    ensures
        wrapped(text, max_width, measure, extend).len() == occurrences(text, '\n') + 1,
        forall|i: int|
            0 <= i < raw_lines(text).len() ==> (#[trigger] wrapped(
                text,
                max_width,
                measure,
                extend,
            )[i]).text == raw_lines(text)[i],
{
    lemma_raw_lines(text);
}

/// Appends the characters of `more` to `text`.
fn append_chars(text: &mut Vec<char>, more: &[char])
    ensures
        final(text)@ == old(text)@ + more@,
{
    let mut i: usize = 0;
    assert(text@ =~= old(text)@ + more@.take(0));
    while i < more.len()
        invariant
            i <= more.len(),
            text@ == old(text)@ + more@.take(i as int),
        decreases more.len() - i,
    {
        text.push(more[i]);
        assert(text@ =~= old(text)@ + more@.take(i + 1));
        i += 1;
    }
    assert(more@.take(i as int) =~= more@);
}

impl LineBreaker {
    /// A breaker with no line yet, for the given wrapping width.
    pub fn new(max_width: u32) -> (breaker: Self)
        ensures
            breaker@ == BreakerView::start(max_width),
    {
        let breaker = LineBreaker {
            max_width,
            lines: Vec::new(),
            current: Vec::new(),
            current_width: ZERO,
        };
        assert(breaker@.lines =~= seq![]);
        breaker
    }

    /// Places the next word of the raw line. `word_width` is the measured
    /// width of the word; `extended_width` is that of the line being filled
    /// with one space and the word added.
    pub fn place_word(&mut self, word: &[char], word_width: u32, extended_width: u32)
        ensures
            final(self)@ == old(self)@.placed(word@, word_width, extended_width),
    {
        if self.current.len() == 0 {
            self.current = slice_to_vec(word);
            self.current_width = word_width;
        } else if le(extended_width, self.max_width) {
            self.current.push(' ');
            append_chars(&mut self.current, word);
            self.current_width = extended_width;
            assert(self.current@ =~= old(self).current@ + seq![' '] + word@);
        } else {
            let mut text = slice_to_vec(word);
            std::mem::swap(&mut self.current, &mut text);
            let ghost done = lines_view(self.lines@).push(
                LineView { text: text@, width: self.current_width },
            );
            self.lines.push(LineLayout { text, width: self.current_width });
            self.current_width = word_width;
            assert(lines_view(self.lines@) =~= done);
        }
    }

    /// Ends the raw line: the line being filled is finished, even if it is
    /// empty.
    pub fn end_line(&mut self)
        ensures
            final(self)@ == old(self)@.line_ended(),
    {
        let mut text: Vec<char> = Vec::new();
        std::mem::swap(&mut self.current, &mut text);
        let ghost done = lines_view(self.lines@).push(
            LineView { text: text@, width: self.current_width },
        );
        self.lines.push(LineLayout { text, width: self.current_width });
        self.current_width = ZERO;
        assert(lines_view(self.lines@) =~= done);
    }

    /// Adds a raw line as one visual line of the given width.
    pub fn push_line(&mut self, text: &[char], width: u32)
        ensures
            final(self)@ == old(self)@.line_pushed(text@, width),
    {
        let ghost done = lines_view(self.lines@).push(LineView { text: text@, width });
        self.lines.push(LineLayout { text: slice_to_vec(text), width });
        assert(lines_view(self.lines@) =~= done);
    }

    /// The finished lines.
    pub fn finish(self) -> (lines: Vec<LineLayout>)
        ensures
            lines_view(lines@) == self@.lines,
    {
        self.lines
    }
}

} // verus!
