//! Text with runs of different styles.

use crate::chars::{byte_slice, cut_at, joined, lemma_byte_slice_split};
use crate::pixels::{Bounds, Pixels, Size};
use crate::text_layout::{
    laid_out, LayoutRequest, ShapedText, TextLayout, TextLayoutView, TruncateFrom,
};
use std::ops::Range;
use vstd::prelude::*;
use vstd::utf8::encode_utf8;

verus! {

/// A run of text in one style: the default style, highlighted or not.
#[derive(Debug, PartialEq, Eq)]
pub struct TextRun<S, H> {
    /// How many bytes the run has.
    pub len: usize,
    /// The default style.
    pub style: S,
    /// What highlights it.
    pub highlight: Option<H>,
}

/// Where a run ends: after all the bytes of the first `n` runs.
pub open spec fn run_end<S, H>(runs: Seq<TextRun<S, H>>, n: int) -> nat
    decreases n,
{
    if n <= 0 {
        0
    } else {
        run_end(runs, n - 1) + runs[n - 1].len as nat
    }
}

/// Whether runs make up a text: each ends at a character boundary, and the last one at
/// the end.
pub open spec fn runs_make_up<S, H>(text: Seq<char>, runs: Seq<TextRun<S, H>>) -> bool {
    &&& forall|i: int| 0 <= i <= runs.len() ==> cut_at(text, #[trigger] run_end(runs, i) as int)
    &&& run_end(runs, runs.len() as int) == encode_utf8(text).len()
}

/// How many bytes a range has: none where it ends before it starts.
pub open spec fn range_len(range: Range<usize>) -> usize {
    if range.start < range.end {
        (range.end - range.start) as usize
    } else {
        0
    }
}

/// Where the last of some highlights ends.
pub open spec fn highlights_end<H>(highlights: Seq<(Range<usize>, H)>) -> usize {
    if highlights.len() == 0 {
        0
    } else {
        highlights.last().0.end
    }
}

/// The run in the default style between two places, unless there is no room for one.
pub open spec fn gap<S, H>(style: S, from: usize, to: usize) -> Seq<TextRun<S, H>> {
    if from < to {
        seq![TextRun { len: (to - from) as usize, style, highlight: None }]
    } else {
        Seq::empty()
    }
}

/// The runs up to the end of the last highlight: each highlight, after what lies before
/// it in the default style.
pub open spec fn highlighted_runs<S, H>(style: S, highlights: Seq<(Range<usize>, H)>) -> Seq<
    TextRun<S, H>,
>
    decreases highlights.len(),
{
    if highlights.len() == 0 {
        Seq::empty()
    } else {
        let before = highlights.drop_last();
        let (range, highlight) = highlights.last();
        highlighted_runs(style, before) + gap(style, highlights_end(before), range.start)
            + seq![TextRun { len: range_len(range), style, highlight: Some(highlight) }]
    }
}

/// The runs of a text of `len` bytes with highlights.
pub open spec fn computed_runs<S, H>(
    len: usize,
    style: S,
    highlights: Seq<(Range<usize>, H)>,
) -> Seq<TextRun<S, H>> {
    highlighted_runs(style, highlights) + gap(style, highlights_end(highlights), len)
}

/// Renders text with runs of different styles.
///
/// Callers are responsible for setting the correct style for each run.
/// For text with a uniform style, you can usually avoid calling this constructor
/// and just pass text directly.
#[derive(Debug)]
pub struct StyledText<S, H> {
    text: String,
    runs: Option<Vec<TextRun<S, H>>>,
    delayed_highlights: Option<Vec<(Range<usize>, H)>>,
    layout: TextLayout,
}

/// What a styled text is.
pub struct StyledTextView<S, H> {
    pub text: Seq<char>,
    /// The runs, where they are set.
    pub runs: Option<Seq<TextRun<S, H>>>,
    /// The highlights over the style that is the default when the text is laid out.
    pub delayed_highlights: Option<Seq<(Range<usize>, H)>>,
    pub layout: Option<TextLayoutView>,
}

impl<S, H> View for StyledText<S, H> {
    type V = StyledTextView<S, H>;

    closed spec fn view(&self) -> StyledTextView<S, H> {
        StyledTextView {
            text: self.text@,
            runs: match self.runs {
                None => None,
                Some(runs) => Some(runs@),
            },
            delayed_highlights: match self.delayed_highlights {
                None => None,
                Some(highlights) => Some(highlights@),
            },
            layout: self.layout@,
        }
    }
}

impl<S: Copy, H> StyledText<S, H> {
    /// Runs that are set make up the text, and its layout is sound.
    pub closed spec fn wf(&self) -> bool {
        &&& self@.runs matches Some(runs) ==> runs_make_up(self@.text, runs)
        &&& self.layout.wf()
    }

    /// Construct a new styled text element from the given string.
    pub fn new(text: String) -> (styled: StyledText<S, H>)
        ensures
            styled.wf(),
            styled@ == (StyledTextView::<S, H> {
                text: text@,
                runs: None,
                delayed_highlights: None,
                layout: None,
            }),
    {
        StyledText { text, runs: None, delayed_highlights: None, layout: TextLayout::default() }
    }

    /// The text.
    pub fn text(&self) -> (text: &str)
        ensures
            text@ == self@.text,
    {
        self.text.as_str()
    }

    /// Get the layout for this element. This can be used to map indices to pixels and vice versa.
    pub fn layout(&self) -> (layout: &TextLayout)
        ensures
            *layout == self.spec_layout(),
            layout@ == self@.layout,
            self.wf() ==> layout.wf(),
    {
        &self.layout
    }

    /// The layout.
    pub closed spec fn spec_layout(&self) -> TextLayout {
        self.layout
    }

    /// Lays the text out with runs.
    pub fn measure<
        Cut: FnOnce(String, Vec<TextRun<S, H>>, Pixels, String, TruncateFrom) -> (
            String,
            Vec<TextRun<S, H>>,
        ),
        Shape: FnOnce(String, Vec<TextRun<S, H>>, Option<Pixels>, Option<usize>) -> Option<
            ShapedText,
        >,
    >(
        &mut self,
        runs: Vec<TextRun<S, H>>,
        request: LayoutRequest,
        truncate: Cut,
        shape: Shape,
    ) -> (size: Size)
        requires
            forall|text: String, width: Pixels, affix: String, from: TruncateFrom| #[trigger]
                call_requires(truncate, (text, runs, width, affix, from)),
            forall|cut: (String, Vec<TextRun<S, H>>)| #[trigger]
                call_requires(shape, (cut.0, cut.1, request.wraps_at(), request.max_lines())),
            forall|cut: (String, Vec<TextRun<S, H>>), shaped: Option<ShapedText>| #[trigger]
                call_ensures(
                    shape,
                    (cut.0, cut.1, request.wraps_at(), request.max_lines()),
                    shaped,
                ) && shaped is Some ==> shaped->0.wf(),
        ensures
            exists|text: String|
                text@ == old(self)@.text && #[trigger] laid_out(
                    old(self).spec_layout(),
                    text,
                    runs,
                    request,
                    truncate,
                    shape,
                    final(self).spec_layout(),
                ),
            final(self)@.layout is Some,
            size == final(self)@.layout->0.size,
            final(self)@ == (StyledTextView {
                layout: final(self).spec_layout()@,
                ..old(self)@
            }),
            old(self).wf() ==> final(self).wf(),
    {
        let text = self.text.clone();
        let ghost laid = text;
        let size = self.layout.layout(text, runs, request, truncate, shape);
        assert(laid_out(
            old(self).spec_layout(),
            laid,
            runs,
            request,
            truncate,
            shape,
            self.spec_layout(),
        ));
        size
    }

    /// Keeps where the text is painted.
    pub fn prepaint(&mut self, bounds: Bounds)
        requires
            old(self)@.layout is Some,
        ensures
            final(self)@ == (StyledTextView {
                layout: Some((TextLayoutView { bounds: Some(bounds), ..old(self)@.layout->0 })),
                ..old(self)@
            }),
            old(self).wf() ==> final(self).wf(),
    {
        self.layout.prepaint(bounds);
    }

    /// The runs of a text with highlights over a default style, in the order in which
    /// they come.
    pub fn compute_runs(text: &str, default_style: S, highlights: Vec<(Range<usize>, H)>) -> (runs:
        Vec<TextRun<S, H>>)
        ensures
            runs@ == computed_runs(
                encode_utf8(text@).len() as usize,
                default_style,
                highlights@,
            ),
    {
        let len = text.as_bytes().len();
        let mut runs: Vec<TextRun<S, H>> = Vec::new();
        let mut ix: usize = 0;
        let ghost all = highlights@;
        for item in it: highlights
            invariant
                it.seq() == all,
                runs@ == highlighted_runs(default_style, all.take(it.index() as int)),
                ix == highlights_end(all.take(it.index() as int)),
        {
            let ghost before = all.take(it.index() as int);
            let ghost after = all.take(it.index() as int + 1);
            let ghost old_runs = runs@;
            let (range, highlight) = item;
            if ix < range.start {
                runs.push(
                    TextRun { len: range.start - ix, style: default_style, highlight: None },
                );
            }
            let range_len = if range.start < range.end {
                range.end - range.start
            } else {
                0
            };
            runs.push(TextRun { len: range_len, style: default_style, highlight: Some(highlight) });
            proof {
                assert(after.drop_last() =~= before);
                assert(after.last() == item);
                assert(runs@ =~= old_runs + gap(default_style, ix, range.start) + seq![
                    TextRun { len: range_len, style: default_style, highlight: Some(highlight) },
                ]);
            }
            ix = range.end;
        }
        assert(all.take(all.len() as int) =~= all);
        let ghost old_runs = runs@;
        if ix < len {
            runs.push(TextRun { len: len - ix, style: default_style, highlight: None });
        }
        assert(runs@ =~= old_runs + gap(default_style, ix, len));
        runs
    }

    /// Whether runs make up the text.
    pub fn runs_fit(&self, runs: &Vec<TextRun<S, H>>) -> (fit: bool)
        ensures
            fit == runs_make_up(self@.text, runs@),
    {
        let text = self.text.as_str();
        let len = text.as_bytes().len();
        let mut end: usize = 0;
        let mut i: usize = 0;
        proof {
            vstd::utf8::encode_utf8_valid_utf8(text@);
            vstd::utf8::is_char_boundary_start_end_of_seq(encode_utf8(text@));
        }
        while i < runs.len()
            invariant
                i <= runs.len(),
                text@ == self@.text,
                len == encode_utf8(text@).len(),
                end == run_end(runs@, i as int),
                end <= len,
                forall|k: int| 0 <= k <= i ==> cut_at(text@, #[trigger] run_end(runs@, k) as int),
            decreases runs.len() - i,
        {
            assert(run_end(runs@, i + 1) == end + runs@[i as int].len);
            if runs[i].len > len - end {
                assert(!cut_at(text@, run_end(runs@, i + 1) as int));
                return false;
            }
            end = end + runs[i].len;
            if !text.is_char_boundary(end) {
                assert(!cut_at(text@, run_end(runs@, i + 1) as int));
                return false;
            }
            i = i + 1;
        }
        end == len
    }

    /// Set the text runs for this piece of text.
    pub fn with_runs(self, runs: Vec<TextRun<S, H>>) -> (styled: StyledText<S, H>)
        requires
            runs_make_up(self@.text, runs@),
        ensures
            styled@ == (StyledTextView { runs: Some(runs@), ..self@ }),
            self.wf() ==> styled.wf(),
    {
        StyledText { runs: Some(runs), ..self }
    }

    /// Set the styling attributes for the given text, as well as
    /// as any ranges of text that have had their style customized.
    pub fn with_default_highlights(
        self,
        default_style: S,
        highlights: Vec<(Range<usize>, H)>,
    ) -> (styled: StyledText<S, H>)
        requires
            runs_make_up(
                self@.text,
                computed_runs(
                    encode_utf8(self@.text).len() as usize,
                    default_style,
                    highlights@,
                ),
            ),
        ensures
            styled@ == (StyledTextView {
                runs: Some(
                    computed_runs(
                        encode_utf8(self@.text).len() as usize,
                        default_style,
                        highlights@,
                    ),
                ),
                ..self@
            }),
            self.wf() ==> styled.wf(),
    {
        let runs = Self::compute_runs(self.text.as_str(), default_style, highlights);
        self.with_runs(runs)
    }

    /// Set the ranges of text that have their style customized, over the style that is
    /// the default when the text is laid out.
    pub fn with_highlights(self, highlights: Vec<(Range<usize>, H)>) -> (styled: StyledText<S, H>)
        ensures
            styled@ == (StyledTextView { delayed_highlights: Some(highlights@), ..self@ }),
            self.wf() ==> styled.wf(),
    {
        StyledText { delayed_highlights: Some(highlights), ..self }
    }

    /// The runs to lay the text out with, which it then no longer holds: those that were
    /// set, or else those of the highlights that were set, over the given style. Without
    /// either the whole text is one run.
    pub fn take_runs(&mut self, default_style: S) -> (runs: Vec<TextRun<S, H>>)
        ensures
            ({
                let len = encode_utf8(old(self)@.text).len() as usize;
                runs@ == match (old(self)@.runs, old(self)@.delayed_highlights) {
                    (Some(runs), _) => runs,
                    (None, Some(highlights)) => computed_runs(len, default_style, highlights),
                    (None, None) => seq![TextRun { len, style: default_style, highlight: None }],
                }
            }),
            final(self)@ == (StyledTextView {
                runs: None,
                delayed_highlights: if old(self)@.runs is Some {
                    old(self)@.delayed_highlights
                } else {
                    None
                },
                ..old(self)@
            }),
            old(self).wf() ==> final(self).wf(),
    {
        match self.runs.take() {
            Some(runs) => runs,
            None => match self.delayed_highlights.take() {
                Some(highlights) => Self::compute_runs(
                    self.text.as_str(),
                    default_style,
                    highlights,
                ),
                None => {
                    let mut runs: Vec<TextRun<S, H>> = Vec::new();
                    let len = self.text.as_str().as_bytes().len();
                    runs.push(TextRun { len, style: default_style, highlight: None });
                    assert(runs@ =~= seq![TextRun { len, style: default_style, highlight: None }]);
                    runs
                },
            },
        }
    }
}

/// Whether highlights follow each other within a text: each starts where the one before
/// it ends or later, and ends within the text, and both at character boundaries.
pub open spec fn in_order<H>(text: Seq<char>, highlights: Seq<(Range<usize>, H)>) -> bool {
    &&& forall|i: int|
        0 <= i < highlights.len() ==> (#[trigger] highlights[i]).0.start <= highlights[i].0.end
            && cut_at(text, highlights[i].0.start as int) && cut_at(
            text,
            highlights[i].0.end as int,
        )
    &&& forall|i: int, j: int|
        0 <= i < j < highlights.len() ==> (#[trigger] highlights[i]).0.end <= (
        #[trigger] highlights[j]).0.start
}

proof fn lemma_run_end_push<S, H>(runs: Seq<TextRun<S, H>>, run: TextRun<S, H>, i: int)
    requires
        0 <= i <= runs.len(),
    ensures
        run_end(runs.push(run), i) == run_end(runs, i),
    decreases i,
{
    if i > 0 {
        lemma_run_end_push(runs, run, i - 1);
        assert(runs.push(run)[i - 1] == runs[i - 1]);
    }
}

proof fn lemma_push_keeps_cuts<S, H>(
    text: Seq<char>,
    runs: Seq<TextRun<S, H>>,
    run: TextRun<S, H>,
)
    requires
        forall|i: int|
            0 <= i <= runs.len() ==> cut_at(text, #[trigger] run_end(runs, i) as int),
        cut_at(text, (run_end(runs, runs.len() as int) + run.len) as int),
    ensures
        run_end(runs.push(run), (runs.len() + 1) as int) == run_end(runs, runs.len() as int)
            + run.len,
        forall|i: int|
            0 <= i <= runs.len() + 1 ==> cut_at(
                text,
                #[trigger] run_end(runs.push(run), i) as int,
            ),
{
    let longer = runs.push(run);
    lemma_run_end_push(runs, run, runs.len() as int);
    assert(longer[runs.len() as int] == run);
    assert forall|i: int| 0 <= i <= runs.len() + 1 implies cut_at(
        text,
        #[trigger] run_end(longer, i) as int,
    ) by {
        if i <= runs.len() {
            lemma_run_end_push(runs, run, i);
            assert(cut_at(text, run_end(runs, i) as int));
        }
    }
}

proof fn lemma_gap_keeps_cuts<S, H>(
    text: Seq<char>,
    runs: Seq<TextRun<S, H>>,
    style: S,
    to: usize,
)
    requires
        forall|i: int|
            0 <= i <= runs.len() ==> cut_at(text, #[trigger] run_end(runs, i) as int),
        run_end(runs, runs.len() as int) <= to,
        cut_at(text, to as int),
    ensures
        ({
            let longer = runs + gap(style, run_end(runs, runs.len() as int) as usize, to);
            &&& run_end(longer, longer.len() as int) == to
            &&& forall|i: int|
                0 <= i <= longer.len() ==> cut_at(text, #[trigger] run_end(longer, i) as int)
        }),
{
    let end = run_end(runs, runs.len() as int);
    let longer = runs + gap(style, end as usize, to);
    if end < to {
        let run = TextRun::<S, H> { len: (to - end) as usize, style, highlight: None };
        lemma_push_keeps_cuts(text, runs, run);
        assert(longer =~= runs.push(run));
    } else {
        assert(longer =~= runs);
    }
}

proof fn lemma_highlighted_runs<S, H>(
    text: Seq<char>,
    style: S,
    highlights: Seq<(Range<usize>, H)>,
)
    requires
        in_order(text, highlights),
    ensures
        ({
            let runs = highlighted_runs(style, highlights);
            &&& run_end(runs, runs.len() as int) == highlights_end(highlights)
            &&& forall|i: int|
                0 <= i <= runs.len() ==> cut_at(text, #[trigger] run_end(runs, i) as int)
        }),
    decreases highlights.len(),
{
    let runs = highlighted_runs(style, highlights);
    if highlights.len() == 0 {
        vstd::utf8::encode_utf8_valid_utf8(text);
        vstd::utf8::is_char_boundary_start_end_of_seq(encode_utf8(text));
        assert forall|i: int| 0 <= i <= runs.len() implies cut_at(
            text,
            #[trigger] run_end(runs, i) as int,
        ) by {
            assert(i == 0);
        }
    } else {
        let before = highlights.drop_last();
        let (range, highlight) = highlights.last();
        assert(in_order(text, before)) by {
            assert(forall|i: int| 0 <= i < before.len() ==> before[i] == highlights[i]);
        }
        lemma_highlighted_runs(text, style, before);
        let last = highlights.len() - 1;
        assert(highlights[last] == highlights.last());
        if last > 0 {
            assert(highlights[last - 1].0.end <= highlights[last].0.start);
        }
        let front = highlighted_runs(style, before);
        lemma_gap_keeps_cuts(text, front, style, range.start);
        let middle = front + gap(style, highlights_end(before), range.start);
        let run = TextRun { len: range_len(range), style, highlight: Some(highlight) };
        lemma_push_keeps_cuts(text, middle, run);
        assert(runs =~= middle.push(run));
    }
}

/// Highlights that follow each other within a text give runs that make it up, so that
/// no byte is left out and none is styled twice.
pub proof fn law_ordered_highlights_make_up_the_text<S, H>(
    text: Seq<char>,
    style: S,
    highlights: Seq<(Range<usize>, H)>,
)
    requires
        in_order(text, highlights),
        encode_utf8(text).len() <= usize::MAX,
    ensures
        runs_make_up(text, computed_runs(encode_utf8(text).len() as usize, style, highlights)),
{
    let len = encode_utf8(text).len() as usize;
    lemma_highlighted_runs(text, style, highlights);
    vstd::utf8::encode_utf8_valid_utf8(text);
    vstd::utf8::is_char_boundary_start_end_of_seq(encode_utf8(text));
    if highlights.len() > 0 {
        assert(cut_at(text, highlights[highlights.len() - 1].0.end as int));
    }
    lemma_gap_keeps_cuts(text, highlighted_runs(style, highlights), style, len);
}

/// Whether a byte of the text belongs to a run.
pub open spec fn run_holds<S, H>(runs: Seq<TextRun<S, H>>, i: int, byte: int) -> bool {
    run_end(runs, i) <= byte < run_end(runs, i + 1)
}

/// Whether a run is styled as a byte asks for: it carries the highlight whose range holds the
/// byte, and none where no range does.
pub open spec fn styled_for<S, H>(
    run: TextRun<S, H>,
    style: S,
    highlights: Seq<(Range<usize>, H)>,
    byte: int,
) -> bool {
    &&& run.style == style
    &&& run.highlight is None <==> forall|k: int|
        0 <= k < highlights.len() ==> !((#[trigger] highlights[k]).0.start <= byte
            < highlights[k].0.end)
    &&& forall|k: int|
        0 <= k < highlights.len() && (#[trigger] highlights[k]).0.start <= byte
            < highlights[k].0.end ==> run.highlight == Some(highlights[k].1)
}

proof fn lemma_run_end_prefix<S, H>(front: Seq<TextRun<S, H>>, back: Seq<TextRun<S, H>>, i: int)
    requires
        0 <= i <= front.len(),
    ensures
        run_end(front + back, i) == run_end(front, i),
    decreases i,
{
    if i > 0 {
        lemma_run_end_prefix(front, back, i - 1);
        assert((front + back)[i - 1] == front[i - 1]);
    }
}

proof fn lemma_run_end_grows<S, H>(runs: Seq<TextRun<S, H>>, i: int, j: int)
    requires
        i <= j,
    ensures
        run_end(runs, i) <= run_end(runs, j),
    decreases j - i,
{
    if i < j {
        lemma_run_end_grows(runs, i, j - 1);
    }
}

/// Bytes up to the end of the last highlight are styled as they ask for.
proof fn lemma_highlighted_bytes<S, H>(
    text: Seq<char>,
    style: S,
    highlights: Seq<(Range<usize>, H)>,
    i: int,
    byte: int,
)
    requires
        in_order(text, highlights),
        0 <= i < highlighted_runs(style, highlights).len(),
        run_holds(highlighted_runs(style, highlights), i, byte),
    ensures
        styled_for(highlighted_runs(style, highlights)[i], style, highlights, byte),
        byte < highlights_end(highlights),
    decreases highlights.len(),
{
    let runs = highlighted_runs(style, highlights);
    let last = highlights.len() - 1;
    let before = highlights.drop_last();
    let (range, highlight) = highlights.last();
    assert(highlights[last] == highlights.last());
    assert(in_order(text, before)) by {
        assert(forall|k: int| 0 <= k < before.len() ==> before[k] == highlights[k]);
    }
    let front = highlighted_runs(style, before);
    let end = highlights_end(before);
    lemma_highlighted_runs(text, style, before);
    lemma_highlighted_runs(text, style, highlights);
    lemma_run_end_grows(runs, i + 1, runs.len() as int);
    if last > 0 {
        assert(highlights[last - 1] == before.last());
        assert(end <= range.start);
    }
    let between = gap::<S, H>(style, end, range.start);
    let run = TextRun { len: range_len(range), style, highlight: Some(highlight) };
    assert(runs =~= front + (between + seq![run]));
    lemma_run_end_prefix(front, between + seq![run], front.len() as int);
    if i < front.len() {
        lemma_run_end_prefix(front, between + seq![run], i);
        lemma_run_end_prefix(front, between + seq![run], i + 1);
        lemma_highlighted_bytes(text, style, before, i, byte);
        assert(runs[i] == front[i]);
        assert(byte < range.start);
        assert forall|k: int|
            0 <= k < highlights.len() && (#[trigger] highlights[k]).0.start <= byte
                < highlights[k].0.end implies runs[i].highlight == Some(highlights[k].1) by {
            assert(k < last);
            assert(before[k] == highlights[k]);
        }
        if runs[i].highlight is None {
            assert forall|k: int| 0 <= k < highlights.len() implies !((
            #[trigger] highlights[k]).0.start <= byte < highlights[k].0.end) by {
                if k < last {
                    assert(before[k] == highlights[k]);
                }
            }
        }
        if forall|k: int|
            0 <= k < highlights.len() ==> !((#[trigger] highlights[k]).0.start <= byte
                < highlights[k].0.end) {
            assert forall|k: int| 0 <= k < before.len() implies !((#[trigger] before[k]).0.start
                <= byte < before[k].0.end) by {
                assert(before[k] == highlights[k]);
            }
        }
    } else {
        assert(run_end(runs, front.len() as int) == end);
        lemma_run_end_grows(runs, front.len() as int, i);
        assert forall|k: int| 0 <= k < last implies (#[trigger] highlights[k]).0.end <= end by {
            if k < last - 1 {
                assert(highlights[k].0.end <= highlights[last - 1].0.start);
                assert(highlights[last - 1].0.start <= highlights[last - 1].0.end);
            }
        }
        if between.len() == 1 {
            assert(runs[front.len() as int] == between[0]);
            assert(run_end(runs, front.len() as int + 1) == range.start);
            if i > front.len() {
                assert(runs[i] == run);
                assert(range.start <= byte < range.end);
            }
        } else {
            assert(runs[i] == run);
            assert(range.start <= byte < range.end);
        }
        if runs[i] == run {
            assert(highlights[last].0.start <= byte < highlights[last].0.end);
            assert forall|k: int|
                0 <= k < highlights.len() && (#[trigger] highlights[k]).0.start <= byte
                    < highlights[k].0.end implies runs[i].highlight == Some(highlights[k].1) by {
                assert(k == last);
            }
        }
    }
}

/// For highlights that follow each other within the text, every byte that lies in a highlight
/// belongs to a run that carries this highlight, and every other byte to a run that carries
/// none; all runs are in the default style.
pub proof fn law_each_byte_is_styled_by_its_highlight<S, H>(
    text: Seq<char>,
    style: S,
    highlights: Seq<(Range<usize>, H)>,
    i: int,
    byte: int,
)
    requires
        in_order(text, highlights),
        encode_utf8(text).len() <= usize::MAX,
        0 <= i < computed_runs(encode_utf8(text).len() as usize, style, highlights).len(),
        run_holds(
            computed_runs(encode_utf8(text).len() as usize, style, highlights),
            i,
            byte,
        ),
    ensures
        ({
            let runs = computed_runs(encode_utf8(text).len() as usize, style, highlights);
            &&& runs[i].style == style
            &&& runs[i].highlight is None <==> forall|k: int|
                0 <= k < highlights.len() ==> !((#[trigger] highlights[k]).0.start <= byte
                    < highlights[k].0.end)
            &&& forall|k: int|
                0 <= k < highlights.len() && (#[trigger] highlights[k]).0.start <= byte
                    < highlights[k].0.end ==> runs[i].highlight == Some(highlights[k].1)
        }),
{
    let len = encode_utf8(text).len() as usize;
    let runs = computed_runs(len, style, highlights);
    let front = highlighted_runs(style, highlights);
    let end = highlights_end(highlights);
    let back = gap::<S, H>(style, end, len);
    lemma_highlighted_runs(text, style, highlights);
    lemma_run_end_prefix(front, back, front.len() as int);
    if i < front.len() {
        lemma_run_end_prefix(front, back, i);
        lemma_run_end_prefix(front, back, i + 1);
        assert(runs[i] == front[i]);
        lemma_highlighted_bytes(text, style, highlights, i, byte);
    } else {
        assert(runs[i] == back[0]);
        lemma_run_end_grows(runs, front.len() as int, i);
        let last = highlights.len() - 1;
        assert forall|k: int| 0 <= k < highlights.len() implies (#[trigger] highlights[k]).0.end
            <= byte by {
            if k < last {
                assert(highlights[k].0.end <= highlights[last].0.start);
                assert(highlights[last].0.start <= highlights[last].0.end);
            }
        }
    }
}

/// The runs that carry a highlight.
pub open spec fn highlighted_only<S, H>(runs: Seq<TextRun<S, H>>) -> Seq<TextRun<S, H>> {
    runs.filter(|run: TextRun<S, H>| run.highlight is Some)
}

proof fn lemma_highlighted_only<S, H>(style: S, highlights: Seq<(Range<usize>, H)>)
    ensures
        highlighted_only(highlighted_runs(style, highlights)).len() == highlights.len(),
        forall|i: int|
            0 <= i < highlights.len() ==> (#[trigger] highlighted_only(
                highlighted_runs(style, highlights),
            )[i]) == (TextRun {
                len: range_len(highlights[i].0),
                style,
                highlight: Some(highlights[i].1),
            }),
    decreases highlights.len(),
{
    reveal(Seq::filter);
    let carries = |run: TextRun<S, H>| run.highlight is Some;
    if highlights.len() > 0 {
        let before = highlights.drop_last();
        let (range, highlight) = highlights.last();
        lemma_highlighted_only(style, before);
        let front = highlighted_runs(style, before);
        let between = gap::<S, H>(style, highlights_end(before), range.start);
        let run = TextRun { len: range_len(range), style, highlight: Some(highlight) };
        Seq::filter_distributes_over_add(front + between, seq![run], carries);
        Seq::filter_distributes_over_add(front, between, carries);
        assert(between.filter(carries) =~= Seq::empty()) by {
            if between.len() == 1 {
                assert(between.drop_last() =~= Seq::empty());
                assert(between.drop_last().filter(carries) =~= Seq::empty());
            }
        }
        assert(seq![run].filter(carries) =~= seq![run]) by {
            assert(seq![run].drop_last() =~= Seq::empty());
            assert(seq![run].drop_last().filter(carries) =~= Seq::empty());
        }
        let all = highlighted_only(highlighted_runs(style, highlights));
        let fewer = highlighted_only(front);
        assert(all =~= fewer.push(run));
        assert forall|i: int| 0 <= i < highlights.len() implies (#[trigger] all[i]) == (TextRun {
            len: range_len(highlights[i].0),
            style,
            highlight: Some(highlights[i].1),
        }) by {
            if i < before.len() {
                assert(all[i] == fewer[i]);
                assert(before[i] == highlights[i]);
            }
        }
    }
}

/// Whatever the highlights are, each has one run that is as long as its range, none where it
/// ends before it starts, in the order in which the highlights come.
pub proof fn law_each_highlight_has_its_run<S, H>(
    len: usize,
    style: S,
    highlights: Seq<(Range<usize>, H)>,
    at: int,
)
    requires
        0 <= at < highlights.len(),
    ensures
        ({
            let carrying = highlighted_only(computed_runs(len, style, highlights));
            let (range, highlight) = highlights[at];
            &&& carrying.len() == highlights.len()
            &&& carrying[at].highlight == Some(highlight)
            &&& carrying[at].style == style
            &&& range.start <= range.end ==> carrying[at].len == range.end - range.start
            &&& range.start > range.end ==> carrying[at].len == 0
        }),
{
    reveal(Seq::filter);
    let carries = |run: TextRun<S, H>| run.highlight is Some;
    let front = highlighted_runs(style, highlights);
    let back = gap::<S, H>(style, highlights_end(highlights), len);
    lemma_highlighted_only(style, highlights);
    Seq::filter_distributes_over_add(front, back, carries);
    assert(back.filter(carries) =~= Seq::empty()) by {
        if back.len() == 1 {
            assert(back.drop_last() =~= Seq::empty());
            assert(back.drop_last().filter(carries) =~= Seq::empty());
        }
    }
    assert(highlighted_only(computed_runs(len, style, highlights)) =~= highlighted_only(front));
}

/// A text without highlights is one run in the default style, unless it is empty.
pub proof fn law_plain_text_is_one_run<S, H>(len: usize, style: S)
    ensures
        ({
            let runs = computed_runs::<S, H>(len, style, Seq::empty());
            &&& runs.len() == if len > 0 {
                1nat
            } else {
                0
            }
            &&& len > 0 ==> runs[0].len == len && runs[0].style == style
                && runs[0].highlight is None
        }),
{
}

/// The part of a text that belongs to a run.
pub open spec fn run_text<S, H>(text: Seq<char>, runs: Seq<TextRun<S, H>>, i: int) -> Seq<char> {
    byte_slice(text, run_end(runs, i) as int, run_end(runs, i + 1) as int)
}

proof fn lemma_run_texts<S, H>(text: Seq<char>, runs: Seq<TextRun<S, H>>, n: int)
    requires
        runs_make_up(text, runs),
        0 <= n <= runs.len(),
    ensures
        joined(Seq::new(n as nat, |i: int| run_text(text, runs, i)), Seq::empty()) == byte_slice(
            text,
            0,
            run_end(runs, n) as int,
        ),
    decreases n,
{
    let parts = Seq::new(n as nat, |i: int| run_text(text, runs, i));
    if n == 0 {
        assert(encode_utf8(text).subrange(0, 0) =~= encode_utf8(Seq::empty()));
        vstd::utf8::encode_utf8_decode_utf8(Seq::empty());
    } else {
        lemma_run_texts(text, runs, n - 1);
        let front = Seq::new((n - 1) as nat, |i: int| run_text(text, runs, i));
        assert(parts.drop_last() =~= front);
        assert(cut_at(text, run_end(runs, n - 1) as int) && cut_at(text, run_end(runs, n) as int));
        lemma_run_end_grows(runs, n - 1, n);
        lemma_byte_slice_split(text, run_end(runs, n - 1) as int, run_end(runs, n) as int);
        assert(parts.last() == run_text(text, runs, n - 1));
        if n == 1 {
            assert(front =~= Seq::empty());
            assert(joined(parts, Seq::empty()) =~= parts[0]);
            assert(byte_slice(text, 0, 0) + parts[0] =~= joined(parts, Seq::empty()));
        } else {
            assert(joined(front, Seq::empty()) + Seq::<char>::empty() =~= joined(
                front,
                Seq::empty(),
            ));
        }
    }
}

/// Runs that make up a text cut it into pieces, one for each run and as long as the run, which
/// are the text again when they are put together.
pub proof fn law_runs_that_make_up_a_text_cut_it<S, H>(
    text: Seq<char>,
    runs: Seq<TextRun<S, H>>,
    at: int,
)
    requires
        runs_make_up(text, runs),
        0 <= at < runs.len(),
    ensures
        joined(Seq::new(runs.len(), |i: int| run_text(text, runs, i)), Seq::empty()) == text,
        encode_utf8(run_text(text, runs, at)).len() == runs[at].len,
{
    lemma_run_texts(text, runs, runs.len() as int);
    let bytes = encode_utf8(text);
    assert(bytes.subrange(0, bytes.len() as int) =~= bytes);
    vstd::utf8::encode_utf8_decode_utf8(text);
    let from = run_end(runs, at) as int;
    let to = run_end(runs, at + 1) as int;
    assert(cut_at(text, from) && cut_at(text, to));
    vstd::utf8::encode_utf8_valid_utf8(text);
    crate::chars::lemma_boundary_after(bytes, from, to);
    let rest = bytes.subrange(from, bytes.len() as int);
    vstd::utf8::valid_utf8_split(rest, to - from);
    assert(rest.subrange(0, to - from) =~= bytes.subrange(from, to));
    vstd::utf8::decode_utf8_encode_utf8(bytes.subrange(from, to));
}

/// Runs that are as long as pieces of a text, in order and to its end, make it up.
pub proof fn law_runs_of_pieces_make_up_the_text<S, H>(
    pieces: Seq<Seq<char>>,
    runs: Seq<TextRun<S, H>>,
)
    requires
        pieces.len() == runs.len(),
        forall|i: int|
            0 <= i < runs.len() ==> (#[trigger] runs[i]).len == encode_utf8(pieces[i]).len(),
    ensures
        runs_make_up(joined(pieces, Seq::empty()), runs),
    decreases runs.len(),
{
    let text = joined(pieces, Seq::empty());
    if runs.len() == 0 {
        assert(runs_make_up(text, runs)) by {
            vstd::utf8::encode_utf8_valid_utf8(text);
            vstd::utf8::is_char_boundary_start_end_of_seq(encode_utf8(text));
            assert(encode_utf8(text).len() == 0);
            assert forall|i: int| 0 <= i <= runs.len() implies cut_at(
                text,
                #[trigger] run_end(runs, i) as int,
            ) by {}
        }
    } else {
        let fewer = pieces.drop_last();
        let front = runs.drop_last();
        let before = joined(fewer, Seq::empty());
        assert forall|i: int| 0 <= i < front.len() implies (#[trigger] front[i]).len == encode_utf8(
            fewer[i],
        ).len() by {
            assert(front[i] == runs[i]);
        }
        law_runs_of_pieces_make_up_the_text(fewer, front);
        assert(text =~= before + pieces.last()) by {
            if fewer.len() == 0 {
                assert(before =~= Seq::empty());
            } else {
                assert(before + Seq::<char>::empty() =~= before);
            }
        }
        crate::text_layout::lemma_encode_concat(before, pieces.last());
        let bytes = encode_utf8(text);
        let n = front.len() as int;
        assert(runs =~= front + seq![runs.last()]);
        assert(runs.last() == runs[n]);
        lemma_run_end_prefix(front, seq![runs.last()], n);
        assert(run_end(runs, n + 1) == run_end(runs, n) + runs[n].len);
        vstd::utf8::encode_utf8_valid_utf8(text);
        vstd::utf8::encode_utf8_valid_utf8(before);
        vstd::utf8::is_char_boundary_start_end_of_seq(bytes);
        assert forall|i: int| 0 <= i <= runs.len() implies cut_at(
            text,
            #[trigger] run_end(runs, i) as int,
        ) by {
            if i <= n {
                lemma_run_end_prefix(front, seq![runs.last()], i);
                assert(cut_at(before, run_end(front, i) as int));
                lemma_cut_before_more(before, pieces.last(), run_end(front, i) as int);
            }
        }
    }
}

proof fn lemma_cut_before_more(before: Seq<char>, more: Seq<char>, at: int)
    requires
        cut_at(before, at),
    ensures
        cut_at(before + more, at),
{
    let left = encode_utf8(before);
    let right = encode_utf8(more);
    let all = encode_utf8(before + more);
    crate::text_layout::lemma_encode_concat(before, more);
    vstd::utf8::encode_utf8_valid_utf8(before);
    vstd::utf8::encode_utf8_valid_utf8(more);
    vstd::utf8::encode_utf8_valid_utf8(before + more);
    if at < left.len() {
        vstd::utf8::is_char_boundary_iff_not_is_continuation_byte(left, at);
        vstd::utf8::is_char_boundary_iff_not_is_continuation_byte(all, at);
        assert(all[at] == left[at]);
    } else if right.len() == 0 {
        vstd::utf8::is_char_boundary_start_end_of_seq(all);
    } else {
        vstd::utf8::is_char_boundary_iff_not_is_continuation_byte(all, at);
        vstd::utf8::is_char_boundary_start_end_of_seq(right);
        vstd::utf8::is_char_boundary_iff_not_is_continuation_byte(right, 0);
        assert(all[at] == right[0]);
    }
}

/// Whatever the highlights are, one more at their end leaves what comes before it as if the text
/// ended where it starts, and what comes behind it in the default style.
pub proof fn law_highlights_are_laid_one_after_the_other<S, H>(
    len: usize,
    style: S,
    highlights: Seq<(Range<usize>, H)>,
    range: Range<usize>,
    highlight: H,
)
    requires
        range.start <= range.end,
    ensures
        ({
            let runs = computed_runs(len, style, highlights.push((range, highlight)));
            let before = computed_runs(range.start, style, highlights);
            let n = before.len() as int;
            &&& runs.len() == n + if range.end < len {
                2int
            } else {
                1
            }
            &&& runs.take(n) == before
            &&& runs[n].len == range.end - range.start && runs[n].style == style
                && runs[n].highlight == Some(highlight)
            &&& range.end < len ==> runs[n + 1].len == len - range.end && runs[n + 1].style == style
                && runs[n + 1].highlight is None
        }),
{
    let longer = highlights.push((range, highlight));
    assert(longer.drop_last() =~= highlights);
    let runs = computed_runs(len, style, longer);
    let before = computed_runs(range.start, style, highlights);
    assert(runs.take(before.len() as int) =~= before);
}

} // verus!
