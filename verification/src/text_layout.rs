//! The layout of a text: which line holds an index or a position, and what a
//! measurement keeps.

use crate::chars::{
    byte_slice, cut_at, join, joined, lemma_byte_slice_split, text_slice, texts,
};
use crate::pixels::{Bounds, Pixels, Size};
use smallvec::SmallVec;
use std::sync::Arc;
use vstd::prelude::*;
use vstd::utf8::encode_utf8;

verus! {

// ---------------------------------------------------------------------------
// Lines

/// A glyph that stands for some bytes of a line.
#[derive(Clone, Copy, Debug, PartialEq, Eq, Structural)]
pub struct ShapedGlyph {
    /// The byte of the line at which they begin.
    pub index: usize,
}

/// Glyphs of one font.
#[derive(Debug)]
pub struct ShapedRun {
    pub glyphs: Vec<ShapedGlyph>,
}

/// The layout of a line before it is wrapped.
#[derive(Debug)]
pub struct LineLayout {
    pub runs: Vec<ShapedRun>,
    /// How many bytes the line has.
    pub len: usize,
}

/// A glyph before which a line is wrapped.
#[derive(Clone, Copy, Debug, PartialEq, Eq, Structural)]
pub struct WrapBoundary {
    pub run_ix: usize,
    pub glyph_ix: usize,
}

/// The layout of a line.
#[derive(Debug)]
pub struct WrappedLineLayout {
    pub unwrapped_layout: LineLayout,
    pub wrap_boundaries: Vec<WrapBoundary>,
}

/// A line of text with its layout.
#[derive(Debug)]
pub struct WrappedLine {
    pub layout: Arc<WrappedLineLayout>,
    pub text: String,
}

impl WrappedLine {
    /// How many bytes the line has.
    pub open spec fn spec_len(&self) -> usize {
        self.layout.unwrapped_layout.len
    }

    /// How many bytes the line has.
    pub fn len(&self) -> (len: usize)
        ensures
            len == self.spec_len(),
    {
        self.layout.unwrapped_layout.len
    }
}

/// `Arc::clone` gives another handle on the same value.
#[verifier::external_body]
fn share(layout: &Arc<WrappedLineLayout>) -> (other: Arc<WrappedLineLayout>)
    ensures
        other == *layout,
{
    layout.clone()
}

/// Lines of text, held in a `smallvec::SmallVec` that keeps a single one in place.
#[verifier::external_body]
#[derive(Debug)]
pub struct LineList {
    items: SmallVec<[WrappedLine; 1]>,
}

/// The lines of a list, in order.
pub uninterp spec fn line_list(list: LineList) -> Seq<WrappedLine>;

/// `SmallVec::as_slice` gives the items in order.
#[verifier::external_body]
fn line_slice(list: &LineList) -> (items: &[WrappedLine])
    ensures
        items@ == line_list(*list),
{
    list.items.as_slice()
}

/// `SmallVec::from_vec` keeps the items of the vector in order.
#[verifier::external_body]
fn line_list_from(items: Vec<WrappedLine>) -> (list: LineList)
    ensures
        line_list(list) == items@,
{
    LineList { items: SmallVec::from_vec(items) }
}

impl View for LineList {
    type V = Seq<WrappedLine>;

    open spec fn view(&self) -> Seq<WrappedLine> {
        line_list(*self)
    }
}

impl LineList {
    /// The list of these lines.
    pub fn new(items: Vec<WrappedLine>) -> (list: LineList)
        ensures
            list@ == items@,
    {
        line_list_from(items)
    }

    /// The lines, in order.
    pub fn as_slice(&self) -> (items: &[WrappedLine])
        ensures
            items@ == self@,
    {
        line_slice(self)
    }
}

// ---------------------------------------------------------------------------
// Metrics

/// Where a line lies in the text and on the screen.
#[derive(Clone, Copy, Debug, PartialEq, Eq, Structural)]
pub struct TextLayoutLineMetric {
    /// The byte of the text at which the line begins.
    pub start_ix: usize,
    /// The byte of the text at which it ends.
    pub end_ix: usize,
    /// Where it lies on the screen.
    pub extent: LineExtent,
}

/// Where a line lies on the screen, from the top of the text.
#[derive(Clone, Copy, Debug, PartialEq, Eq, Structural)]
pub struct LineExtent {
    pub origin_y: Pixels,
    pub height: Pixels,
    /// The sum of the two.
    pub bottom: Pixels,
}

/// Metrics of lines, held in a `smallvec::SmallVec` that keeps a single one in place.
#[verifier::external_body]
#[derive(Debug)]
pub struct MetricList {
    items: SmallVec<[TextLayoutLineMetric; 1]>,
}

/// The metrics of a list, in order.
pub uninterp spec fn metric_list(list: MetricList) -> Seq<TextLayoutLineMetric>;

/// `SmallVec::new` makes an empty vector.
#[verifier::external_body]
fn new_metric_list() -> (list: MetricList)
    ensures
        metric_list(list) == Seq::<TextLayoutLineMetric>::empty(),
{
    MetricList { items: SmallVec::new() }
}

/// `SmallVec::push` appends an item.
#[verifier::external_body]
fn push_metric(list: &mut MetricList, item: TextLayoutLineMetric)
    ensures
        metric_list(*final(list)) == metric_list(*old(list)).push(item),
{
    list.items.push(item)
}

/// `SmallVec::as_slice` gives the items in order.
#[verifier::external_body]
fn metric_slice(list: &MetricList) -> (items: &[TextLayoutLineMetric])
    ensures
        items@ == metric_list(*list),
{
    list.items.as_slice()
}

impl View for MetricList {
    type V = Seq<TextLayoutLineMetric>;

    open spec fn view(&self) -> Seq<TextLayoutLineMetric> {
        metric_list(*self)
    }
}

impl MetricList {
    /// The metrics, in order.
    pub fn as_slice(&self) -> (items: &[TextLayoutLineMetric])
        ensures
            items@ == self@,
    {
        metric_slice(self)
    }
}

/// The byte of the text at which line `i` begins: each line before it takes up its own
/// bytes and one for the line feed.
pub open spec fn line_start(lines: Seq<WrappedLine>, i: int) -> nat
    decreases i,
{
    if i <= 0 {
        0
    } else {
        line_start(lines, i - 1) + lines[i - 1].spec_len() as nat + 1
    }
}

/// Whether metrics say where the lines lie in the text.
pub open spec fn metrics_of(metrics: Seq<TextLayoutLineMetric>, lines: Seq<WrappedLine>) -> bool {
    &&& metrics.len() == lines.len()
    &&& forall|i: int|
        0 <= i < lines.len() ==> (#[trigger] metrics[i]).start_ix == line_start(lines, i)
            && metrics[i].end_ix == line_start(lines, i) + lines[i].spec_len()
}

proof fn lemma_line_start_grows(lines: Seq<WrappedLine>, i: int, j: int)
    requires
        0 <= i < j,
    ensures
        line_start(lines, i) + lines[i].spec_len() < line_start(lines, j),
    decreases j,
{
    if i < j - 1 {
        lemma_line_start_grows(lines, i, j - 1);
    }
}

/// Where each line lies, in the text and on the screen.
pub fn text_layout_line_metrics(lines: &LineList, extents: &Vec<LineExtent>) -> (metrics:
    MetricList)
    requires
        extents.len() == lines@.len(),
        line_start(lines@, lines@.len() as int) <= usize::MAX,
    ensures
        metrics_of(metrics@, lines@),
        forall|i: int|
            0 <= i < lines@.len() ==> (#[trigger] metrics@[i]).extent == extents@[i],
{
    let items = lines.as_slice();
    let mut metrics = new_metric_list();
    let mut start_ix: usize = 0;
    let mut i: usize = 0;
    while i < items.len()
        invariant
            i <= items.len(),
            items@ == lines@,
            extents.len() == lines@.len(),
            line_start(lines@, lines@.len() as int) <= usize::MAX,
            start_ix == line_start(lines@, i as int),
            metrics@.len() == i,
            forall|k: int|
                0 <= k < i ==> (#[trigger] metrics@[k]).start_ix == line_start(lines@, k)
                    && metrics@[k].end_ix == line_start(lines@, k) + lines@[k].spec_len()
                    && metrics@[k].extent == extents@[k],
        decreases items.len() - i,
    {
        proof {
            lemma_line_start_grows(lines@, i as int, lines@.len() as int);
        }
        let end_ix = start_ix + items[i].len();
        push_metric(
            &mut metrics,
            TextLayoutLineMetric { start_ix, end_ix, extent: extents[i] },
        );
        start_ix = end_ix + 1;
        i = i + 1;
    }
    metrics
}

// ---------------------------------------------------------------------------
// Looking lines up

/// How many items at the front of a sequence satisfy a predicate.
pub open spec fn front_count<T>(items: Seq<T>, holds: spec_fn(T) -> bool) -> int
    decreases items.len(),
{
    if items.len() == 0 || !holds(items[0]) {
        0
    } else {
        1 + front_count(items.skip(1), holds)
    }
}

proof fn lemma_front_count<T>(items: Seq<T>, holds: spec_fn(T) -> bool, n: int)
    requires
        0 <= n <= items.len(),
        forall|i: int| 0 <= i < n ==> holds(#[trigger] items[i]),
        n < items.len() ==> !holds(items[n]),
    ensures
        front_count(items, holds) == n,
    decreases items.len(),
{
    if n > 0 {
        assert(holds(items[0]));
        assert forall|i: int| 0 <= i < n - 1 implies holds(#[trigger] items.skip(1)[i]) by {
            assert(items.skip(1)[i] == items[i + 1]);
        }
        lemma_front_count(items.skip(1), holds, n - 1);
    }
}

/// How many lines end before an index.
pub open spec fn lines_before_index(metrics: Seq<TextLayoutLineMetric>, index: nat) -> int {
    front_count(metrics, |metric: TextLayoutLineMetric| metric.end_ix < index)
}

/// How many lines end above a vertical position.
pub open spec fn lines_above(metrics: Seq<TextLayoutLineMetric>, y: Pixels) -> int {
    front_count(metrics, |metric: TextLayoutLineMetric| metric.extent.bottom.less(y))
}

/// Whether a vertical position parts the lines: no line that ends above it comes after
/// one that does not. Lines that follow each other downwards are parted by every
/// position.
pub open spec fn parts_lines(metrics: Seq<TextLayoutLineMetric>, y: Pixels) -> bool {
    forall|i: int, j: int|
        0 <= i <= j < metrics.len() && (#[trigger] metrics[j]).extent.bottom.less(y) ==> (
        #[trigger] metrics[i]).extent.bottom.less(y)
}

/// The line that holds an index of the text.
pub open spec fn line_of_index(metrics: Seq<TextLayoutLineMetric>, index: nat) -> Option<int> {
    let line = lines_before_index(metrics, index);
    if 0 <= line < metrics.len() && metrics[line].start_ix <= index {
        Some(line)
    } else {
        None
    }
}

fn find_line_by_index(metrics: &[TextLayoutLineMetric], index: usize) -> (line: usize)
    requires
        forall|i: int, j: int|
            0 <= i < j < metrics.len() ==> (#[trigger] metrics@[i]).end_ix < (
            #[trigger] metrics@[j]).end_ix,
    ensures
        line <= metrics.len(),
        line == lines_before_index(metrics@, index as nat),
{
    let mut low: usize = 0;
    let mut high: usize = metrics.len();
    while low < high
        invariant
            low <= high <= metrics.len(),
            forall|i: int, j: int|
                0 <= i < j < metrics.len() ==> (#[trigger] metrics@[i]).end_ix < (
                #[trigger] metrics@[j]).end_ix,
            forall|i: int| 0 <= i < low ==> (#[trigger] metrics@[i]).end_ix < index,
            forall|i: int| high <= i < metrics.len() ==> index <= (#[trigger] metrics@[i]).end_ix,
        decreases high - low,
    {
        let middle = low + (high - low) / 2;
        if metrics[middle].end_ix < index {
            low = middle + 1;
        } else {
            high = middle;
        }
    }
    proof {
        lemma_front_count(
            metrics@,
            |metric: TextLayoutLineMetric| metric.end_ix < index,
            low as int,
        );
        assert((|metric: TextLayoutLineMetric| metric.end_ix < index) =~= (
        |metric: TextLayoutLineMetric| metric.end_ix < index as nat));
    }
    low
}

fn find_line_by_position(metrics: &[TextLayoutLineMetric], y: Pixels) -> (line: usize)
    ensures
        line <= metrics.len(),
        parts_lines(metrics@, y) ==> line == lines_above(metrics@, y),
{
    let mut low: usize = 0;
    let mut high: usize = metrics.len();
    while low < high
        invariant
            low <= high <= metrics.len(),
            parts_lines(metrics@, y) ==> forall|i: int|
                0 <= i < low ==> (#[trigger] metrics@[i]).extent.bottom.less(y),
            parts_lines(metrics@, y) ==> forall|i: int|
                high <= i < metrics.len() ==> !(#[trigger] metrics@[i]).extent.bottom.less(y),
        decreases high - low,
    {
        let middle = low + (high - low) / 2;
        if metrics[middle].extent.bottom.is_less(y) {
            low = middle + 1;
        } else {
            high = middle;
        }
    }
    proof {
        if parts_lines(metrics@, y) {
            lemma_front_count(
                metrics@,
                |metric: TextLayoutLineMetric| metric.extent.bottom.less(y),
                low as int,
            );
        }
    }
    low
}

/// An index within a line, or the nearest one, as an index of the text.
pub open spec fn from_line_start(start_ix: usize, within: Result<usize, usize>) -> Result<
    usize,
    usize,
> {
    match within {
        Ok(index) => Ok((start_ix + index) as usize),
        Err(index) => Err((start_ix + index) as usize),
    }
}

/// The number in a result, whichever it is.
pub open spec fn either(result: Result<usize, usize>) -> usize {
    match result {
        Ok(index) => index,
        Err(index) => index,
    }
}

/// The end of the last line.
pub open spec fn last_end(metrics: Seq<TextLayoutLineMetric>) -> usize {
    if metrics.len() == 0 {
        0
    } else {
        metrics.last().end_ix
    }
}

// ---------------------------------------------------------------------------
// What a text is laid out for

/// How white space is treated.
#[derive(Clone, Copy, Debug, PartialEq, Eq, Structural)]
pub enum WhiteSpace {
    /// The text wraps when it is wider than its room.
    Normal,
    /// It never wraps.
    Nowrap,
}

/// The room for a text along one axis.
#[derive(Clone, Copy, Debug, PartialEq, Eq, Structural)]
pub enum AvailableSpace {
    /// That much.
    Definite(Pixels),
    /// As little as the text needs.
    MinContent,
    /// As much as it would take.
    MaxContent,
}

/// What becomes of text that is wider than its room. Each variant holds what stands for
/// the text that is left out.
#[derive(Debug)]
pub enum TextOverflow {
    /// The end is left out.
    Truncate(String),
    /// The start is left out.
    TruncateStart(String),
}

/// Where a text is truncated.
#[derive(Clone, Copy, Debug, PartialEq, Eq, Structural)]
pub enum TruncateFrom {
    Start,
    End,
}

/// How a text is truncated.
#[derive(Debug)]
pub struct Truncation {
    /// The width that it has to fit, if it is truncated at all.
    pub width: Option<Pixels>,
    /// What stands for the text that is left out.
    pub affix: String,
    pub from: TruncateFrom,
}

/// The width at which a text wraps: the known width or else a definite one, unless it
/// never wraps.
pub open spec fn wraps_at(
    white_space: WhiteSpace,
    known_width: Option<Pixels>,
    available_width: AvailableSpace,
) -> Option<Pixels> {
    match (white_space, known_width, available_width) {
        (WhiteSpace::Nowrap, _, _) => None,
        (WhiteSpace::Normal, Some(known), _) => Some(known),
        (WhiteSpace::Normal, None, AvailableSpace::Definite(definite)) => Some(definite),
        (WhiteSpace::Normal, None, _) => None,
    }
}

/// A limit on the number of lines.
#[derive(Clone, Copy, Debug, PartialEq, Eq, Structural)]
pub struct LineClamp {
    pub max_lines: usize,
    /// A definite available width times that number. It counts for nothing where the
    /// available width is not definite.
    pub total_width: Pixels,
}

/// The width that a text has to fit, if it is truncated: the known width or else a
/// definite one, for as many lines as the text may have.
pub open spec fn truncates_at(
    overflow: Option<TextOverflow>,
    known_width: Option<Pixels>,
    available_width: AvailableSpace,
    line_clamp: Option<LineClamp>,
) -> Option<Pixels> {
    match (overflow, known_width, available_width, line_clamp) {
        (None, _, _, _) => None,
        (Some(_), Some(known), _, _) => Some(known),
        (Some(_), None, AvailableSpace::Definite(_), Some(clamp)) => Some(clamp.total_width),
        (Some(_), None, AvailableSpace::Definite(definite), None) => Some(definite),
        (Some(_), None, _, _) => None,
    }
}

/// The width at which a text wraps.
pub fn wrap_width(
    white_space: WhiteSpace,
    known_width: Option<Pixels>,
    available_width: AvailableSpace,
) -> (width: Option<Pixels>)
    ensures
        width == wraps_at(white_space, known_width, available_width),
{
    match white_space {
        WhiteSpace::Nowrap => None,
        WhiteSpace::Normal => match known_width {
            Some(known) => Some(known),
            None => match available_width {
                AvailableSpace::Definite(definite) => Some(definite),
                _ => None,
            },
        },
    }
}

/// How a text is truncated.
pub fn truncation(
    overflow: Option<TextOverflow>,
    known_width: Option<Pixels>,
    available_width: AvailableSpace,
    line_clamp: Option<LineClamp>,
) -> (truncation: Truncation)
    ensures
        truncation.width == truncates_at(overflow, known_width, available_width, line_clamp),
        match overflow {
            None => truncation.affix@ == Seq::<char>::empty() && truncation.from
                == TruncateFrom::End,
            Some(TextOverflow::Truncate(affix)) => truncation.affix == affix && truncation.from
                == TruncateFrom::End,
            Some(TextOverflow::TruncateStart(affix)) => truncation.affix == affix
                && truncation.from == TruncateFrom::Start,
        },
{
    let width = match known_width {
        Some(known) => Some(known),
        None => match available_width {
            AvailableSpace::Definite(definite) => match line_clamp {
                Some(clamp) => Some(clamp.total_width),
                None => Some(definite),
            },
            _ => None,
        },
    };
    match overflow {
        None => Truncation { width: None, affix: String::new(), from: TruncateFrom::End },
        Some(TextOverflow::Truncate(affix)) => Truncation { width, affix, from: TruncateFrom::End },
        Some(TextOverflow::TruncateStart(affix)) => Truncation {
            width,
            affix,
            from: TruncateFrom::Start,
        },
    }
}

/// What a text is laid out for.
#[derive(Debug)]
pub struct LayoutRequest {
    pub white_space: WhiteSpace,
    pub overflow: Option<TextOverflow>,
    /// The most lines that the text may have.
    pub line_clamp: Option<LineClamp>,
    pub line_height: Pixels,
    /// The width, where it is known.
    pub known_width: Option<Pixels>,
    pub available_width: AvailableSpace,
}

impl LayoutRequest {
    /// The width at which the text wraps.
    pub open spec fn wraps_at(&self) -> Option<Pixels> {
        wraps_at(self.white_space, self.known_width, self.available_width)
    }

    /// The width that the text has to fit, if it is truncated.
    pub open spec fn truncates_at(&self) -> Option<Pixels> {
        truncates_at(self.overflow, self.known_width, self.available_width, self.line_clamp)
    }

    /// The most lines that the text may have.
    pub open spec fn max_lines(&self) -> Option<usize> {
        match self.line_clamp {
            Some(clamp) => Some(clamp.max_lines),
            None => None,
        }
    }
}

/// A text that was shaped into lines.
#[derive(Debug)]
pub struct ShapedText {
    pub lines: LineList,
    /// Where the lines lie on the screen.
    pub extents: Vec<LineExtent>,
    /// The size of all lines together.
    pub size: Size,
}

impl ShapedText {
    /// Each line has its place, and all of them fit into a text.
    pub open spec fn wf(&self) -> bool {
        &&& self.extents.len() == self.lines@.len()
        &&& line_start(self.lines@, self.lines@.len() as int) <= usize::MAX
    }
}

/// A text and its runs as they are shaped: truncated, where they are.
pub open spec fn cut_to_fit<
    R,
    Cut: FnOnce(String, Vec<R>, Pixels, String, TruncateFrom) -> (String, Vec<R>),
>(
    request: LayoutRequest,
    text: String,
    runs: Vec<R>,
    truncate: Cut,
    cut: (String, Vec<R>),
) -> bool {
    match (request.truncates_at(), request.overflow) {
        (Some(width), Some(TextOverflow::Truncate(affix))) => call_ensures(
            truncate,
            (text, runs, width, affix, TruncateFrom::End),
            cut,
        ),
        (Some(width), Some(TextOverflow::TruncateStart(affix))) => call_ensures(
            truncate,
            (text, runs, width, affix, TruncateFrom::Start),
            cut,
        ),
        _ => cut == (text, runs),
    }
}

// ---------------------------------------------------------------------------
// Soft wraps

impl WrappedLineLayout {
    /// Whether a boundary names a glyph of the line.
    pub open spec fn has_boundary(&self, boundary: WrapBoundary) -> bool {
        &&& boundary.run_ix < self.unwrapped_layout.runs@.len()
        &&& boundary.glyph_ix < self.unwrapped_layout.runs@[boundary.run_ix as int].glyphs@.len()
    }

    /// The byte of the line at which the glyph of a boundary begins.
    pub open spec fn boundary_index(&self, boundary: WrapBoundary) -> int {
        self.unwrapped_layout.runs@[boundary.run_ix as int].glyphs@[boundary.glyph_ix as int].index
            as int
    }
}

impl WrappedLine {
    /// How many soft wraps the line has.
    pub open spec fn wraps(&self) -> int {
        self.layout.wrap_boundaries@.len() as int
    }

    /// Where the piece after `i` soft wraps begins. The piece after the last one would
    /// begin where the text ends.
    pub open spec fn piece_start(&self, i: int) -> int {
        if i <= 0 {
            0
        } else if i <= self.wraps() {
            self.layout.boundary_index(self.layout.wrap_boundaries@[i - 1])
        } else {
            encode_utf8(self.text@).len() as int
        }
    }

    /// Whether the soft wraps cut the text of the line in order.
    pub open spec fn wraps_in_order(&self) -> bool {
        &&& forall|i: int|
            0 <= i < self.wraps() ==> self.layout.has_boundary(
                #[trigger] self.layout.wrap_boundaries@[i],
            )
        &&& forall|i: int|
            0 <= i <= self.wraps() ==> #[trigger] self.piece_start(i) <= self.piece_start(i + 1)
                && cut_at(self.text@, self.piece_start(i))
    }

    /// Whether the soft wraps cut the text of the line in order.
    pub fn has_wraps_in_order(&self) -> (in_order: bool)
        ensures
            in_order == self.wraps_in_order(),
    {
        let text = self.text.as_str();
        let boundaries = &self.layout.wrap_boundaries;
        let runs = &self.layout.unwrapped_layout.runs;
        let len = text.as_bytes().len();
        let mut seen: usize = 0;
        let mut i: usize = 0;
        proof {
            vstd::utf8::encode_utf8_valid_utf8(text@);
            vstd::utf8::is_char_boundary_start_end_of_seq(encode_utf8(text@));
        }
        while i < boundaries.len()
            invariant
                i <= boundaries.len(),
                boundaries@ == self.layout.wrap_boundaries@,
                runs@ == self.layout.unwrapped_layout.runs@,
                text@ == self.text@,
                len == encode_utf8(text@).len(),
                seen == self.piece_start(i as int),
                cut_at(text@, seen as int),
                forall|k: int|
                    0 <= k < i ==> self.layout.has_boundary(
                        #[trigger] self.layout.wrap_boundaries@[k],
                    ),
                forall|k: int|
                    0 <= k < i ==> #[trigger] self.piece_start(k) <= self.piece_start(k + 1)
                        && cut_at(self.text@, self.piece_start(k)),
            decreases boundaries.len() - i,
        {
            let boundary = boundaries[i];
            let ghost held = self.layout.has_boundary(self.layout.wrap_boundaries@[i as int]);
            if boundary.run_ix >= runs.len() {
                assert(!held);
                return false;
            }
            if boundary.glyph_ix >= runs[boundary.run_ix].glyphs.len() {
                assert(!held);
                return false;
            }
            let index = runs[boundary.run_ix].glyphs[boundary.glyph_ix].index;
            assert(index == self.piece_start(i + 1));
            if index < seen {
                assert(!(self.piece_start(i as int) <= self.piece_start(i + 1)));
                return false;
            }
            if index > len || !text.is_char_boundary(index) {
                assert(!cut_at(self.text@, self.piece_start(i + 1)));
                return false;
            }
            seen = index;
            i = i + 1;
        }
        assert(self.piece_start(i as int) <= self.piece_start(i + 1));
        true
    }

    /// The piece of the line after `i` soft wraps.
    pub open spec fn piece(&self, i: int) -> Seq<char> {
        byte_slice(self.text@, self.piece_start(i), self.piece_start(i + 1))
    }

    /// The first `n` pieces of the line.
    pub open spec fn pieces(&self, n: int) -> Seq<Seq<char>> {
        Seq::new(n as nat, |i: int| self.piece(i))
    }
}

/// The pieces of all lines, in order.
pub open spec fn wrapped_pieces(lines: Seq<WrappedLine>) -> Seq<Seq<char>>
    decreases lines.len(),
{
    if lines.len() == 0 {
        Seq::empty()
    } else {
        wrapped_pieces(lines.drop_last()) + lines.last().pieces(lines.last().wraps() + 1)
    }
}

/// A line feed.
pub open spec fn line_feed() -> Seq<char> {
    seq!['\n']
}

/// Appends a piece, after a line feed unless it is the first.
fn append_piece(text: &mut String, first: bool, piece: &str)
    ensures
        final(text)@ == if first {
            old(text)@ + piece@
        } else {
            old(text)@ + line_feed() + piece@
        },
{
    if !first {
        text.push('\n');
        assert(text@ =~= old(text)@ + line_feed());
    }
    text.append(piece);
}

/// Appends the pieces of a line to those of the lines before it.
fn append_line(
    text: &mut String,
    Ghost(before): Ghost<Seq<Seq<char>>>,
    first: bool,
    line: &WrappedLine,
)
    requires
        old(text)@ == joined(before, line_feed()),
        first == (before.len() == 0),
        line.wraps_in_order(),
    ensures
        final(text)@ == joined(before + line.pieces(line.wraps() + 1), line_feed()),
{
    let boundaries = &line.layout.wrap_boundaries;
    let mut seen: usize = 0;
    let mut i: usize = 0;
    assert(before + line.pieces(0) =~= before);
    while i < boundaries.len()
        invariant
            i <= boundaries.len(),
            boundaries@ == line.layout.wrap_boundaries@,
            line.wraps_in_order(),
            first == (before.len() == 0),
            seen == line.piece_start(i as int),
            text@ == joined(before + line.pieces(i as int), line_feed()),
        decreases boundaries.len() - i,
    {
        let boundary = boundaries[i];
        assert(line.layout.has_boundary(line.layout.wrap_boundaries@[i as int]));
        let run = &line.layout.unwrapped_layout.runs[boundary.run_ix];
        let index = run.glyphs[boundary.glyph_ix].index;
        proof {
            assert(line.piece_start(i as int) <= line.piece_start(i + 1));
            assert(cut_at(line.text@, line.piece_start(i + 1)));
            let whole = before + line.pieces(i + 1);
            assert(whole.drop_last() =~= before + line.pieces(i as int));
            assert(whole.last() == line.piece(i as int));
            if first && i == 0 {
                assert(joined(before, line_feed()) =~= Seq::<char>::empty());
                assert(joined(whole, line_feed()) =~= text@ + line.piece(0));
            }
        }
        append_piece(text, first && i == 0, text_slice(line.text.as_str(), seen, index));
        seen = index;
        i = i + 1;
    }
    proof {
        assert(line.piece_start(i as int) <= line.piece_start(i + 1));
        vstd::utf8::encode_utf8_valid_utf8(line.text@);
        vstd::utf8::is_char_boundary_start_end_of_seq(encode_utf8(line.text@));
        let whole = before + line.pieces(i + 1);
        assert(whole.drop_last() =~= before + line.pieces(i as int));
        assert(whole.last() == line.piece(i as int));
        if first && i == 0 {
            assert(joined(before, line_feed()) =~= Seq::<char>::empty());
            assert(joined(whole, line_feed()) =~= text@ + line.piece(0));
        }
    }
    let len = line.text.as_str().as_bytes().len();
    append_piece(text, first && i == 0, text_slice(line.text.as_str(), seen, len));
}

// ---------------------------------------------------------------------------
// Layouts

/// What a layout keeps of a measurement.
pub struct TextLayoutView {
    /// The UTF-8 length of the text.
    pub len: usize,
    pub lines: Seq<WrappedLine>,
    pub metrics: Seq<TextLayoutLineMetric>,
    pub line_height: Pixels,
    /// The width at which the text was wrapped.
    pub wrap_width: Option<Pixels>,
    pub size: Size,
    /// Where the text is painted, once that is known.
    pub bounds: Option<Bounds>,
}

#[derive(Debug)]
struct TextLayoutInner {
    len: usize,
    lines: LineList,
    line_metrics: MetricList,
    line_height: Pixels,
    wrap_width: Option<Pixels>,
    size: Size,
    bounds: Option<Bounds>,
}

/// The layout of a text. This can be used to map indices to pixels and back.
///
/// It is empty until the text is measured.
#[derive(Debug)]
pub struct TextLayout {
    inner: Option<TextLayoutInner>,
}

impl View for TextLayout {
    type V = Option<TextLayoutView>;

    closed spec fn view(&self) -> Option<TextLayoutView> {
        match self.inner {
            None => None,
            Some(inner) => Some(
                TextLayoutView {
                    len: inner.len,
                    lines: inner.lines@,
                    metrics: inner.line_metrics@,
                    line_height: inner.line_height,
                    wrap_width: inner.wrap_width,
                    size: inner.size,
                    bounds: inner.bounds,
                },
            ),
        }
    }
}

/// Whether two optional lengths are both missing or are equal numbers.
pub open spec fn same_width(left: Option<Pixels>, right: Option<Pixels>) -> bool {
    match (left, right) {
        (None, None) => true,
        (Some(left), Some(right)) => left.equal(right),
        _ => false,
    }
}

/// The texts of lines, in order.
pub open spec fn line_texts(lines: Seq<WrappedLine>) -> Seq<Seq<char>> {
    lines.map_values(|line: WrappedLine| line.text@)
}

/// Whether laying a text out leads from one layout to another: an earlier measurement is
/// used again where it can be, and else the text is cut to fit, shaped and kept.
pub open spec fn laid_out<
    R,
    Cut: FnOnce(String, Vec<R>, Pixels, String, TruncateFrom) -> (String, Vec<R>),
    Shape: FnOnce(String, Vec<R>, Option<Pixels>, Option<usize>) -> Option<ShapedText>,
>(
    before: TextLayout,
    text: String,
    runs: Vec<R>,
    request: LayoutRequest,
    truncate: Cut,
    shape: Shape,
    after: TextLayout,
) -> bool {
    if before.can_use_again(request.wraps_at(), request.truncates_at()) {
        after == before
    } else {
        exists|cut: (String, Vec<R>), shaped: Option<ShapedText>|
            cut_to_fit(request, text, runs, truncate, cut) && #[trigger] call_ensures(
                shape,
                (cut.0, cut.1, request.wraps_at(), request.max_lines()),
                shaped,
            ) && after.keeps(
                encode_utf8(cut.0@).len() as usize,
                shaped,
                request.line_height,
                request.wraps_at(),
            )
    }
}

impl Default for TextLayout {
    fn default() -> (layout: TextLayout)
        ensures
            layout@ is None,
            layout.wf(),
    {
        TextLayout { inner: None }
    }
}

impl TextLayout {
    /// The metrics say where the lines lie in the text.
    pub open spec fn wf(&self) -> bool {
        self@ matches Some(layout) ==> metrics_of(layout.metrics, layout.lines)
    }

    /// Whether an earlier measurement can be used again: the text is to be wrapped where
    /// it was wrapped then, or as then nowhere, and it is not to be truncated. One that is
    /// truncated has to be laid out anew, because it may have been measured without
    /// truncation.
    pub open spec fn can_use_again(
        &self,
        wrap_width: Option<Pixels>,
        truncate_width: Option<Pixels>,
    ) -> bool {
        &&& self@ is Some
        &&& same_width(wrap_width, self@->0.wrap_width)
        &&& truncate_width is None
    }

    /// The size of an earlier measurement, where it can be used again.
    pub fn cached_size(&self, wrap_width: Option<Pixels>, truncate_width: Option<Pixels>) -> (size:
        Option<Size>)
        ensures
            size == if self.can_use_again(wrap_width, truncate_width) {
                Some(self@->0.size)
            } else {
                None
            },
    {
        match &self.inner {
            None => None,
            Some(inner) => {
                let same = match (wrap_width, inner.wrap_width) {
                    (None, None) => true,
                    (Some(left), Some(right)) => left.is_equal(right),
                    _ => false,
                };
                if same && truncate_width.is_none() {
                    Some(inner.size)
                } else {
                    None
                }
            },
        }
    }

    /// Keeps a measurement. The text was shaped into lines that lie at `extents`.
    pub fn store(
        &mut self,
        len: usize,
        lines: LineList,
        extents: &Vec<LineExtent>,
        line_height: Pixels,
        wrap_width: Option<Pixels>,
        size: Size,
    )
        requires
            extents.len() == lines@.len(),
            line_start(lines@, lines@.len() as int) <= usize::MAX,
        ensures
            final(self).wf(),
            final(self)@ is Some,
            final(self)@->0.len == len,
            final(self)@->0.lines == lines@,
            final(self)@->0.metrics.map_values(|metric: TextLayoutLineMetric| metric.extent)
                == extents@,
            final(self)@->0.line_height == line_height,
            final(self)@->0.wrap_width == wrap_width,
            final(self)@->0.size == size,
            final(self)@->0.bounds is None,
    {
        let line_metrics = text_layout_line_metrics(&lines, extents);
        assert(line_metrics@.map_values(|metric: TextLayoutLineMetric| metric.extent)
            =~= extents@);
        self.inner = Some(
            TextLayoutInner {
                len,
                lines,
                line_metrics,
                line_height,
                wrap_width,
                size,
                bounds: None,
            },
        );
    }

    /// Keeps that the text could not be shaped: it has no lines and takes up no room.
    pub fn store_failure(&mut self, line_height: Pixels, wrap_width: Option<Pixels>)
        ensures
            final(self).wf(),
            final(self)@ == Some(
                (TextLayoutView {
                    len: 0,
                    lines: Seq::empty(),
                    metrics: Seq::empty(),
                    line_height,
                    wrap_width,
                    size: (Size { width: Pixels { bits: 0 }, height: Pixels { bits: 0 } }),
                    bounds: None,
                }),
            ),
    {
        let lines = LineList::new(Vec::new());
        let line_metrics = new_metric_list();
        let size = Size { width: Pixels::zero(), height: Pixels::zero() };
        assert(lines@ =~= Seq::<WrappedLine>::empty());
        self.inner = Some(
            TextLayoutInner {
                len: 0,
                lines,
                line_metrics,
                line_height,
                wrap_width,
                size,
                bounds: None,
            },
        );
    }

    /// Whether this layout keeps what a measurement found: a shaped text, or that a text
    /// of no lines takes up no room where it could not be shaped.
    pub open spec fn keeps(
        &self,
        len: usize,
        shaped: Option<ShapedText>,
        line_height: Pixels,
        wrap_width: Option<Pixels>,
    ) -> bool {
        &&& self@ is Some
        &&& self@->0.line_height == line_height
        &&& self@->0.wrap_width == wrap_width
        &&& self@->0.bounds is None
        &&& match shaped {
            Some(shaped) => {
                &&& self@->0.len == len
                &&& self@->0.lines == shaped.lines@
                &&& self@->0.metrics.map_values(|metric: TextLayoutLineMetric| metric.extent)
                    == shaped.extents@
                &&& self@->0.size == shaped.size
            },
            None => {
                &&& self@->0.len == 0
                &&& self@->0.lines == Seq::<WrappedLine>::empty()
                &&& self@->0.size == (Size {
                    width: Pixels { bits: 0 },
                    height: Pixels { bits: 0 },
                })
            },
        }
    }

    /// Measures a text, unless an earlier measurement can be used again. `truncate` cuts
    /// a text and its runs to a width, and `shape` shapes a text into lines, wrapped at
    /// a width and no more of them than the text may have; it gives none where that
    /// fails.
    pub fn layout<
        R,
        Cut: FnOnce(String, Vec<R>, Pixels, String, TruncateFrom) -> (String, Vec<R>),
        Shape: FnOnce(String, Vec<R>, Option<Pixels>, Option<usize>) -> Option<ShapedText>,
    >(
        &mut self,
        text: String,
        runs: Vec<R>,
        request: LayoutRequest,
        truncate: Cut,
        shape: Shape,
    ) -> (size: Size)
        requires
            forall|width: Pixels, affix: String, from: TruncateFrom| #[trigger]
                call_requires(truncate, (text, runs, width, affix, from)),
            forall|cut: (String, Vec<R>)| #[trigger]
                call_requires(shape, (cut.0, cut.1, request.wraps_at(), request.max_lines())),
            forall|cut: (String, Vec<R>), shaped: Option<ShapedText>| #[trigger]
                call_ensures(
                    shape,
                    (cut.0, cut.1, request.wraps_at(), request.max_lines()),
                    shaped,
                ) && shaped is Some ==> shaped->0.wf(),
        ensures
            final(self)@ is Some,
            size == final(self)@->0.size,
            old(self).wf() ==> final(self).wf(),
            laid_out(*old(self), text, runs, request, truncate, shape, *final(self)),
    {
        let ghost asked = request;
        let wrap_width = wrap_width(
            request.white_space,
            request.known_width,
            request.available_width,
        );
        let line_height = request.line_height;
        let max_lines = match request.line_clamp {
            Some(clamp) => Some(clamp.max_lines),
            None => None,
        };
        let truncation = truncation(
            request.overflow,
            request.known_width,
            request.available_width,
            request.line_clamp,
        );
        if let Some(size) = self.cached_size(wrap_width, truncation.width) {
            return size;
        }
        let (text, runs) = match truncation.width {
            Some(width) => truncate(text, runs, width, truncation.affix, truncation.from),
            None => (text, runs),
        };
        let ghost cut = (text, runs);
        let len = text.as_str().as_bytes().len();
        let shaped = shape(text, runs, wrap_width, max_lines);
        let ghost found = shaped;
        assert(call_ensures(shape, (cut.0, cut.1, asked.wraps_at(), asked.max_lines()), found));
        match shaped {
            Some(shaped) => {
                let size = shaped.size;
                self.store(len, shaped.lines, &shaped.extents, line_height, wrap_width, size);
                assert(self.keeps(len, found, line_height, wrap_width));
                size
            },
            None => {
                self.store_failure(line_height, wrap_width);
                assert(self.keeps(len, found, line_height, wrap_width));
                Size { width: Pixels::zero(), height: Pixels::zero() }
            },
        }
    }

    /// Whether the text was measured.
    pub fn is_measured(&self) -> (measured: bool)
        ensures
            measured == (self@ is Some),
    {
        self.inner.is_some()
    }

    /// Whether it is known where the text is painted.
    pub fn is_prepainted(&self) -> (prepainted: bool)
        ensures
            prepainted == (self@ is Some && self@->0.bounds is Some),
    {
        match &self.inner {
            None => false,
            Some(inner) => inner.bounds.is_some(),
        }
    }

    /// Keeps where the text is painted.
    pub fn prepaint(&mut self, bounds: Bounds)
        requires
            old(self)@ is Some,
        ensures
            final(self)@ == Some((TextLayoutView { bounds: Some(bounds), ..old(self)@->0 })),
            old(self).wf() ==> final(self).wf(),
    {
        if let Some(inner) = self.inner.take() {
            self.inner = Some(TextLayoutInner { bounds: Some(bounds), ..inner });
        }
    }

    fn measured(&self) -> (inner: &TextLayoutInner)
        requires
            self@ is Some,
        ensures
            self.inner == Some(*inner),
    {
        self.inner.as_ref().unwrap()
    }

    /// Get the byte index into the input of a position, or the nearest index. The
    /// position lies at `y`, which is `y_in_text` below the top of the text.
    /// `within` looks a position up within one line.
    pub fn index_for_position(
        &self,
        y: Pixels,
        y_in_text: Pixels,
        within: impl Fn(usize, LineExtent) -> Result<usize, usize>,
    ) -> (index: Result<usize, usize>)
        requires
            self.wf(),
            self@ is Some,
            self@->0.bounds is Some,
            forall|line: usize|
                line < self@->0.metrics.len() ==> #[trigger] call_requires(
                    within,
                    (line, self@->0.metrics[line as int].extent),
                ),
            forall|line: usize, found: Result<usize, usize>|
                line < self@->0.metrics.len() && #[trigger] call_ensures(
                    within,
                    (line, self@->0.metrics[line as int].extent),
                    found,
                ) ==> self@->0.metrics[line as int].start_ix + either(found) <= usize::MAX,
        ensures
            y.less(self@->0.bounds->0.origin.y) ==> index == Err::<usize, usize>(0),
            !y.less(self@->0.bounds->0.origin.y) ==> index == Err::<usize, usize>(
                last_end(self@->0.metrics),
            ) || exists|line: usize, found: Result<usize, usize>|
                line < self@->0.metrics.len() && #[trigger] call_ensures(
                    within,
                    (line, self@->0.metrics[line as int].extent),
                    found,
                ) && index == from_line_start(self@->0.metrics[line as int].start_ix, found),
            !y.less(self@->0.bounds->0.origin.y) && parts_lines(self@->0.metrics, y_in_text) ==> {
                let line = lines_above(self@->0.metrics, y_in_text) as usize;
                if line >= self@->0.metrics.len() {
                    index == Err::<usize, usize>(last_end(self@->0.metrics))
                } else {
                    exists|found: Result<usize, usize>| #[trigger]
                        call_ensures(
                            within,
                            (line, self@->0.metrics[line as int].extent),
                            found,
                        ) && index == from_line_start(
                            self@->0.metrics[line as int].start_ix,
                            found,
                        )
                }
            },
    {
        let inner = self.measured();
        let bounds = inner.bounds.unwrap();
        if y.is_less(bounds.origin.y) {
            return Err(0);
        }
        let metrics = inner.line_metrics.as_slice();
        let line = find_line_by_position(metrics, y_in_text);
        if line >= metrics.len() {
            return Err(
                if metrics.len() == 0 {
                    0
                } else {
                    metrics[metrics.len() - 1].end_ix
                },
            );
        }
        let metric = metrics[line];
        let found = within(line, metric.extent);
        assert(call_ensures(within, (line, self@->0.metrics[line as int].extent), found));
        match found {
            Ok(index) => Ok(metric.start_ix + index),
            Err(index) => Err(metric.start_ix + index),
        }
    }

    /// The line that holds an index, and the metric of that line.
    fn line_for_index(&self, index: usize) -> (found: Option<(usize, TextLayoutLineMetric)>)
        requires
            self.wf(),
            self@ is Some,
        ensures
            match line_of_index(self@->0.metrics, index as nat) {
                None => found is None,
                Some(line) => found == Some((line as usize, self@->0.metrics[line]))
                    && 0 <= line < self@->0.lines.len() && line <= usize::MAX
                    && self@->0.metrics[line].start_ix <= index,
            },
    {
        let metrics = self.measured().line_metrics.as_slice();
        proof {
            lemma_ends_grow(self@->0.metrics, self@->0.lines);
        }
        let line = find_line_by_index(metrics, index);
        if line < metrics.len() && metrics[line].start_ix <= index {
            Some((line, metrics[line]))
        } else {
            None
        }
    }

    /// Get the position of a byte index, if a line holds it. `within` gives the
    /// position of an index within one line.
    pub fn position_for_index<P>(
        &self,
        index: usize,
        within: impl Fn(usize, LineExtent, usize) -> Option<P>,
    ) -> (position: Option<P>)
        requires
            self.wf(),
            self@ is Some,
            self@->0.bounds is Some,
            line_of_index(self@->0.metrics, index as nat) matches Some(line) ==> call_requires(
                within,
                (
                    line as usize,
                    self@->0.metrics[line].extent,
                    (index - self@->0.metrics[line].start_ix) as usize,
                ),
            ),
        ensures
            match line_of_index(self@->0.metrics, index as nat) {
                None => position is None,
                Some(line) => call_ensures(
                    within,
                    (
                        line as usize,
                        self@->0.metrics[line].extent,
                        (index - self@->0.metrics[line].start_ix) as usize,
                    ),
                    position,
                ),
            },
    {
        match self.line_for_index(index) {
            None => None,
            Some((line, metric)) => within(line, metric.extent, index - metric.start_ix),
        }
    }

    /// Retrieve the layout of the line that holds a byte index.
    pub fn line_layout_for_index(&self, index: usize) -> (layout: Option<Arc<WrappedLineLayout>>)
        requires
            self.wf(),
            self@ is Some,
            self@->0.bounds is Some,
        ensures
            layout == match line_of_index(self@->0.metrics, index as nat) {
                None => None,
                Some(line) => Some(self@->0.lines[line].layout),
            },
    {
        match self.line_for_index(index) {
            None => None,
            Some((line, _)) => Some(share(&self.measured().lines.as_slice()[line].layout)),
        }
    }

    /// The bounds of this layout.
    pub fn bounds(&self) -> (bounds: Bounds)
        requires
            self@ is Some,
            self@->0.bounds is Some,
        ensures
            Some(bounds) == self@->0.bounds,
    {
        self.measured().bounds.unwrap()
    }

    /// The line height for this layout.
    pub fn line_height(&self) -> (height: Pixels)
        requires
            self@ is Some,
        ensures
            height == self@->0.line_height,
    {
        self.measured().line_height
    }

    /// The UTF-8 length of the underlying text.
    pub fn len(&self) -> (len: usize)
        requires
            self@ is Some,
        ensures
            len == self@->0.len,
    {
        self.measured().len
    }

    /// The lines of this layout, in order.
    pub fn lines(&self) -> (lines: &[WrappedLine])
        requires
            self@ is Some,
        ensures
            lines@ == self@->0.lines,
    {
        self.measured().lines.as_slice()
    }

    /// Where the lines of this layout lie, in order.
    pub fn line_metrics(&self) -> (metrics: &[TextLayoutLineMetric])
        requires
            self@ is Some,
        ensures
            metrics@ == self@->0.metrics,
    {
        self.measured().line_metrics.as_slice()
    }

    /// The text for this layout.
    pub fn text(&self) -> (text: String)
        requires
            self@ is Some,
        ensures
            text@ == joined(line_texts(self@->0.lines), line_feed()),
    {
        let lines = self.lines();
        let mut parts: Vec<String> = Vec::new();
        let mut i: usize = 0;
        while i < lines.len()
            invariant
                i <= lines.len(),
                texts(parts@) == line_texts(lines@.take(i as int)),
            decreases lines.len() - i,
        {
            let ghost before = parts@;
            parts.push(lines[i].text.clone());
            proof {
                assert(texts(parts@) =~= texts(before).push(lines@[i as int].text@));
                assert(line_texts(lines@.take(i + 1)) =~= line_texts(lines@.take(i as int)).push(
                    lines@[i as int].text@,
                ));
            }
            i = i + 1;
        }
        proof {
            assert(lines@.take(i as int) =~= lines@);
            reveal_strlit("\n");
            assert("\n"@ =~= line_feed());
        }
        join(&parts, "\n")
    }

    /// The text for this layout (with soft-wraps as newlines)
    pub fn wrapped_text(&self) -> (text: String)
        requires
            self@ is Some,
            forall|i: int|
                0 <= i < self@->0.lines.len() ==> (#[trigger] self@->0.lines[i]).wraps_in_order(),
        ensures
            text@ == joined(wrapped_pieces(self@->0.lines), line_feed()),
    {
        let lines = self.lines();
        let mut text = String::new();
        let mut i: usize = 0;
        assert(text@ =~= Seq::<char>::empty());
        while i < lines.len()
            invariant
                i <= lines.len(),
                forall|k: int| 0 <= k < lines@.len() ==> (#[trigger] lines@[k]).wraps_in_order(),
                text@ == joined(wrapped_pieces(lines@.take(i as int)), line_feed()),
                i == 0 <==> wrapped_pieces(lines@.take(i as int)).len() == 0,
            decreases lines.len() - i,
        {
            let ghost before = wrapped_pieces(lines@.take(i as int));
            append_line(&mut text, Ghost(before), i == 0, &lines[i]);
            proof {
                assert(lines@.take(i + 1).drop_last() =~= lines@.take(i as int));
            }
            i = i + 1;
        }
        assert(lines@.take(i as int) =~= lines@);
        text
    }
}

proof fn lemma_ends_grow(metrics: Seq<TextLayoutLineMetric>, lines: Seq<WrappedLine>)
    requires
        metrics_of(metrics, lines),
    ensures
        forall|i: int, j: int|
            0 <= i < j < metrics.len() ==> (#[trigger] metrics[i]).end_ix < (
            #[trigger] metrics[j]).end_ix,
{
    assert forall|i: int, j: int| 0 <= i < j < metrics.len() implies (
    #[trigger] metrics[i]).end_ix < (#[trigger] metrics[j]).end_ix by {
        lemma_line_start_grows(lines, i, j);
    }
}

// ---------------------------------------------------------------------------
// What holds of all layouts

/// Whether an index lies in a line: between its start and its end, both included.
pub open spec fn in_line(metric: TextLayoutLineMetric, index: nat) -> bool {
    metric.start_ix <= index <= metric.end_ix
}

proof fn lemma_front_count_bounds<T>(items: Seq<T>, holds: spec_fn(T) -> bool)
    ensures
        0 <= front_count(items, holds) <= items.len(),
        forall|i: int| 0 <= i < front_count(items, holds) ==> holds(#[trigger] items[i]),
        front_count(items, holds) < items.len() ==> !holds(items[front_count(items, holds)]),
    decreases items.len(),
{
    if items.len() > 0 && holds(items[0]) {
        let rest = items.skip(1);
        lemma_front_count_bounds(rest, holds);
        assert forall|i: int| 0 <= i < front_count(items, holds) implies holds(
            #[trigger] items[i],
        ) by {
            if i > 0 {
                assert(items[i] == rest[i - 1]);
            }
        }
        assert(rest.len() == items.len() - 1);
    }
}

/// The line that is found for an index is the only one in which the index lies, and
/// one is found for every index up to the end of the last line.
pub proof fn law_each_index_lies_in_one_line(
    metrics: Seq<TextLayoutLineMetric>,
    lines: Seq<WrappedLine>,
    index: nat,
)
    requires
        metrics_of(metrics, lines),
    ensures
        line_of_index(metrics, index) is Some <==> lines.len() > 0 && index <= last_end(metrics),
        line_of_index(metrics, index) matches Some(line) ==> forall|i: int|
            0 <= i < metrics.len() ==> (in_line(#[trigger] metrics[i], index) <==> i == line),
        line_of_index(metrics, index) is None ==> forall|i: int|
            0 <= i < metrics.len() ==> !in_line(#[trigger] metrics[i], index),
{
    let before = |metric: TextLayoutLineMetric| metric.end_ix < index;
    let line = lines_before_index(metrics, index);
    lemma_front_count_bounds(metrics, before);
    lemma_ends_grow(metrics, lines);
    assert forall|i: int, j: int| 0 <= i < j < metrics.len() implies (
    #[trigger] metrics[i]).end_ix < (#[trigger] metrics[j]).start_ix by {
        lemma_line_start_grows(lines, i, j);
    }
    if line < metrics.len() {
        assert(index <= metrics[line].end_ix);
        if line > 0 {
            assert(before(metrics[line - 1]));
            assert(line_start(lines, line) == line_start(lines, line - 1) + lines[line
                - 1].spec_len() + 1);
            assert(metrics[line].start_ix == metrics[line - 1].end_ix + 1);
        } else {
            assert(metrics[0].start_ix == line_start(lines, 0));
        }
        assert(metrics[line].start_ix <= index);
        assert forall|i: int| 0 <= i < metrics.len() implies (in_line(
            #[trigger] metrics[i],
            index,
        ) <==> i == line) by {
            if i < line {
                assert(before(metrics[i]));
            } else if i > line {
                assert(metrics[line].end_ix < metrics[i].start_ix);
            }
        }
        if line < metrics.len() - 1 {
            assert(metrics[line].end_ix < metrics[metrics.len() - 1].end_ix);
        }
    } else {
        assert forall|i: int| 0 <= i < metrics.len() implies !in_line(
            #[trigger] metrics[i],
            index,
        ) by {
            assert(before(metrics[i]));
        }
        if metrics.len() > 0 {
            assert(before(metrics[metrics.len() - 1]));
        }
    }
}

/// The bytes of two texts together are the bytes of the one and then those of the other.
pub proof fn lemma_encode_concat(left: Seq<char>, right: Seq<char>)
    ensures
        encode_utf8(left + right) == encode_utf8(left) + encode_utf8(right),
    decreases left.len(),
{
    if left.len() == 0 {
        assert(left + right =~= right);
    } else {
        assert((left + right).drop_first() =~= left.drop_first() + right);
        lemma_encode_concat(left.drop_first(), right);
        assert(encode_utf8(left + right) =~= encode_utf8(left) + encode_utf8(right));
    }
}

/// The last line ends where the text ends: where each line is as long as its text, the
/// end of the last metric is the UTF-8 length of the text.
pub proof fn law_lines_cover_the_text(
    metrics: Seq<TextLayoutLineMetric>,
    lines: Seq<WrappedLine>,
)
    requires
        metrics_of(metrics, lines),
        forall|i: int|
            0 <= i < lines.len() ==> (#[trigger] lines[i]).spec_len() == encode_utf8(
                lines[i].text@,
            ).len(),
    ensures
        last_end(metrics) == encode_utf8(joined(line_texts(lines), line_feed())).len(),
{
    if lines.len() > 0 {
        lemma_joined_length(lines);
        assert(metrics.last().end_ix == line_start(lines, lines.len() - 1) + lines[lines.len()
            - 1].spec_len());
    }
}

proof fn lemma_joined_length(lines: Seq<WrappedLine>)
    requires
        lines.len() > 0,
        forall|i: int|
            0 <= i < lines.len() ==> (#[trigger] lines[i]).spec_len() == encode_utf8(
                lines[i].text@,
            ).len(),
    ensures
        encode_utf8(joined(line_texts(lines), line_feed())).len() == line_start(
            lines,
            lines.len() - 1,
        ) + lines[lines.len() - 1].spec_len(),
    decreases lines.len(),
{
    let all = line_texts(lines);
    if lines.len() == 1 {
        assert(joined(all, line_feed()) == lines[0].text@);
    } else {
        let front = lines.drop_last();
        lemma_joined_length(front);
        assert(all.drop_last() =~= line_texts(front));
        let head = joined(line_texts(front), line_feed());
        lemma_encode_concat(head, line_feed());
        lemma_encode_concat(head + line_feed(), lines.last().text@);
        vstd::utf8::is_ascii_chars_encode_utf8(line_feed());
        lemma_line_start_prefix(front, lines, lines.len() - 2);
    }
}

proof fn lemma_line_start_prefix(front: Seq<WrappedLine>, lines: Seq<WrappedLine>, i: int)
    requires
        0 <= i <= front.len() < lines.len(),
        front == lines.take(front.len() as int),
    ensures
        line_start(front, i) == line_start(lines, i),
    decreases i,
{
    if i > 0 {
        lemma_line_start_prefix(front, lines, i - 1);
        assert(front[i - 1] == lines[i - 1]);
    }
}

/// Soft wraps only add line feeds: the pieces of a line, with nothing between them, are
/// its text.
pub proof fn law_pieces_make_up_the_line(line: WrappedLine)
    requires
        line.wraps_in_order(),
    ensures
        joined(line.pieces(line.wraps() + 1), Seq::empty()) == line.text@,
{
    lemma_pieces_joined(line, line.wraps() + 1);
    let bytes = encode_utf8(line.text@);
    assert(bytes.subrange(0, bytes.len() as int) =~= bytes);
    vstd::utf8::encode_utf8_decode_utf8(line.text@);
}

proof fn lemma_pieces_joined(line: WrappedLine, n: int)
    requires
        line.wraps_in_order(),
        1 <= n <= line.wraps() + 1,
    ensures
        joined(line.pieces(n), Seq::empty()) == byte_slice(line.text@, 0, line.piece_start(n)),
    decreases n,
{
    let pieces = line.pieces(n);
    if n == 1 {
        assert(pieces[0] == line.piece(0));
    } else {
        lemma_pieces_joined(line, n - 1);
        assert(pieces.drop_last() =~= line.pieces(n - 1));
        assert(pieces.last() == line.piece(n - 1));
        assert(line.piece_start(n - 1) <= line.piece_start(n - 1 + 1));
        if n <= line.wraps() {
            assert(line.piece_start(n) <= line.piece_start(n + 1));
        } else {
            vstd::utf8::encode_utf8_valid_utf8(line.text@);
            vstd::utf8::is_char_boundary_start_end_of_seq(encode_utf8(line.text@));
        }
        lemma_byte_slice_split(line.text@, line.piece_start(n - 1), line.piece_start(n));
        let front = joined(line.pieces(n - 1), Seq::empty());
        assert(front + Seq::<char>::empty() =~= front);
    }
}

proof fn lemma_joined_concat(first: Seq<Seq<char>>, second: Seq<Seq<char>>, sep: Seq<char>)
    requires
        first.len() > 0,
        second.len() > 0,
    ensures
        joined(first + second, sep) == joined(first, sep) + sep + joined(second, sep),
    decreases second.len(),
{
    let all = first + second;
    assert(all.drop_last() =~= first + second.drop_last());
    if second.len() == 1 {
        assert(all.drop_last() =~= first);
    } else {
        lemma_joined_concat(first, second.drop_last(), sep);
        assert(joined(all, sep) =~= joined(first, sep) + sep + joined(second, sep));
    }
}

/// All pieces of a line.
pub open spec fn all_pieces(line: WrappedLine) -> Seq<Seq<char>> {
    line.pieces(line.wraps() + 1)
}

/// The lines of a text, each with something between its pieces.
pub open spec fn lines_with(lines: Seq<WrappedLine>, between: Seq<char>) -> Seq<Seq<char>> {
    lines.map_values(|line: WrappedLine| joined(all_pieces(line), between))
}

/// How many soft wraps lines have together.
pub open spec fn total_wraps(lines: Seq<WrappedLine>) -> int
    decreases lines.len(),
{
    if lines.len() == 0 {
        0
    } else {
        total_wraps(lines.drop_last()) + lines.last().wraps()
    }
}

proof fn lemma_wrapped_lines(lines: Seq<WrappedLine>)
    ensures
        joined(wrapped_pieces(lines), line_feed()) == joined(
            lines_with(lines, line_feed()),
            line_feed(),
        ),
        lines.len() > 0 ==> wrapped_pieces(lines).len() > 0,
    decreases lines.len(),
{
    if lines.len() > 0 {
        let front = lines.drop_last();
        let last = all_pieces(lines.last());
        let whole = lines_with(lines, line_feed());
        lemma_wrapped_lines(front);
        assert(whole.drop_last() =~= lines_with(front, line_feed()));
        assert(whole.last() == joined(last, line_feed()));
        if front.len() == 0 {
            assert(wrapped_pieces(lines) =~= last);
        } else {
            lemma_joined_concat(wrapped_pieces(front), last, line_feed());
        }
    }
}

proof fn lemma_pieces_length(pieces: Seq<Seq<char>>)
    requires
        pieces.len() > 0,
    ensures
        joined(pieces, line_feed()).len() == joined(pieces, Seq::empty()).len() + pieces.len()
            - 1,
    decreases pieces.len(),
{
    if pieces.len() > 1 {
        lemma_pieces_length(pieces.drop_last());
    }
}

proof fn lemma_wrapped_length(lines: Seq<WrappedLine>)
    ensures
        joined(lines_with(lines, line_feed()), line_feed()).len() == joined(
            lines_with(lines, Seq::empty()),
            line_feed(),
        ).len() + total_wraps(lines),
    decreases lines.len(),
{
    if lines.len() > 0 {
        let front = lines.drop_last();
        let wrapped = lines_with(lines, line_feed());
        let plain = lines_with(lines, Seq::empty());
        lemma_wrapped_length(front);
        lemma_pieces_length(all_pieces(lines.last()));
        assert(wrapped.drop_last() =~= lines_with(front, line_feed()));
        assert(plain.drop_last() =~= lines_with(front, Seq::empty()));
        assert(wrapped.last() == joined(all_pieces(lines.last()), line_feed()));
        assert(plain.last() == joined(all_pieces(lines.last()), Seq::empty()));
    }
}

/// The wrapped text is the text with one line feed for each soft wrap: both are the
/// pieces of the lines, with line feeds between the lines; within a line the pieces have
/// a line feed between them in the one and nothing in the other.
pub proof fn law_soft_wraps_only_add_line_feeds(lines: Seq<WrappedLine>)
    requires
        forall|i: int| 0 <= i < lines.len() ==> (#[trigger] lines[i]).wraps_in_order(),
    ensures
        joined(line_texts(lines), line_feed()) == joined(
            lines_with(lines, Seq::empty()),
            line_feed(),
        ),
        joined(wrapped_pieces(lines), line_feed()) == joined(
            lines_with(lines, line_feed()),
            line_feed(),
        ),
        joined(wrapped_pieces(lines), line_feed()).len() == joined(
            line_texts(lines),
            line_feed(),
        ).len() + total_wraps(lines),
{
    assert forall|i: int| 0 <= i < lines.len() implies line_texts(lines)[i] == lines_with(
        lines,
        Seq::empty(),
    )[i] by {
        assert(lines[i].wraps_in_order());
        law_pieces_make_up_the_line(lines[i]);
    }
    assert(line_texts(lines) =~= lines_with(lines, Seq::empty()));
    lemma_wrapped_lines(lines);
    lemma_wrapped_length(lines);
}

/// Lines that follow each other downwards are parted by every position: no line ends
/// above one that comes before it.
pub proof fn law_lines_downwards_are_parted(metrics: Seq<TextLayoutLineMetric>, y: Pixels)
    requires
        forall|i: int| 0 <= i < metrics.len() ==> !(#[trigger] metrics[i]).extent.bottom.is_nan(),
        forall|i: int, j: int|
            0 <= i <= j < metrics.len() ==> !(#[trigger] metrics[j]).extent.bottom.less(
                (#[trigger] metrics[i]).extent.bottom,
            ),
    ensures
        parts_lines(metrics, y),
{
}

/// The width that a text has to fit does not depend on the end at which it is truncated, nor on
/// what stands for the part that is left out. A text that is never truncated has to fit none.
pub proof fn law_truncation_fits_the_room_at_either_end(
    affix: String,
    other_affix: String,
    known_width: Option<Pixels>,
    available_width: AvailableSpace,
    line_clamp: Option<LineClamp>,
)
    ensures
        ({
            let at_end = truncates_at(
                Some(TextOverflow::Truncate(affix)),
                known_width,
                available_width,
                line_clamp,
            );
            let at_start = truncates_at(
                Some(TextOverflow::TruncateStart(other_affix)),
                known_width,
                available_width,
                line_clamp,
            );
            &&& at_end == at_start
            &&& at_end is Some <==> known_width is Some || available_width is Definite
            &&& known_width is Some ==> at_end == known_width
        }),
        truncates_at(None, known_width, available_width, line_clamp) is None,
{
}

/// A text of one line is truncated where it would wrap, at the known width or else at that of
/// its room. A limit on the lines stands for all of them together: it makes the width that of
/// all lines in the room, unless the width is known.
pub proof fn law_truncation_leaves_room_for_all_lines(
    overflow: TextOverflow,
    known_width: Option<Pixels>,
    available_width: AvailableSpace,
    clamp: LineClamp,
)
    ensures
        truncates_at(Some(overflow), known_width, available_width, None) == wraps_at(
            WhiteSpace::Normal,
            known_width,
            available_width,
        ),
        known_width is None && available_width is Definite ==> truncates_at(
            Some(overflow),
            known_width,
            available_width,
            Some(clamp),
        ) == Some(clamp.total_width),
        known_width is Some || !(available_width is Definite) ==> truncates_at(
            Some(overflow),
            known_width,
            available_width,
            Some(clamp),
        ) == truncates_at(Some(overflow), known_width, available_width, None),
{
}

/// A text that may wrap does so at its known width, whatever room there is, and else at the
/// width of a definite room. It wraps nowhere in a room that is not definite, and a text that
/// may not wrap never does.
pub proof fn law_text_wraps_at_its_width(
    known_width: Option<Pixels>,
    width: Pixels,
    available_width: AvailableSpace,
)
    ensures
        wraps_at(WhiteSpace::Nowrap, known_width, available_width) is None,
        wraps_at(WhiteSpace::Normal, Some(width), available_width) == Some(width),
        wraps_at(WhiteSpace::Normal, None, AvailableSpace::Definite(width)) == Some(width),
        wraps_at(WhiteSpace::Normal, None, available_width) is Some <==> available_width
            is Definite,
{
}

/// A request asks for the widths of its own style and room, and for no more lines than its limit
/// allows.
pub proof fn law_requests_ask_for_their_own_widths(request: LayoutRequest)
    ensures
        request.white_space == WhiteSpace::Nowrap ==> request.wraps_at() is None,
        request.white_space == WhiteSpace::Normal && request.known_width is Some
            ==> request.wraps_at() == request.known_width,
        request.white_space == WhiteSpace::Normal && request.known_width is None ==> (
        request.available_width matches AvailableSpace::Definite(width) ==> request.wraps_at()
            == Some(width)),
        request.overflow is None ==> request.truncates_at() is None,
        request.overflow is Some && request.known_width is Some ==> request.truncates_at()
            == request.known_width,
        request.overflow is Some && request.available_width is Definite
            ==> request.truncates_at() is Some,
        request.line_clamp is None <==> request.max_lines() is None,
        request.line_clamp matches Some(clamp) ==> request.max_lines() == Some(clamp.max_lines),
{
}

/// A text that is truncated is handed over whole, to be cut at the end that was asked for with
/// the affix that was asked for; a text that is not truncated is shaped as it is.
pub proof fn law_text_is_cut_as_asked<
    R,
    Cut: FnOnce(String, Vec<R>, Pixels, String, TruncateFrom) -> (String, Vec<R>),
>(
    request: LayoutRequest,
    text: String,
    runs: Vec<R>,
    truncate: Cut,
    cut: (String, Vec<R>),
    width: Pixels,
    affix: String,
)
    requires
        cut_to_fit(request, text, runs, truncate, cut),
    ensures
        request.truncates_at() is None ==> cut == (text, runs),
        request.truncates_at() == Some(width) && request.overflow == Some(
            TextOverflow::Truncate(affix),
        ) ==> call_ensures(truncate, (text, runs, width, affix, TruncateFrom::End), cut),
        request.truncates_at() == Some(width) && request.overflow == Some(
            TextOverflow::TruncateStart(affix),
        ) ==> call_ensures(truncate, (text, runs, width, affix, TruncateFrom::Start), cut),
{
}

/// Whether two widths are both missing, or both numbers of which neither is less.
pub open spec fn widths_agree(left: Option<Pixels>, right: Option<Pixels>) -> bool {
    &&& left is Some <==> right is Some
    &&& left is Some ==> !left->0.is_nan() && !right->0.is_nan() && !left->0.less(right->0)
        && !right->0.less(left->0)
}

/// A measurement is used again exactly where there is one, the text is not to be truncated, and
/// it would wrap at the same width as then.
pub proof fn law_measurements_are_used_again(
    layout: TextLayout,
    wrap_width: Option<Pixels>,
    truncate_width: Option<Pixels>,
)
    ensures
        layout@ is None ==> !layout.can_use_again(wrap_width, truncate_width),
        truncate_width is Some ==> !layout.can_use_again(wrap_width, truncate_width),
        layout@ is Some && truncate_width is None ==> (layout.can_use_again(
            wrap_width,
            truncate_width,
        ) <==> widths_agree(wrap_width, layout@->0.wrap_width)),
{
}

/// Laying a text out twice for the same request measures it once: the second time the first
/// measurement is used again, unless the text is truncated or its width is no number.
pub proof fn law_same_request_is_measured_once<
    R,
    Cut: FnOnce(String, Vec<R>, Pixels, String, TruncateFrom) -> (String, Vec<R>),
    Shape: FnOnce(String, Vec<R>, Option<Pixels>, Option<usize>) -> Option<ShapedText>,
>(
    before: TextLayout,
    text: String,
    runs: Vec<R>,
    request: LayoutRequest,
    truncate: Cut,
    shape: Shape,
    after: TextLayout,
    again: TextLayout,
)
    requires
        laid_out(before, text, runs, request, truncate, shape, after),
        laid_out(after, text, runs, request, truncate, shape, again),
        request.overflow is None,
        request.wraps_at() is Some ==> !request.wraps_at()->0.is_nan(),
    ensures
        again == after,
{
}

/// A layout that was laid out is that of the request: it wraps where the request asks for. Where
/// it was measured anew it has the height of lines of the request, and is painted nowhere yet.
pub proof fn law_layouts_are_those_of_the_request<
    R,
    Cut: FnOnce(String, Vec<R>, Pixels, String, TruncateFrom) -> (String, Vec<R>),
    Shape: FnOnce(String, Vec<R>, Option<Pixels>, Option<usize>) -> Option<ShapedText>,
>(
    before: TextLayout,
    text: String,
    runs: Vec<R>,
    request: LayoutRequest,
    truncate: Cut,
    shape: Shape,
    after: TextLayout,
)
    requires
        laid_out(before, text, runs, request, truncate, shape, after),
    ensures
        after@ is Some,
        after == before || after@->0.wrap_width == request.wraps_at(),
        after == before || after@->0.line_height == request.line_height,
        after == before || after@->0.bounds is None,
        after == before || request.overflow is Some || exists|shaped: Option<ShapedText>|
            #[trigger] call_ensures(
                shape,
                (text, runs, request.wraps_at(), request.max_lines()),
                shaped,
            ) && after.keeps(
                encode_utf8(text@).len() as usize,
                shaped,
                request.line_height,
                request.wraps_at(),
            ),
        before@ is None || request.truncates_at() is Some ==> exists|
            cut: (String, Vec<R>),
            shaped: Option<ShapedText>,
        | #[trigger]
            call_ensures(shape, (cut.0, cut.1, request.wraps_at(), request.max_lines()), shaped)
                && cut_to_fit(request, text, runs, truncate, cut) && after.keeps(
                encode_utf8(cut.0@).len() as usize,
                shaped,
                request.line_height,
                request.wraps_at(),
            ),
{
}

/// What is kept of a text that was shaped is what came of it: its lines, where they lie, its
/// size and its length. A text that could not be shaped has no lines, no size and no length.
pub proof fn law_measurements_are_kept(
    layout: TextLayout,
    len: usize,
    shaped: ShapedText,
    line_height: Pixels,
    wrap_width: Option<Pixels>,
)
    ensures
        layout.keeps(len, Some(shaped), line_height, wrap_width) ==> {
            &&& layout@ is Some
            &&& layout@->0.len == len
            &&& layout@->0.lines == shaped.lines@
            &&& layout@->0.size == shaped.size
            &&& layout@->0.metrics.len() == shaped.extents.len()
            &&& forall|i: int|
                0 <= i < shaped.extents.len() ==> (#[trigger] layout@->0.metrics[i]).extent
                    == shaped.extents@[i]
        },
        layout.keeps(len, None, line_height, wrap_width) ==> {
            &&& layout@ is Some
            &&& layout@->0.len == 0
            &&& layout@->0.lines.len() == 0
            &&& layout@->0.size.width.bits == 0 && layout@->0.size.height.bits == 0
        },
{
    if layout.keeps(len, Some(shaped), line_height, wrap_width) {
        let extents = layout@->0.metrics.map_values(|metric: TextLayoutLineMetric| metric.extent);
        assert forall|i: int| 0 <= i < shaped.extents.len() implies (
        #[trigger] layout@->0.metrics[i]).extent == shaped.extents@[i] by {
            assert(extents[i] == layout@->0.metrics[i].extent);
        }
    }
}

/// Lines follow each other in the text: the first begins at its beginning, each ends as many
/// bytes further on as it has, and the next one begins behind the one byte of the line feed.
pub proof fn law_lines_follow_each_other(
    metrics: Seq<TextLayoutLineMetric>,
    lines: Seq<WrappedLine>,
)
    requires
        metrics_of(metrics, lines),
    ensures
        metrics.len() == lines.len(),
        metrics.len() > 0 ==> metrics[0].start_ix == 0,
        forall|i: int|
            0 <= i < metrics.len() ==> (#[trigger] metrics[i]).end_ix - metrics[i].start_ix
                == lines[i].layout.unwrapped_layout.len,
        forall|i: int|
            0 < i < metrics.len() ==> (#[trigger] metrics[i]).start_ix == metrics[i - 1].end_ix
                + 1,
{
    assert forall|i: int| 0 < i < metrics.len() implies (#[trigger] metrics[i]).start_ix
        == metrics[i - 1].end_ix + 1 by {
        assert(metrics[i - 1].start_ix == line_start(lines, i - 1));
        assert(line_start(lines, i) == line_start(lines, i - 1) + lines[i - 1].spec_len() + 1);
    }
    assert(metrics.len() > 0 ==> metrics[0].start_ix == line_start(lines, 0));
}

/// A position lies in the first line that does not end above it: all lines before that one end
/// above it. Where every line ends above it, it lies below the text.
pub proof fn law_positions_lie_in_the_first_line_not_above(
    metrics: Seq<TextLayoutLineMetric>,
    y: Pixels,
)
    ensures
        0 <= lines_above(metrics, y) <= metrics.len(),
        forall|i: int|
            0 <= i < lines_above(metrics, y) ==> (#[trigger] metrics[i]).extent.bottom.less(y),
        lines_above(metrics, y) < metrics.len() ==> !metrics[lines_above(
            metrics,
            y,
        )].extent.bottom.less(y),
        parts_lines(metrics, y) ==> forall|i: int|
            lines_above(metrics, y) <= i < metrics.len() ==> !(
            #[trigger] metrics[i]).extent.bottom.less(y),
{
    let above = |metric: TextLayoutLineMetric| metric.extent.bottom.less(y);
    lemma_front_count_bounds(metrics, above);
    assert forall|i: int| 0 <= i < lines_above(metrics, y) implies (
    #[trigger] metrics[i]).extent.bottom.less(y) by {
        assert(above(metrics[i]));
    }
}

/// An index within a line, found or nearest, stays what it is when it becomes one of the text:
/// only the start of the line is added to it.
pub proof fn law_indexes_are_counted_from_the_line(start_ix: usize, within: Result<usize, usize>)
    requires
        start_ix + either(within) <= usize::MAX,
    ensures
        from_line_start(start_ix, within) is Ok <==> within is Ok,
        either(from_line_start(start_ix, within)) - start_ix == either(within),
        either(Ok(start_ix)) == start_ix && either(Err(start_ix)) == start_ix,
{
}

/// The text below the last line is nearest to where that line ends; a text without lines ends at
/// its beginning.
pub proof fn law_text_ends_with_its_last_line(metrics: Seq<TextLayoutLineMetric>)
    ensures
        metrics.len() == 0 ==> last_end(metrics) == 0,
        metrics.len() > 0 ==> last_end(metrics) == metrics[metrics.len() - 1].end_ix,
{
}

/// A piece of a line begins where the glyph begins that its soft wrap names, the first piece at
/// the beginning of the line, and the last one ends at its end.
pub proof fn law_pieces_begin_at_their_soft_wraps(line: WrappedLine, i: int)
    requires
        0 <= i < line.layout.wrap_boundaries@.len(),
    ensures
        ({
            let boundary = line.layout.wrap_boundaries@[i];
            let glyphs = line.layout.unwrapped_layout.runs@[boundary.run_ix as int].glyphs@;
            line.piece_start(i + 1) == glyphs[boundary.glyph_ix as int].index
        }),
        line.piece_start(0) == 0,
        line.piece_start(line.layout.wrap_boundaries@.len() as int + 1) == encode_utf8(
            line.text@,
        ).len(),
        line.wraps() == line.layout.wrap_boundaries@.len(),
{
}

/// A line without soft wraps has them in order. So does one whose soft wraps name glyphs that
/// begin where the text may be cut, none of them before the one of the soft wrap before it, and
/// no other line does.
pub proof fn law_soft_wraps_in_order_cut_the_text(line: WrappedLine)
    ensures
        line.layout.wrap_boundaries@.len() == 0 ==> line.wraps_in_order(),
        line.wraps_in_order() <==> {
            let boundaries = line.layout.wrap_boundaries@;
            let runs = line.layout.unwrapped_layout.runs@;
            &&& forall|i: int|
                0 <= i < boundaries.len() ==> (#[trigger] boundaries[i]).run_ix < runs.len()
                    && boundaries[i].glyph_ix < runs[boundaries[i].run_ix as int].glyphs@.len()
                    && cut_at(line.text@, line.layout.boundary_index(boundaries[i]))
            &&& forall|i: int, j: int|
                0 <= i < j < boundaries.len() ==> line.layout.boundary_index(
                    #[trigger] boundaries[i],
                ) <= line.layout.boundary_index(#[trigger] boundaries[j])
        },
{
    let boundaries = line.layout.wrap_boundaries@;
    vstd::utf8::encode_utf8_valid_utf8(line.text@);
    vstd::utf8::is_char_boundary_start_end_of_seq(encode_utf8(line.text@));
    if line.wraps_in_order() {
        assert forall|i: int| 0 <= i < boundaries.len() implies line.layout.has_boundary(
            #[trigger] boundaries[i],
        ) && cut_at(line.text@, line.layout.boundary_index(boundaries[i])) by {
            assert(line.piece_start(i + 1) <= line.piece_start(i + 1 + 1));
        }
        assert forall|i: int, j: int| 0 <= i < j < boundaries.len() implies
            line.layout.boundary_index(#[trigger] boundaries[i]) <= line.layout.boundary_index(
            #[trigger] boundaries[j],
        ) by {
            lemma_piece_starts_grow(line, i + 1, j + 1);
        }
    }
    if (forall|i: int|
        0 <= i < boundaries.len() ==> line.layout.has_boundary(#[trigger] boundaries[i]) && cut_at(
            line.text@,
            line.layout.boundary_index(boundaries[i]),
        )) && (forall|i: int, j: int|
        0 <= i < j < boundaries.len() ==> line.layout.boundary_index(#[trigger] boundaries[i])
            <= line.layout.boundary_index(#[trigger] boundaries[j])) {
        assert forall|i: int| 0 <= i <= line.wraps() implies #[trigger] line.piece_start(i)
            <= line.piece_start(i + 1) && cut_at(line.text@, line.piece_start(i)) by {
            if i > 0 {
                assert(line.layout.has_boundary(boundaries[i - 1]));
            }
            if i < line.wraps() {
                assert(line.layout.has_boundary(boundaries[i]));
            }
        }
    }
}

proof fn lemma_piece_starts_grow(line: WrappedLine, i: int, j: int)
    requires
        line.wraps_in_order(),
        0 <= i <= j <= line.wraps() + 1,
    ensures
        line.piece_start(i) <= line.piece_start(j),
    decreases j - i,
{
    if i < j {
        lemma_piece_starts_grow(line, i, j - 1);
        assert(line.piece_start(j - 1) <= line.piece_start(j - 1 + 1));
    }
}

} // verus!
