//! Text that can be clicked on, hovered over and explained by tooltips.

use crate::pixels::Bounds;
use crate::styled_text::{StyledText, StyledTextView};
use crate::text_layout::TextLayoutView;
use std::ops::Range;
use vstd::prelude::*;

verus! {

/// Events travel down to the element they are for and back up.
#[derive(Clone, Copy, Debug, PartialEq, Eq, Structural)]
pub enum DispatchPhase {
    /// On the way down.
    Capture,
    /// On the way back up.
    Bubble,
}

/// Whether a range holds an index.
pub open spec fn range_holds(range: Range<usize>, index: usize) -> bool {
    range.start <= index < range.end
}

/// Whether some range holds an index.
pub open spec fn any_range_holds(ranges: Seq<Range<usize>>, index: usize) -> bool {
    exists|i: int| 0 <= i < ranges.len() && range_holds(#[trigger] ranges[i], index)
}

/// The numbers of the ranges, of the first `n`, in which a button went down and up.
pub open spec fn clicked(ranges: Seq<Range<usize>>, down: usize, up: usize, n: int) -> Seq<usize>
    decreases n,
{
    if n <= 0 {
        Seq::empty()
    } else if range_holds(ranges[n - 1], down) && range_holds(ranges[n - 1], up) {
        clicked(ranges, down, up, n - 1).push((n - 1) as usize)
    } else {
        clicked(ranges, down, up, n - 1)
    }
}

/// The numbers of the ranges that were clicked, in order: those in which the button went
/// down and up.
pub fn clicked_ranges(
    ranges: &Vec<Range<usize>>,
    mouse_down_index: usize,
    mouse_up_index: usize,
) -> (numbers: Vec<usize>)
    ensures
        numbers@ == clicked(ranges@, mouse_down_index, mouse_up_index, ranges@.len() as int),
{
    let mut numbers: Vec<usize> = Vec::new();
    let mut i: usize = 0;
    while i < ranges.len()
        invariant
            i <= ranges.len(),
            numbers@ == clicked(ranges@, mouse_down_index, mouse_up_index, i as int),
        decreases ranges.len() - i,
    {
        let range = &ranges[i];
        if range.start <= mouse_down_index && mouse_down_index < range.end && range.start
            <= mouse_up_index && mouse_up_index < range.end {
            numbers.push(i);
        }
        i = i + 1;
    }
    numbers
}

fn some_range_holds(ranges: &Vec<Range<usize>>, index: usize) -> (holds: bool)
    ensures
        holds == any_range_holds(ranges@, index),
{
    let mut i: usize = 0;
    while i < ranges.len()
        invariant
            i <= ranges.len(),
            forall|k: int| 0 <= k < i ==> !range_holds(#[trigger] ranges@[k], index),
        decreases ranges.len() - i,
    {
        if ranges[i].start <= index && index < ranges[i].end {
            assert(range_holds(ranges@[i as int], index));
            return true;
        }
        i = i + 1;
    }
    false
}

/// What an element keeps of the pointer from one frame to the next.
#[derive(Clone, Copy, Debug, PartialEq, Eq, Structural)]
pub struct InteractiveTextState {
    /// Where in the text the button went down, while it is down.
    pub mouse_down_index: Option<usize>,
    /// Where in the text the pointer is.
    pub hovered_index: Option<usize>,
    /// The tooltip that is shown or is about to be.
    pub active_tooltip: Option<u64>,
}

impl Default for InteractiveTextState {
    fn default() -> (state: InteractiveTextState)
        ensures
            state == (InteractiveTextState {
                mouse_down_index: None,
                hovered_index: None,
                active_tooltip: None,
            }),
    {
        InteractiveTextState { mouse_down_index: None, hovered_index: None, active_tooltip: None }
    }
}

/// Whether an event is the text's to handle: it comes back up, and the pointer is over
/// the text.
pub open spec fn is_handled(phase: DispatchPhase, hovered: bool) -> bool {
    phase == DispatchPhase::Bubble && hovered
}

/// The index of a position that lies in the text.
pub open spec fn index_in_text(index: Result<usize, usize>) -> Option<usize> {
    match index {
        Ok(index) => Some(index),
        Err(_) => None,
    }
}

/// The index that the pointer is over: none where it is off the text's area or at a
/// position that lies outside of the text.
pub open spec fn hovered_now(hovered: bool, index: Result<usize, usize>) -> Option<usize> {
    if hovered {
        index_in_text(index)
    } else {
        None
    }
}

impl InteractiveTextState {
    /// The button went down at a position. Gives whether to refresh the window.
    pub fn mouse_down(
        &mut self,
        phase: DispatchPhase,
        hovered: bool,
        index: Result<usize, usize>,
    ) -> (refresh: bool)
        ensures
            refresh == (is_handled(phase, hovered) && index is Ok),
            *final(self) == if refresh {
                InteractiveTextState { mouse_down_index: index_in_text(index), ..*old(self) }
            } else {
                *old(self)
            },
    {
        if phase == DispatchPhase::Bubble && hovered {
            if let Ok(mouse_down_index) = index {
                self.mouse_down_index = Some(mouse_down_index);
                return true;
            }
        }
        false
    }

    /// The button that went down at `mouse_down_index` went up at a position. Gives
    /// whether to refresh the window, and the numbers of the ranges that were clicked.
    pub fn mouse_up(
        &mut self,
        clickable_ranges: &Vec<Range<usize>>,
        mouse_down_index: usize,
        phase: DispatchPhase,
        hovered: bool,
        index: Result<usize, usize>,
    ) -> (outcome: (bool, Vec<usize>))
        ensures
            outcome.0 == is_handled(phase, hovered),
            outcome.1@ == match index {
                Ok(mouse_up_index) if is_handled(phase, hovered) => clicked(
                    clickable_ranges@,
                    mouse_down_index,
                    mouse_up_index,
                    clickable_ranges@.len() as int,
                ),
                _ => Seq::empty(),
            },
            *final(self) == if is_handled(phase, hovered) {
                InteractiveTextState { mouse_down_index: None, ..*old(self) }
            } else {
                *old(self)
            },
    {
        if phase == DispatchPhase::Bubble && hovered {
            let numbers = match index {
                Ok(mouse_up_index) => clicked_ranges(
                    clickable_ranges,
                    mouse_down_index,
                    mouse_up_index,
                ),
                Err(_) => Vec::new(),
            };
            self.mouse_down_index = None;
            (true, numbers)
        } else {
            (false, Vec::new())
        }
    }

    /// The pointer moved to a position, over the text's area or off it. Gives the index
    /// that it is over now, or that it is over none, if that changed: then the listener
    /// is called and the view is notified.
    pub fn mouse_move(
        &mut self,
        phase: DispatchPhase,
        hovered: bool,
        index: Result<usize, usize>,
    ) -> (changed: Option<Option<usize>>)
        ensures
            changed == if phase == DispatchPhase::Bubble && hovered_now(hovered, index) != old(
                self,
            ).hovered_index {
                Some(hovered_now(hovered, index))
            } else {
                None
            },
            *final(self) == match changed {
                Some(updated) => InteractiveTextState { hovered_index: updated, ..*old(self) },
                None => *old(self),
            },
    {
        if phase == DispatchPhase::Bubble {
            let updated = match index {
                Ok(index) => if hovered {
                    Some(index)
                } else {
                    None
                },
                Err(_) => None,
            };
            let same = match (self.hovered_index, updated) {
                (None, None) => true,
                (Some(left), Some(right)) => left == right,
                _ => false,
            };
            if !same {
                self.hovered_index = updated;
                return Some(updated);
            }
        }
        None
    }

    /// Whether a tooltip may show: the pointer is over the text and over its area, and
    /// no button is down on it.
    pub fn tooltip_may_show(&self, over_area: bool, index: Result<usize, usize>) -> (may: bool)
        ensures
            may == (index is Ok && over_area && self.mouse_down_index is None),
    {
        index.is_ok() && over_area && self.mouse_down_index.is_none()
    }
}

/// What becomes of the button of the pointer until the next frame.
#[derive(Debug)]
pub enum ClickHandler<Click> {
    /// Nothing.
    Ignored,
    /// It may go down.
    WaitForDown,
    /// It went down and may go up.
    WaitForUp {
        listener: Click,
        clickable_ranges: Vec<Range<usize>>,
        mouse_down_index: usize,
    },
}

/// What is set up when the text is painted.
#[derive(Debug)]
pub struct TextHandlers<Click, Hover> {
    /// Whether the pointer is a pointing hand.
    pub pointing_hand: bool,
    pub click: ClickHandler<Click>,
    /// Who is told where the pointer is.
    pub hover_listener: Option<Hover>,
    /// Whether tooltips are shown.
    pub tooltips: bool,
    /// The tooltip that was set when the text was laid out.
    pub tooltip_id: Option<u64>,
}

/// A text element that can be interacted with: a styled text, and who is told of what the
/// pointer does on it.
#[derive(Debug)]
pub struct InteractiveText<S, H, Click, Hover, Tooltip> {
    element_id: String,
    text: StyledText<S, H>,
    click_listener: Option<Click>,
    hover_listener: Option<Hover>,
    tooltip_builder: Option<Tooltip>,
    tooltip_id: Option<u64>,
    clickable_ranges: Vec<Range<usize>>,
}

/// What an interactive text is.
pub struct InteractiveTextView<S, H, Click, Hover, Tooltip> {
    pub element_id: Seq<char>,
    pub text: StyledTextView<S, H>,
    pub click_listener: Option<Click>,
    pub hover_listener: Option<Hover>,
    pub tooltip_builder: Option<Tooltip>,
    pub tooltip_id: Option<u64>,
    pub clickable_ranges: Seq<Range<usize>>,
}

impl<S, H, Click, Hover, Tooltip> View for InteractiveText<S, H, Click, Hover, Tooltip> {
    type V = InteractiveTextView<S, H, Click, Hover, Tooltip>;

    closed spec fn view(&self) -> InteractiveTextView<S, H, Click, Hover, Tooltip> {
        InteractiveTextView {
            element_id: self.element_id@,
            text: self.text@,
            click_listener: self.click_listener,
            hover_listener: self.hover_listener,
            tooltip_builder: self.tooltip_builder,
            tooltip_id: self.tooltip_id,
            clickable_ranges: self.clickable_ranges@,
        }
    }
}

impl<S: Copy, H, Click, Hover, Tooltip> InteractiveText<S, H, Click, Hover, Tooltip> {
    /// The text is sound.
    pub closed spec fn wf(&self) -> bool {
        self.text.wf()
    }

    /// Creates a new InteractiveText from the given text.
    pub fn new(id: String, text: StyledText<S, H>) -> (element: Self)
        ensures
            text.wf() ==> element.wf(),
            element@ == (InteractiveTextView::<S, H, Click, Hover, Tooltip> {
                element_id: id@,
                text: text@,
                click_listener: None,
                hover_listener: None,
                tooltip_builder: None,
                tooltip_id: None,
                clickable_ranges: Seq::empty(),
            }),
    {
        let clickable_ranges: Vec<Range<usize>> = Vec::new();
        assert(clickable_ranges@ =~= Seq::<Range<usize>>::empty());
        InteractiveText {
            element_id: id,
            text,
            click_listener: None,
            hover_listener: None,
            tooltip_builder: None,
            tooltip_id: None,
            clickable_ranges,
        }
    }

    /// The name of the element.
    pub fn element_name(&self) -> (id: &str)
        ensures
            id@ == self@.element_id,
    {
        self.element_id.as_str()
    }

    /// The text.
    pub fn text(&self) -> (text: &StyledText<S, H>)
        ensures
            text@ == self@.text,
            self.wf() ==> text.wf(),
    {
        &self.text
    }

    /// The text, to be laid out.
    pub fn text_mut(&mut self) -> (text: &mut StyledText<S, H>)
        ensures
            text@ == old(self)@.text,
            old(self).wf() ==> text.wf(),
            final(self)@ == (InteractiveTextView { text: final(text)@, ..old(self)@ }),
            final(text).wf() ==> final(self).wf(),
    {
        &mut self.text
    }

    /// The listener is called when the user clicks on one of the given ranges, with the
    /// number of the clicked range.
    pub fn on_click(self, ranges: Vec<Range<usize>>, listener: Click) -> (element: Self)
        ensures
            self.wf() ==> element.wf(),
            element@ == (InteractiveTextView {
                click_listener: Some(listener),
                clickable_ranges: ranges@,
                ..self@
            }),
    {
        InteractiveText { click_listener: Some(listener), clickable_ranges: ranges, ..self }
    }

    /// The listener is called when the mouse moves over a character within the text, with
    /// the index of the hovered character, or None if the mouse leaves the text.
    pub fn on_hover(self, listener: Hover) -> (element: Self)
        ensures
            self.wf() ==> element.wf(),
            element@ == (InteractiveTextView { hover_listener: Some(listener), ..self@ }),
    {
        InteractiveText { hover_listener: Some(listener), ..self }
    }

    /// The builder makes the tooltip for a given character index in the string.
    pub fn tooltip(self, builder: Tooltip) -> (element: Self)
        ensures
            self.wf() ==> element.wf(),
            element@ == (InteractiveTextView { tooltip_builder: Some(builder), ..self@ }),
    {
        InteractiveText { tooltip_builder: Some(builder), ..self }
    }

    /// The builder of tooltips.
    pub fn tooltip_builder(&self) -> (builder: &Option<Tooltip>)
        ensures
            *builder == self@.tooltip_builder,
    {
        &self.tooltip_builder
    }

    /// Keeps where the text is painted. With a builder of tooltips, `shown` is the tooltip
    /// that was set on the window. Without one, an active tooltip goes away.
    pub fn prepaint(&mut self, state: &mut InteractiveTextState, shown: Option<u64>, bounds: Bounds)
        requires
            old(self)@.text.layout is Some,
        ensures
            old(self).wf() ==> final(self).wf(),
            final(self)@ == (InteractiveTextView {
                tooltip_id: if old(self)@.tooltip_builder is Some {
                    shown
                } else {
                    old(self)@.tooltip_id
                },
                text: (StyledTextView {
                    layout: Some(
                        (TextLayoutView { bounds: Some(bounds), ..old(self)@.text.layout->0 }),
                    ),
                    ..old(self)@.text
                }),
                ..old(self)@
            }),
            *final(state) == if old(self)@.tooltip_builder is Some {
                *old(state)
            } else {
                InteractiveTextState { active_tooltip: None, ..*old(state) }
            },
    {
        if self.tooltip_builder.is_some() {
            self.tooltip_id = shown;
        } else {
            state.active_tooltip = None;
        }
        self.text.prepaint(bounds);
    }

    /// Hands out what is set up when the text is painted. The pointer is at a position
    /// whose index is `index`.
    pub fn paint(&mut self, state: &InteractiveTextState, index: Result<usize, usize>) -> (handlers:
        TextHandlers<Click, Hover>)
        ensures
            old(self).wf() ==> final(self).wf(),
            handlers.pointing_hand == (old(self)@.click_listener is Some && index is Ok
                && any_range_holds(old(self)@.clickable_ranges, index->Ok_0)),
            match (old(self)@.click_listener, state.mouse_down_index) {
                (None, _) => handlers.click is Ignored,
                (Some(_), None) => handlers.click is WaitForDown,
                (Some(set), Some(down)) => handlers.click matches ClickHandler::WaitForUp {
                    listener,
                    clickable_ranges,
                    mouse_down_index,
                } && listener == set && clickable_ranges@ == old(self)@.clickable_ranges
                    && mouse_down_index == down,
            },
            handlers.hover_listener == old(self)@.hover_listener,
            handlers.tooltips == (old(self)@.tooltip_builder is Some),
            handlers.tooltip_id == old(self)@.tooltip_id,
            final(self)@ == (InteractiveTextView {
                click_listener: None,
                hover_listener: None,
                clickable_ranges: if handlers.click is WaitForUp {
                    Seq::empty()
                } else {
                    old(self)@.clickable_ranges
                },
                ..old(self)@
            }),
    {
        let mut pointing_hand = false;
        let mut click = ClickHandler::Ignored;
        if let Some(listener) = self.click_listener.take() {
            if let Ok(index) = index {
                pointing_hand = some_range_holds(&self.clickable_ranges, index);
            }
            match state.mouse_down_index {
                Some(mouse_down_index) => {
                    let mut clickable_ranges: Vec<Range<usize>> = Vec::new();
                    assert(clickable_ranges@ =~= Seq::<Range<usize>>::empty());
                    std::mem::swap(&mut clickable_ranges, &mut self.clickable_ranges);
                    click = ClickHandler::WaitForUp {
                        listener,
                        clickable_ranges,
                        mouse_down_index,
                    };
                },
                None => {
                    click = ClickHandler::WaitForDown;
                },
            }
        }
        TextHandlers {
            pointing_hand,
            click,
            hover_listener: self.hover_listener.take(),
            tooltips: self.tooltip_builder.is_some(),
            tooltip_id: self.tooltip_id,
        }
    }
}

/// Exactly the ranges that hold both the place where the button went down and the place
/// where it went up are clicked, each once and in order.
pub proof fn law_clicks_start_and_end_in_the_range(
    ranges: Seq<Range<usize>>,
    down: usize,
    up: usize,
    n: int,
)
    requires
        0 <= n <= ranges.len() <= usize::MAX,
    ensures
        forall|i: usize| #[trigger]
            clicked(ranges, down, up, n).contains(i) <==> i < n && range_holds(
                ranges[i as int],
                down,
            ) && range_holds(ranges[i as int], up),
        forall|a: int, b: int|
            0 <= a < b < clicked(ranges, down, up, n).len() ==> (#[trigger] clicked(
                ranges,
                down,
                up,
                n,
            )[a]) < (#[trigger] clicked(ranges, down, up, n)[b]),
    decreases n,
{
    let all = clicked(ranges, down, up, n);
    if n > 0 {
        law_clicks_start_and_end_in_the_range(ranges, down, up, n - 1);
        let front = clicked(ranges, down, up, n - 1);
        if range_holds(ranges[n - 1], down) && range_holds(ranges[n - 1], up) {
            assert forall|i: usize| #[trigger] all.contains(i) <==> i < n && range_holds(
                ranges[i as int],
                down,
            ) && range_holds(ranges[i as int], up) by {
                if i == n - 1 {
                    assert(all[all.len() - 1] == i);
                } else {
                    assert(all.contains(i) == front.contains(i)) by {
                        if front.contains(i) {
                            let at = choose|k: int| 0 <= k < front.len() && front[k] == i;
                            assert(all[at] == i);
                        }
                        if all.contains(i) {
                            let at = choose|k: int| 0 <= k < all.len() && all[k] == i;
                            assert(front[at] == i);
                        }
                    }
                }
            }
            assert forall|a: int, b: int| 0 <= a < b < all.len() implies (#[trigger] all[a]) < (
            #[trigger] all[b]) by {
                assert(front[a] == all[a]);
                assert(front.contains(front[a]));
                if b < front.len() {
                    assert(front[b] == all[b]);
                }
            }
        }
    }
}

/// A range holds its start, and every index from there on up to its end, which it does not
/// hold. A range that ends where it starts, or before, holds nothing.
pub proof fn law_ranges_hold_their_start_and_not_their_end(range: Range<usize>, index: usize)
    ensures
        range.start < range.end ==> range_holds(range, range.start),
        !range_holds(range, range.end),
        range.start >= range.end ==> !range_holds(range, index),
        range_holds(range, index) ==> range.start <= index && index < range.end,
        range.start <= index && index < range.end ==> range_holds(range, index),
{
}

/// The pointer is a pointing hand exactly where a click that does not move would click
/// something.
pub proof fn law_pointing_hand_shows_what_can_be_clicked(ranges: Seq<Range<usize>>, index: usize)
    requires
        ranges.len() <= usize::MAX,
    ensures
        any_range_holds(ranges, index) <==> clicked(
            ranges,
            index,
            index,
            ranges.len() as int,
        ).len() > 0,
{
    let numbers = clicked(ranges, index, index, ranges.len() as int);
    law_clicks_start_and_end_in_the_range(ranges, index, index, ranges.len() as int);
    if numbers.len() > 0 {
        assert(numbers.contains(numbers[0]));
        assert(range_holds(ranges[numbers[0] as int], index));
    }
    if any_range_holds(ranges, index) {
        let i = choose|i: int| 0 <= i < ranges.len() && range_holds(#[trigger] ranges[i], index);
        assert(numbers.contains(i as usize));
    }
}

/// An event is the text's own on its way back up, and only while the pointer is over the text.
pub proof fn law_events_are_handled_on_the_way_up(hovered: bool)
    ensures
        !is_handled(DispatchPhase::Capture, hovered),
        is_handled(DispatchPhase::Bubble, hovered) <==> hovered,
{
}

/// The pointer is over a character exactly where it is over the text's area and its position
/// lies in the text: the nearest character to a position outside does not count.
pub proof fn law_pointer_is_over_the_character_at_its_position(index: usize)
    ensures
        hovered_now(true, Ok(index)) == Some(index),
        hovered_now(true, Err(index)) is None,
        hovered_now(false, Ok(index)) is None,
        hovered_now(false, Err(index)) is None,
        index_in_text(Ok(index)) == Some(index),
        index_in_text(Err(index)) is None,
{
}

} // verus!
