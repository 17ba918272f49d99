use native_shell::interactive_text::{
    clicked_ranges, ClickHandler, DispatchPhase, InteractiveText, InteractiveTextState,
};
use native_shell::pixels::{Bounds, Pixels, Point, Size};
use native_shell::styled_text::StyledText;
use native_shell::text_layout::{AvailableSpace, LayoutRequest, WhiteSpace};

type Text = InteractiveText<u8, u8, &'static str, &'static str, &'static str>;

const UP: DispatchPhase = DispatchPhase::Bubble;

fn element() -> Text {
    Text::new("links".to_string(), StyledText::new("some text".to_string()))
}

#[test]
fn a_click_starts_and_ends_in_its_range() {
    let ranges = vec![0..4, 5..9, 2..7, 6..6];
    assert_eq!(clicked_ranges(&ranges, 1, 3), [0]);
    assert_eq!(clicked_ranges(&ranges, 3, 2), [0, 2]);
    assert_eq!(clicked_ranges(&ranges, 6, 6), [1, 2]);
    assert!(clicked_ranges(&ranges, 3, 8).is_empty());
    assert!(clicked_ranges(&ranges, 4, 4).contains(&2));
    assert!(clicked_ranges(&ranges, 9, 9).is_empty());
    assert!(clicked_ranges(&vec![], 0, 0).is_empty());
}

#[test]
fn the_button_goes_down_and_up() {
    let ranges = vec![0..4, 2..7];
    let mut state = InteractiveTextState::default();
    assert!(!state.mouse_down(DispatchPhase::Capture, true, Ok(3)));
    assert!(!state.mouse_down(UP, false, Ok(3)));
    assert!(!state.mouse_down(UP, true, Err(3)));
    assert_eq!(state.mouse_down_index, None);
    assert!(state.mouse_down(UP, true, Ok(3)));
    assert_eq!(state.mouse_down_index, Some(3));

    assert_eq!(state.mouse_up(&ranges, 3, UP, false, Ok(3)), (false, vec![]));
    assert_eq!(state.mouse_down_index, Some(3));
    assert_eq!(
        state.mouse_up(&ranges, 3, UP, true, Ok(2)),
        (true, vec![0, 1])
    );
    assert_eq!(state.mouse_down_index, None);

    state.mouse_down(UP, true, Ok(3));
    assert_eq!(state.mouse_up(&ranges, 3, UP, true, Err(3)), (true, vec![]));
    assert_eq!(state, InteractiveTextState::default());
}

#[test]
fn hovering_is_told_once() {
    let mut state = InteractiveTextState::default();
    assert_eq!(state.mouse_move(UP, true, Err(0)), None);
    assert_eq!(state.mouse_move(UP, true, Ok(4)), Some(Some(4)));
    assert_eq!(state.mouse_move(UP, true, Ok(4)), None);
    assert_eq!(state.mouse_move(DispatchPhase::Capture, true, Ok(5)), None);
    assert_eq!(state.hovered_index, Some(4));
    assert_eq!(state.mouse_move(UP, true, Err(9)), Some(None));
    assert_eq!(state.hovered_index, None);
}

#[test]
fn leaving_the_text_is_told() {
    let mut state = InteractiveTextState::default();
    assert_eq!(state.mouse_move(UP, true, Ok(4)), Some(Some(4)));
    assert_eq!(state.mouse_move(DispatchPhase::Capture, false, Ok(4)), None);
    // Off the text's area, whatever index is the nearest.
    assert_eq!(state.mouse_move(UP, false, Ok(5)), Some(None));
    assert_eq!(state.hovered_index, None);
    assert_eq!(state.mouse_move(UP, false, Err(0)), None);
}

#[test]
fn tooltips_wait_for_the_button() {
    let mut state = InteractiveTextState::default();
    assert!(state.tooltip_may_show(true, Ok(1)));
    assert!(!state.tooltip_may_show(false, Ok(1)));
    assert!(!state.tooltip_may_show(true, Err(1)));
    state.mouse_down(UP, true, Ok(1));
    assert!(!state.tooltip_may_show(true, Ok(1)));
}

#[test]
fn without_listeners_nothing_is_set_up() {
    let mut element = element();
    let handlers = element.paint(&InteractiveTextState::default(), Ok(1));
    assert!(!handlers.pointing_hand);
    assert!(matches!(handlers.click, ClickHandler::Ignored));
    assert_eq!(handlers.hover_listener, None);
    assert!(!handlers.tooltips);
    assert_eq!(element.element_name(), "links");
}

#[test]
fn painting_sets_up_the_next_click() {
    let mut state = InteractiveTextState::default();
    let mut waiting = element().on_click(vec![0..4], "click").on_hover("hover");
    let handlers = waiting.paint(&state, Ok(3));
    assert!(handlers.pointing_hand);
    assert!(matches!(handlers.click, ClickHandler::WaitForDown));
    assert_eq!(handlers.hover_listener, Some("hover"));

    state.mouse_down(UP, true, Ok(3));
    let mut pressed = element().on_click(vec![0..4], "click").tooltip("tip");
    assert_eq!(pressed.tooltip_builder(), &Some("tip"));
    let handlers = pressed.paint(&state, Ok(5));
    assert!(!handlers.pointing_hand);
    assert!(handlers.tooltips);
    match handlers.click {
        ClickHandler::WaitForUp {
            listener,
            clickable_ranges,
            mouse_down_index,
        } => {
            assert_eq!(listener, "click");
            assert_eq!(clickable_ranges, vec![0..4]);
            assert_eq!(mouse_down_index, 3);
        }
        _ => panic!("the button is down"),
    }
    assert!(!pressed.paint(&state, Err(0)).pointing_hand);
}

#[test]
fn a_tooltip_goes_away_with_its_builder() {
    let zero = Pixels::zero();
    let bounds = Bounds {
        origin: Point { x: zero, y: zero },
        size: Size {
            width: zero,
            height: zero,
        },
    };
    let request = || LayoutRequest {
        white_space: WhiteSpace::Nowrap,
        overflow: None,
        line_clamp: None,
        line_height: zero,
        known_width: None,
        available_width: AvailableSpace::MinContent,
    };
    let mut state = InteractiveTextState {
        active_tooltip: Some(7),
        ..InteractiveTextState::default()
    };

    let mut with = element().tooltip("tip");
    with.text_mut()
        .measure(vec![], request(), |text, runs, _, _, _| (text, runs), |_, _, _, _| None);
    with.prepaint(&mut state, Some(7), bounds);
    assert_eq!(state.active_tooltip, Some(7));
    assert_eq!(
        with.paint(&state, Err(0)).tooltip_id,
        Some(7)
    );
    assert!(with.text().layout().is_prepainted());

    let mut without = element();
    without
        .text_mut()
        .measure(vec![], request(), |text, runs, _, _, _| (text, runs), |_, _, _, _| None);
    without.prepaint(&mut state, Some(7), bounds);
    assert_eq!(state.active_tooltip, None);
    assert_eq!(without.paint(&state, Err(0)).tooltip_id, None);
}
