use native_shell::pixels::{Pixels, Size};
use native_shell::styled_text::{StyledText, TextRun};
use native_shell::text_layout::{
    AvailableSpace, LayoutRequest, LineClamp, LineExtent, LineLayout, LineList, ShapedText, TextOverflow,
    TruncateFrom, WhiteSpace, WrappedLine, WrappedLineLayout,
};
use std::ops::Range;
use std::sync::Arc;

#[derive(Clone, Copy, Debug, PartialEq, Eq)]
enum Highlight {
    Bold,
    Red,
}

const STYLE: &str = "default";

type Run = TextRun<&'static str, Highlight>;
type Text = StyledText<&'static str, Highlight>;

fn plain(len: usize) -> Run {
    TextRun {
        len,
        style: STYLE,
        highlight: None,
    }
}

fn highlighted(highlight: Highlight, len: usize) -> Run {
    TextRun {
        len,
        style: STYLE,
        highlight: Some(highlight),
    }
}

fn total(runs: &[Run]) -> usize {
    runs.iter().map(|run| run.len).sum()
}

#[test]
fn compute_runs_preserves_default_gaps_and_adjacent_highlights() {
    let text = "abcdef";

    let runs = Text::compute_runs(
        text,
        STYLE,
        vec![(1..3, Highlight::Bold), (3..4, Highlight::Red)],
    );

    assert_eq!(runs.len(), 4);
    assert_eq!(runs[0], plain(1));
    assert_eq!(runs[1], highlighted(Highlight::Bold, 2));
    assert_eq!(runs[2], highlighted(Highlight::Red, 1));
    assert_eq!(runs[3], plain(2));
    assert_eq!(total(&runs), text.len());

    let empty_runs = Text::compute_runs("", STYLE, Vec::new());
    assert!(empty_runs.is_empty());

    let default_only = Text::compute_runs("abc", STYLE, Vec::new());
    assert_eq!(default_only, vec![plain(3)]);

    let all_highlighted = Text::compute_runs("abc", STYLE, vec![(0..3, Highlight::Bold)]);
    assert_eq!(all_highlighted.len(), 1);
    assert_eq!(all_highlighted[0], highlighted(Highlight::Bold, 3));
}

#[test]
fn highlights_out_of_order_keep_their_own_length() {
    let backwards = Range { start: 5, end: 2 };
    let runs = Text::compute_runs("abcdef", STYLE, vec![(backwards, Highlight::Red)]);
    assert_eq!(runs, vec![plain(5), highlighted(Highlight::Red, 0), plain(4)]);
    let overlapping = Text::compute_runs(
        "abcdef",
        STYLE,
        vec![(0..4, Highlight::Red), (2..6, Highlight::Bold)],
    );
    assert_eq!(
        overlapping,
        vec![
            highlighted(Highlight::Red, 4),
            highlighted(Highlight::Bold, 4)
        ]
    );
}

#[test]
fn runs_fit_only_at_character_boundaries() {
    let text = Text::new("a\u{e9}b".to_string());
    assert!(text.runs_fit(&vec![plain(1), plain(2), plain(1)]));
    assert!(text.runs_fit(&vec![plain(0), plain(4)]));
    assert!(!text.runs_fit(&vec![plain(2), plain(2)]));
    assert!(!text.runs_fit(&vec![plain(3)]));
    assert!(!text.runs_fit(&vec![plain(4), plain(1)]));
    assert!(!text.runs_fit(&vec![]));
    assert!(!text.runs_fit(&vec![plain(usize::MAX), plain(5)]));
    assert!(Text::new(String::new()).runs_fit(&vec![]));
}

#[test]
fn ordered_highlights_give_runs_that_fit() {
    let text = "a\u{e9}\u{1f600}b";
    let highlights = vec![(1..3, Highlight::Bold), (3..7, Highlight::Red)];
    let runs = Text::compute_runs(text, STYLE, highlights.clone());
    assert!(Text::new(text.to_string()).runs_fit(&runs));
    assert_eq!(total(&runs), text.len());

    let mut styled = Text::new(text.to_string()).with_default_highlights(STYLE, highlights);
    assert_eq!(styled.take_runs("other"), runs);
}

#[test]
fn runs_are_taken_once() {
    let mut set = Text::new("abc".to_string()).with_runs(vec![plain(2), plain(1)]);
    assert_eq!(set.take_runs("other"), vec![plain(2), plain(1)]);
    let whole = TextRun {
        len: 3,
        style: "other",
        highlight: None,
    };
    assert_eq!(set.take_runs("other"), vec![whole]);

    let mut delayed = Text::new("abc".to_string()).with_highlights(vec![(1..2, Highlight::Red)]);
    assert_eq!(
        delayed.take_runs(STYLE),
        vec![plain(1), highlighted(Highlight::Red, 1), plain(1)]
    );
    assert_eq!(delayed.take_runs(STYLE), vec![plain(3)]);
}

fn px(value: f32) -> Pixels {
    Pixels {
        bits: value.to_bits(),
    }
}

fn request(known_width: Option<f32>, overflow: Option<TextOverflow>) -> LayoutRequest {
    LayoutRequest {
        white_space: WhiteSpace::Normal,
        overflow,
        line_clamp: Some(LineClamp {
            max_lines: 2,
            total_width: px(0.0),
        }),
        line_height: px(10.0),
        known_width: known_width.map(px),
        available_width: AvailableSpace::MaxContent,
    }
}

/// One line for each line of the text, each character one pixel wide.
fn shape(text: &str) -> ShapedText {
    let lines: Vec<WrappedLine> = text
        .split('\n')
        .map(|line| WrappedLine {
            layout: Arc::new(WrappedLineLayout {
                unwrapped_layout: LineLayout {
                    runs: vec![],
                    len: line.len(),
                },
                wrap_boundaries: vec![],
            }),
            text: line.to_string(),
        })
        .collect();
    let extents = (0..lines.len())
        .map(|ix| LineExtent {
            origin_y: px(ix as f32 * 10.0),
            height: px(10.0),
            bottom: px(ix as f32 * 10.0 + 10.0),
        })
        .collect();
    ShapedText {
        size: Size {
            width: px(text.len() as f32),
            height: px(lines.len() as f32 * 10.0),
        },
        lines: LineList::new(lines),
        extents,
    }
}

#[test]
fn a_text_is_measured_once_for_a_width() {
    let mut styled = Text::new("ab\ncd".to_string());
    assert_eq!(styled.text(), "ab\ncd");
    assert!(!styled.layout().is_measured());
    let runs = styled.take_runs(STYLE);
    let size = styled.measure(
        runs,
        request(Some(40.0), None),
        |text, runs, _, _, _| (text, runs),
        |text, runs, wrap_width, line_clamp| {
            assert_eq!(runs, vec![plain(5)]);
            assert_eq!(wrap_width, Some(px(40.0)));
            assert_eq!(line_clamp, Some(2));
            Some(shape(&text))
        },
    );
    assert_eq!(size.height, px(20.0));
    assert_eq!(styled.layout().len(), 5);
    assert_eq!(styled.layout().text(), "ab\ncd");

    let again = styled.measure(
        vec![],
        request(Some(40.0), None),
        |text, runs, _, _, _| (text, runs),
        |_, _, _, _| unreachable!(),
    );
    assert_eq!(again, size);
}

#[test]
fn a_truncated_text_is_measured_anew() {
    let mut styled = Text::new("abcdef".to_string());
    for overflow in [
        TextOverflow::Truncate("...".to_string()),
        TextOverflow::TruncateStart("<".to_string()),
    ] {
        let size = styled.measure(
            vec![plain(6)],
            request(Some(4.0), Some(overflow)),
            |text, _, width, affix, from| {
                assert_eq!(width, px(4.0));
                let kept = match from {
                    TruncateFrom::End => format!("{}{affix}", &text[..1]),
                    TruncateFrom::Start => format!("{affix}{}", &text[3..]),
                };
                let runs = vec![plain(kept.len())];
                (kept, runs)
            },
            |text, _, _, _| Some(shape(&text)),
        );
        assert_eq!(size.width, px(4.0));
        assert_eq!(styled.layout().len(), 4);
    }
    assert_eq!(styled.layout().text(), "<def");
}

#[test]
fn a_text_that_cannot_be_shaped_takes_up_no_room() {
    let mut styled = Text::new("abc".to_string());
    let size = styled.measure(
        vec![plain(3)],
        request(None, None),
        |text, runs, _, _, _| (text, runs),
        |_, _, wrap_width, _| {
            assert_eq!(wrap_width, None);
            None
        },
    );
    assert_eq!((size.width, size.height), (px(0.0), px(0.0)));
    assert_eq!(styled.layout().len(), 0);
    assert_eq!(styled.layout().line_height(), px(10.0));
    assert_eq!(styled.layout().text(), "");
}

#[test]
fn a_text_is_measured_anew_where_it_no_longer_wraps() {
    let mut styled = Text::new("abc".to_string());
    let mut shaped = 0;
    for width in [Some(40.0), None, None, Some(40.0)] {
        styled.measure(
            vec![plain(3)],
            request(width, None),
            |text, runs, _, _, _| (text, runs),
            |text, _, wrap_width, _| {
                assert_eq!(wrap_width, width.map(px));
                shaped += 1;
                Some(shape(&text))
            },
        );
    }
    assert_eq!(shaped, 3);
}
