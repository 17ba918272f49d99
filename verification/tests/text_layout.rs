use native_shell::pixels::{Bounds, Pixels, Point, Size};
use native_shell::text_layout::{
    text_layout_line_metrics, truncation, wrap_width, AvailableSpace, LineClamp, LineExtent, LineLayout,
    LineList, ShapedGlyph, ShapedRun, TextLayout, TextOverflow, TruncateFrom, WhiteSpace,
    WrapBoundary, WrappedLine, WrappedLineLayout,
};
use std::sync::Arc;

fn px(value: f32) -> Pixels {
    Pixels {
        bits: value.to_bits(),
    }
}

fn float(length: Pixels) -> f32 {
    f32::from_bits(length.bits)
}

fn line(text: &str, wraps: &[usize]) -> WrappedLine {
    WrappedLine {
        layout: Arc::new(WrappedLineLayout {
            unwrapped_layout: LineLayout {
                runs: vec![ShapedRun {
                    glyphs: text
                        .char_indices()
                        .map(|(index, _)| ShapedGlyph { index })
                        .collect(),
                }],
                len: text.len(),
            },
            wrap_boundaries: wraps
                .iter()
                .map(|&glyph_ix| WrapBoundary {
                    run_ix: 0,
                    glyph_ix,
                })
                .collect(),
        }),
        text: text.to_string(),
    }
}

fn extents(count: usize, line_height: f32) -> Vec<LineExtent> {
    (0..count)
        .map(|ix| LineExtent {
            origin_y: px(ix as f32 * line_height),
            height: px(line_height),
            bottom: px(ix as f32 * line_height + line_height),
        })
        .collect()
}

fn size(width: f32, height: f32) -> Size {
    Size {
        width: px(width),
        height: px(height),
    }
}

fn bounds(width: f32, height: f32) -> Bounds {
    Bounds {
        origin: Point {
            x: px(0.0),
            y: px(0.0),
        },
        size: size(width, height),
    }
}

fn build(lines: Vec<WrappedLine>, len: usize, line_height: f32) -> TextLayout {
    let mut layout = TextLayout::default();
    let count = lines.len();
    layout.store(
        len,
        LineList::new(lines),
        &extents(count, line_height),
        px(line_height),
        None,
        size(4.0, line_height * count as f32),
    );
    layout
}

fn build_text_layout_with_line_lengths(
    line_lengths: &[usize],
    line_height: f32,
) -> (TextLayout, Vec<Arc<WrappedLineLayout>>) {
    let lines: Vec<WrappedLine> = line_lengths
        .iter()
        .map(|&len| line(&"x".repeat(len), &[]))
        .collect();
    let layouts = lines.iter().map(|line| line.layout.clone()).collect();
    let len = line_lengths.iter().sum::<usize>() + line_lengths.len().saturating_sub(1);
    let mut layout = build(lines, len, line_height);
    layout.prepaint(bounds(
        line_lengths.iter().copied().max().unwrap_or_default() as f32,
        line_height * line_lengths.len() as f32,
    ));
    (layout, layouts)
}

/// Each glyph is one pixel wide.
fn index_at(layout: &TextLayout, x: f32, y: f32) -> Result<usize, usize> {
    let line_height = float(layout.line_height());
    let top = float(layout.bounds().origin.y);
    layout.index_for_position(px(y), px(y - top), |line_ix, extent| {
        let within = y - (top + float(extent.origin_y));
        if (within / line_height) as usize > 0 {
            return Err(0);
        }
        let len = layout.lines()[line_ix].len();
        if x < 0.0 {
            Err(0)
        } else if x >= len as f32 {
            Err(len)
        } else {
            Ok(x as usize)
        }
    })
}

fn position_of(layout: &TextLayout, index: usize) -> Option<(f32, f32)> {
    layout.position_for_index(index, |line_ix, extent, ix_within_line| {
        if ix_within_line > layout.lines()[line_ix].len() {
            None
        } else {
            Some((ix_within_line as f32, float(extent.origin_y)))
        }
    })
}

#[test]
fn text_layout_lookup_methods_handle_line_boundaries() {
    let (layout, line_layouts) = build_text_layout_with_line_lengths(&[4, 3, 2], 10.0);

    assert_eq!(layout.len(), 11);
    assert_eq!(index_at(&layout, 1.0, -0.1), Err(0));
    assert_eq!(index_at(&layout, 2.0, 9.9), Ok(2));
    assert_eq!(index_at(&layout, 2.0, 10.0), Err(0));
    assert_eq!(index_at(&layout, 2.0, 10.1), Ok(7));
    assert_eq!(index_at(&layout, 1.0, 31.0), Err(11));

    assert_eq!(position_of(&layout, 0), Some((0.0, 0.0)));
    assert_eq!(position_of(&layout, 4), Some((4.0, 0.0)));
    assert_eq!(position_of(&layout, 5), Some((0.0, 10.0)));
    assert_eq!(position_of(&layout, 8), Some((3.0, 10.0)));
    assert_eq!(position_of(&layout, 9), Some((0.0, 20.0)));
    assert_eq!(position_of(&layout, 11), Some((2.0, 20.0)));
    assert_eq!(position_of(&layout, 12), None);

    assert!(Arc::ptr_eq(
        &layout.line_layout_for_index(4).unwrap(),
        &line_layouts[0]
    ));
    assert!(Arc::ptr_eq(
        &layout.line_layout_for_index(5).unwrap(),
        &line_layouts[1]
    ));
    assert!(Arc::ptr_eq(
        &layout.line_layout_for_index(9).unwrap(),
        &line_layouts[2]
    ));
    assert!(layout.line_layout_for_index(12).is_none());
}

#[test]
fn text_layout_lookup_methods_handle_empty_middle_line() {
    let (layout, line_layouts) = build_text_layout_with_line_lengths(&[2, 0, 2], 10.0);

    assert_eq!(layout.len(), 6);
    assert_eq!(index_at(&layout, 0.0, 10.1), Err(3));
    assert_eq!(position_of(&layout, 2), Some((2.0, 0.0)));
    assert_eq!(position_of(&layout, 3), Some((0.0, 10.0)));
    assert_eq!(position_of(&layout, 4), Some((0.0, 20.0)));
    assert_eq!(position_of(&layout, 6), Some((2.0, 20.0)));
    assert_eq!(position_of(&layout, 7), None);

    assert!(Arc::ptr_eq(
        &layout.line_layout_for_index(3).unwrap(),
        &line_layouts[1]
    ));
    assert!(Arc::ptr_eq(
        &layout.line_layout_for_index(4).unwrap(),
        &line_layouts[2]
    ));
}

#[test]
fn metrics_count_a_line_feed_after_each_line() {
    let lines = LineList::new(vec![line("ab", &[]), line("", &[]), line("cde", &[])]);
    let metrics = text_layout_line_metrics(&lines, &extents(3, 10.0));
    let places: Vec<(usize, usize, f32, f32)> = metrics
        .as_slice()
        .iter()
        .map(|metric| {
            (
                metric.start_ix,
                metric.end_ix,
                float(metric.extent.origin_y),
                float(metric.extent.bottom),
            )
        })
        .collect();
    assert_eq!(
        places,
        [(0, 2, 0.0, 10.0), (3, 3, 10.0, 20.0), (4, 7, 20.0, 30.0)]
    );
    assert!(
        text_layout_line_metrics(&LineList::new(vec![]), &vec![])
            .as_slice()
            .is_empty()
    );
}

#[test]
fn every_index_of_the_text_has_a_line() {
    let (layout, _) = build_text_layout_with_line_lengths(&[4, 0, 3, 2], 10.0);
    for index in 0..=layout.len() {
        let holders = layout
            .line_metrics()
            .iter()
            .filter(|metric| metric.start_ix <= index && index <= metric.end_ix)
            .count();
        assert_eq!(holders, 1);
        assert!(position_of(&layout, index).is_some());
    }
    assert!(position_of(&layout, layout.len() + 1).is_none());
}

#[test]
fn an_empty_layout_holds_nothing() {
    let mut layout = TextLayout::default();
    assert!(!layout.is_measured());
    layout.store_failure(px(16.0), Some(px(80.0)));
    assert!(layout.is_measured());
    assert!(!layout.is_prepainted());
    assert_eq!(layout.len(), 0);
    assert_eq!(layout.line_height(), px(16.0));
    assert_eq!(layout.text(), "");
    assert_eq!(layout.wrapped_text(), "");
    assert_eq!(
        layout.cached_size(Some(px(80.0)), None),
        Some(size(0.0, 0.0))
    );
    layout.prepaint(bounds(8.0, 8.0));
    assert!(layout.is_prepainted());
    assert_eq!(layout.bounds(), bounds(8.0, 8.0));
    assert_eq!(index_at(&layout, 1.0, 1.0), Err(0));
    assert_eq!(position_of(&layout, 0), None);
    assert!(layout.line_layout_for_index(0).is_none());
}

#[test]
fn lines_are_joined_by_line_feeds() {
    let layout = build(vec![line("one", &[]), line("", &[]), line("drei", &[])], 9, 10.0);
    assert_eq!(layout.text(), "one\n\ndrei");
    assert_eq!(layout.text().len(), layout.line_metrics()[2].end_ix);
    assert_eq!(layout.wrapped_text(), layout.text());
}

#[test]
fn soft_wraps_become_line_feeds() {
    // The glyph after four characters begins at the fifth byte.
    let lines = vec![line("a\u{e9}bcdef", &[2, 4]), line("xy", &[1])];
    assert!(lines.iter().all(|line| line.has_wraps_in_order()));
    let layout = build(lines, 11, 10.0);
    assert_eq!(layout.wrapped_text(), "a\u{e9}\nbc\ndef\nx\ny");
    // One more for each of three soft wraps.
    assert_eq!(layout.wrapped_text().len(), layout.text().len() + 3);
    assert_eq!(layout.wrapped_text().replace('\n', ""), "a\u{e9}bcdefxy");
    assert_eq!(layout.text(), "a\u{e9}bcdef\nxy");
}

#[test]
fn wraps_out_of_order_are_told() {
    assert!(!line("abcd", &[3, 1]).has_wraps_in_order());
    assert!(!line("abcd", &[4]).has_wraps_in_order());
    let mut off = line("a\u{e9}b", &[]);
    off.layout = Arc::new(WrappedLineLayout {
        unwrapped_layout: LineLayout {
            runs: vec![ShapedRun {
                glyphs: vec![ShapedGlyph { index: 2 }],
            }],
            len: 4,
        },
        wrap_boundaries: vec![WrapBoundary {
            run_ix: 0,
            glyph_ix: 0,
        }],
    });
    assert!(!off.has_wraps_in_order());
    off.layout = Arc::new(WrappedLineLayout {
        unwrapped_layout: LineLayout {
            runs: vec![],
            len: 4,
        },
        wrap_boundaries: vec![WrapBoundary {
            run_ix: 0,
            glyph_ix: 0,
        }],
    });
    assert!(!off.has_wraps_in_order());
}

#[test]
fn measurements_are_used_again_only_for_the_same_width() {
    let mut layout = TextLayout::default();
    assert_eq!(layout.cached_size(None, None), None);
    layout.store(
        2,
        LineList::new(vec![line("ab", &[])]),
        &extents(1, 10.0),
        px(10.0),
        Some(px(40.0)),
        size(2.0, 10.0),
    );
    assert_eq!(layout.cached_size(None, None), None);
    assert_eq!(
        layout.cached_size(Some(px(40.0)), None),
        Some(size(2.0, 10.0))
    );
    assert_eq!(layout.cached_size(Some(px(41.0)), None), None);
    assert_eq!(layout.cached_size(None, Some(px(40.0))), None);
    assert_eq!(layout.cached_size(Some(px(f32::NAN)), None), None);
    let unwrapped = build(vec![line("ab", &[])], 2, 10.0);
    assert_eq!(unwrapped.cached_size(Some(px(40.0)), None), None);
    assert_eq!(unwrapped.cached_size(None, None), Some(size(4.0, 10.0)));
    assert_eq!(unwrapped.cached_size(None, Some(px(40.0))), None);
}

#[test]
fn widths_come_from_what_is_known() {
    let room = AvailableSpace::Definite(px(30.0));
    assert_eq!(wrap_width(WhiteSpace::Nowrap, Some(px(20.0)), room), None);
    assert_eq!(
        wrap_width(WhiteSpace::Normal, Some(px(20.0)), room),
        Some(px(20.0))
    );
    assert_eq!(wrap_width(WhiteSpace::Normal, None, room), Some(px(30.0)));
    assert_eq!(
        wrap_width(WhiteSpace::Normal, None, AvailableSpace::MinContent),
        None
    );

    let none = truncation(None, Some(px(20.0)), room, None);
    assert_eq!(
        (none.width, none.affix.as_str(), none.from),
        (None, "", TruncateFrom::End)
    );
    let clamp = || {
        Some(LineClamp {
            max_lines: 2,
            total_width: px(60.0),
        })
    };
    let dots = || TextOverflow::Truncate("...".to_string());
    let end = truncation(Some(dots()), None, room, None);
    assert_eq!(
        (end.width, end.affix.as_str(), end.from),
        (Some(px(30.0)), "...", TruncateFrom::End)
    );
    assert_eq!(
        truncation(Some(dots()), None, room, clamp()).width,
        Some(px(60.0))
    );
    assert_eq!(
        truncation(Some(dots()), Some(px(20.0)), room, clamp()).width,
        Some(px(20.0))
    );
    assert_eq!(
        truncation(Some(dots()), None, AvailableSpace::MaxContent, clamp()).width,
        None
    );
    let start = truncation(
        Some(TextOverflow::TruncateStart("<".to_string())),
        None,
        room,
        None,
    );
    assert_eq!(
        (start.affix.as_str(), start.from),
        ("<", TruncateFrom::Start)
    );
}

#[test]
fn lengths_compare_as_numbers() {
    assert!(px(-1.0).is_less(px(-0.5)));
    assert!(px(-0.5).is_less(px(0.0)));
    assert!(!px(-0.0).is_less(px(0.0)));
    assert!(px(-0.0).is_equal(px(0.0)));
    assert!(px(1.0).is_less(px(f32::INFINITY)));
    assert!(px(f32::NEG_INFINITY).is_less(px(f32::MIN)));
    assert!(!px(f32::NAN).is_less(px(1.0)));
    assert!(!px(1.0).is_less(px(f32::NAN)));
    assert!(!px(f32::NAN).is_equal(px(f32::NAN)));
    assert_eq!(float(Pixels::zero()), 0.0);
}
