use tinysound::render::{bars_frame, present, render, scale, Shown, BLOCK};

fn lines(frame: &str) -> Vec<Vec<char>> {
    frame.lines().map(|l| l.chars().collect()).collect()
}

#[test]
fn scale_divides_by_one_more_than_max_over_height() {
    // The largest of the first two is 20; 20 / 3 + 1 = 7.
    assert_eq!(scale(&[10, 20, 5], 3), vec![1, 2]);
    // The largest of the first seven is 39; 39 / 10 + 1 = 4.
    assert_eq!(scale(&[33, 12, 39, 5, 9, 27, 13, 17], 10), vec![8, 3, 9, 1, 2, 6, 3]);
}

#[test]
fn scale_ignores_the_last_bin_for_the_maximum() {
    // The last entry is not drawn and does not count: the divisor is 4 / 4 + 1.
    assert_eq!(scale(&[4, 2, 30000], 4), vec![2, 1]);
}

#[test]
fn scale_leaves_quiet_frames_alone() {
    assert_eq!(scale(&[1, 2, 3, 0], 24), vec![1, 2, 3]);
    assert_eq!(scale(&[0, 0, 0], 5), vec![0, 0]);
}

#[test]
fn scale_of_short_series_is_empty() {
    assert_eq!(scale(&[], 5), Vec::<i16>::new());
    assert_eq!(scale(&[17], 5), Vec::<i16>::new());
}

#[test]
fn scale_rounds_towards_zero() {
    // The largest of the first two is 3; 3 / 1 + 1 = 4.
    assert_eq!(scale(&[-7, 3, 0], 1), vec![-1, 0]);
    // No entry is positive: the divisor is 1.
    assert_eq!(scale(&[i16::MIN, -1, 9], 7), vec![i16::MIN, -1]);
}

#[test]
fn scale_takes_a_viewport_taller_than_any_sample() {
    assert_eq!(scale(&[i16::MAX, 5, 0], usize::MAX), vec![i16::MAX, 5]);
    assert_eq!(scale(&[i16::MAX, 5, 0], 1), vec![0, 0]);
    assert_eq!(scale(&[i16::MAX, 5, 0], 32767), vec![16383, 2]);
}

#[test]
fn scaled_bars_fit_the_viewport() {
    let series: Vec<Vec<i16>> = vec![
        vec![0, 1, 2, 3, 4, 5, 6, 7],
        vec![32767, 1, 32767, 16000, 0, 9, 9, 9],
        vec![400, 362, 0, 127, 85, 72, 0, 0],
        vec![5, 5],
    ];
    for m in series.iter() {
        for h in [1usize, 2, 3, 6, 24, 50, 400, 40000] {
            let bars = scale(m, h);
            assert_eq!(bars.len(), m.len() - 1);
            for b in bars.iter() {
                assert!(*b >= 0 && (*b as usize) <= h, "{:?} {} {}", m, h, b);
            }
        }
    }
}

#[test]
fn render_three_bars_in_thirty_columns() {
    let frame = render(&[3, 5, 1], 30, 6);
    assert_eq!(frame.chars().count(), 6 * 26);
    assert!(frame.ends_with('\n'));
    let rows = lines(&frame);
    assert_eq!(rows.len(), 6);
    for (i, row) in rows.iter().enumerate() {
        // The width of a stripe is 30 / (2 * 3) = 5; a row is one stripe short.
        assert_eq!(row.len(), 25);
        for (j, c) in row.iter().enumerate() {
            let in_first = (5..10).contains(&j) && i >= 3;
            let in_second = (15..20).contains(&j) && i >= 1;
            let expected = if in_first || in_second { BLOCK } else { ' ' };
            assert_eq!(*c, expected, "row {} column {}", i, j);
        }
    }
    // The bar of height 5 fills 5 of the 6 rows, from the bottom.
    let filled: Vec<bool> = rows.iter().map(|r| r[17] == BLOCK).collect();
    assert_eq!(filled, vec![false, true, true, true, true, true]);
    // The bar of height 3 fills the 3 rows at the bottom.
    let filled: Vec<bool> = rows.iter().map(|r| r[7] == BLOCK).collect();
    assert_eq!(filled, vec![false, false, false, true, true, true]);
}

#[test]
fn render_exact_small_frame() {
    // Stripes of 8 / (2 * 2) = 2 columns and rows of 6 cells: stripe 1 shows the
    // first bar, of height 1, in the bottom row; the second bar's stripe is cut off.
    let mut expected = String::new();
    expected.push_str("      \n");
    expected.push_str("  ");
    expected.push(BLOCK);
    expected.push(BLOCK);
    expected.push_str("  \n");
    assert_eq!(render(&[1, 2], 8, 2), expected);
}

#[test]
fn render_glyph_is_the_black_square() {
    assert_eq!(BLOCK, '■');
    assert_eq!(render(&[1], 3, 1), " ■\n");
}

#[test]
fn render_without_bars_is_empty() {
    assert_eq!(render(&[], 80, 24), "");
}

#[test]
fn render_in_a_viewport_too_narrow_is_empty() {
    assert_eq!(render(&[3, 5, 1], 5, 6), "");
    assert_eq!(render(&[3, 5, 1], 0, 6), "");
}

#[test]
fn render_without_rows_is_empty() {
    assert_eq!(render(&[3, 5, 1], 30, 0), "");
}

#[test]
fn render_leaves_stripes_beyond_the_last_bar_blank() {
    // Stripes are 1 column wide; rows hold 30 cells, stripes 16 to 29 have no bar.
    let frame = render(&[1, 1, 1, 1, 1, 1, 1, 1], 31, 1);
    let rows = lines(&frame);
    assert_eq!(rows.len(), 1);
    assert_eq!(rows[0].len(), 30);
    for (j, c) in rows[0].iter().enumerate() {
        let expected = if j % 2 == 1 && j < 16 { BLOCK } else { ' ' };
        assert_eq!(*c, expected, "column {}", j);
    }
}

#[test]
fn render_treats_heights_outside_the_viewport() {
    // A height that is not positive draws nothing; one above the viewport fills its stripe.
    let frame = render(&[-4, 0, 9, 2], 18, 3);
    let rows = lines(&frame);
    assert_eq!(rows.len(), 3);
    for (i, row) in rows.iter().enumerate() {
        assert_eq!(row.len(), 16);
        for (j, c) in row.iter().enumerate() {
            let stripe = j / 2;
            let expected = match stripe {
                5 => BLOCK,
                7 if i >= 1 => BLOCK,
                _ => ' ',
            };
            assert_eq!(*c, expected, "row {} column {}", i, j);
        }
    }
}

#[test]
fn bars_frame_scales_then_renders() {
    let magnitudes: Vec<i16> = vec![400, 362, 0, 127, 85, 72, 0, 0];
    let frame = bars_frame(&magnitudes, 10, 60);
    assert_eq!(frame, render(&scale(&magnitudes, 10), 60, 10));
    // 400 / 10 + 1 = 41: heights 9, 8, 0, 3, 2, 1, 0; stripes of 60 / 14 = 4 columns.
    assert_eq!(scale(&magnitudes, 10), vec![9, 8, 0, 3, 2, 1, 0]);
    let rows = lines(&frame);
    assert_eq!(rows.len(), 10);
    assert_eq!(rows[0].len(), 56);
    assert_eq!(rows[0].iter().filter(|c| **c == BLOCK).count(), 0);
    assert_eq!(rows[1].iter().filter(|c| **c == BLOCK).count(), 4);
    assert_eq!(rows[9].iter().filter(|c| **c == BLOCK).count(), 5 * 4);
}

#[test]
fn present_without_viewport_draws_nothing() {
    assert!(matches!(present(&[1, 2, 3], None), Shown::NoViewport));
}

#[test]
fn present_with_viewport_gives_the_frame() {
    match present(&[10, 20, 5], Some((12, 3))) {
        Shown::Frame(text) => assert_eq!(text, bars_frame(&[10, 20, 5], 3, 12)),
        Shown::NoViewport => panic!("a viewport was given"),
    }
}
