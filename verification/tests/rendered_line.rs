use flow::rendered_line::{MatchedLine, RenderedLine, RenderedLineCollection, Viewport};

fn record(entries: &[(i32, Option<Vec<usize>>)]) -> RenderedLineCollection {
    let mut lines = RenderedLineCollection::default();
    for (height, found_matches) in entries {
        lines.create(*height, found_matches.clone());
    }
    lines
}

fn sample() -> RenderedLineCollection {
    record(&[
        (1, None),
        (3, Some(vec![0, 2])),
        (2, None),
        (4, Some(vec![1, 1, 3])),
        (1, None),
    ])
}

#[test]
fn new_record_is_empty() {
    let lines = RenderedLineCollection::default();
    assert_eq!(0, lines.len());
    assert_eq!(0, lines.height());
    assert_eq!(0, lines.last_lines_height(3));
    assert_eq!(0, lines.height_up_to_index(3));
    assert!(lines.next_match(0).is_none());
    assert!(lines.previous_match(0).is_none());
}

#[test]
fn rendered_line_counts_its_matches() {
    let line = RenderedLine::new(2, Some(vec![0, 0, 1]));
    assert_eq!(2, line.height);
    assert_eq!(3, line.match_count());
}

#[test]
fn matched_line_holds_what_it_was_given() {
    let matched = MatchedLine::new(4, 2);
    assert_eq!(4, matched.line);
    assert_eq!(2, matched.match_index);
}

#[test]
fn create_records_lines_in_order() {
    let lines = sample();
    assert_eq!(5, lines.len());
    assert_eq!(3, lines.entries[1].height);
    assert_eq!(Some(vec![1, 1, 3]), lines.entries[3].found_matches);
    assert!(lines.entries[4].found_matches.is_none());
}

#[test]
fn height_adds_up_the_rows() {
    assert_eq!(11, sample().height());
}

#[test]
fn clear_forgets_all_lines() {
    let mut lines = sample();
    lines.clear();
    assert_eq!(0, lines.len());
    assert_eq!(0, lines.height());
}

#[test]
fn height_up_to_index_counts_the_first_lines() {
    let lines = sample();
    assert_eq!(0, lines.height_up_to_index(0));
    assert_eq!(1, lines.height_up_to_index(1));
    assert_eq!(6, lines.height_up_to_index(3));
    assert_eq!(11, lines.height_up_to_index(5));
    assert_eq!(11, lines.height_up_to_index(9));
}

#[test]
fn last_lines_height_counts_the_last_lines() {
    let lines = sample();
    assert_eq!(0, lines.last_lines_height(0));
    assert_eq!(1, lines.last_lines_height(1));
    assert_eq!(5, lines.last_lines_height(2));
    assert_eq!(11, lines.last_lines_height(5));
    assert_eq!(11, lines.last_lines_height(usize::MAX));
}

#[test]
fn buffer_reverse_index_counts_back_from_the_newest() {
    let lines = sample();
    assert_eq!(10, lines.buffer_reverse_index(1, 0));
    assert_eq!(8, lines.buffer_reverse_index(1, 1));
    assert_eq!(4, lines.buffer_reverse_index(3, 0));
    assert_eq!(2, lines.buffer_reverse_index(3, 2));
}

#[test]
fn last_match_counts_the_line_back_from_the_newest() {
    assert_eq!(MatchedLine::new(1, 2), sample().last_match());
    let lines = record(&[(1, Some(vec![0])), (1, None), (1, None)]);
    assert_eq!(MatchedLine::new(2, 0), lines.last_match());
    let lines = record(&[(1, None), (2, Some(vec![0, 1]))]);
    assert_eq!(MatchedLine::new(0, 1), lines.last_match());
}

#[test]
fn next_match_finds_the_first_line_behind() {
    let lines = sample();
    assert_eq!(Some(MatchedLine::new(1, 1)), lines.next_match(0));
    assert_eq!(Some(MatchedLine::new(3, 2)), lines.next_match(1));
    assert_eq!(Some(MatchedLine::new(3, 2)), lines.next_match(2));
    assert_eq!(None, lines.next_match(3));
    assert_eq!(None, lines.next_match(4));
    assert_eq!(None, lines.next_match(usize::MAX));
}

#[test]
fn previous_match_finds_the_last_line_before() {
    let lines = sample();
    assert_eq!(None, lines.previous_match(0));
    assert_eq!(None, lines.previous_match(1));
    assert_eq!(Some(MatchedLine::new(1, 1)), lines.previous_match(2));
    assert_eq!(Some(MatchedLine::new(1, 1)), lines.previous_match(3));
    assert_eq!(Some(MatchedLine::new(3, 2)), lines.previous_match(4));
    assert_eq!(Some(MatchedLine::new(3, 2)), lines.previous_match(5));
}

#[test]
fn viewport_ends_where_its_rows_end() {
    let viewport = Viewport::new(3, 20);
    assert_eq!(3, viewport.reverse_index);
    assert_eq!(20, viewport.visible_height);
    assert_eq!(23, viewport.limit());
    assert_eq!(0, Viewport::new(0, 0).limit());
    assert_eq!(usize::MAX, Viewport::new(usize::MAX - 1, 1).limit());
}

#[test]
fn match_is_in_viewport_when_its_rows_fit() {
    let lines = sample();
    let third = MatchedLine::new(3, 0);
    assert!(lines.is_match_in_viewport(third, Viewport::new(0, 10)));
    assert!(lines.is_match_in_viewport(third, Viewport::new(2, 4)));
    assert!(lines.is_match_in_viewport(third, Viewport::new(5, 1)));
    assert!(!lines.is_match_in_viewport(third, Viewport::new(6, 10)));
    assert!(!lines.is_match_in_viewport(third, Viewport::new(0, 5)));
    assert!(!lines.is_match_in_viewport(third, Viewport::new(0, 0)));
    let first = MatchedLine::new(1, 1);
    assert!(lines.is_match_in_viewport(first, Viewport::new(0, 10)));
    assert!(lines.is_match_in_viewport(first, Viewport::new(10, 0)));
    assert!(!lines.is_match_in_viewport(first, Viewport::new(0, 9)));
    assert!(!lines.is_match_in_viewport(first, Viewport::new(11, 9)));
}

#[test]
fn line_without_matches_is_out_of_a_viewport_that_it_does_not_reach() {
    let lines = sample();
    assert!(!lines.is_match_in_viewport(MatchedLine::new(4, 0), Viewport::new(2, 10)));
}

#[test]
fn viewport_match_is_the_first_on_the_screen_from_the_newest() {
    let lines = sample();
    assert_eq!(Some(MatchedLine::new(1, 0)), lines.viewport_match(&Viewport::new(0, 10)));
    assert_eq!(Some(MatchedLine::new(1, 0)), lines.viewport_match(&Viewport::new(0, 2)));
    assert_eq!(Some(MatchedLine::new(1, 0)), lines.viewport_match(&Viewport::new(1, 1)));
    assert_eq!(Some(MatchedLine::new(3, 0)), lines.viewport_match(&Viewport::new(2, 10)));
    assert_eq!(Some(MatchedLine::new(3, 0)), lines.viewport_match(&Viewport::new(7, 1)));
    assert_eq!(None, lines.viewport_match(&Viewport::new(0, 1)));
    assert_eq!(None, lines.viewport_match(&Viewport::new(0, 0)));
    assert_eq!(None, lines.viewport_match(&Viewport::new(2, 4)));
    assert_eq!(None, lines.viewport_match(&Viewport::new(8, 20)));
}

#[test]
fn viewport_match_passes_over_offsets_that_do_not_fit() {
    let lines = record(&[(2, Some(vec![5, 1, 0]))]);
    assert_eq!(Some(MatchedLine::new(0, 1)), lines.viewport_match(&Viewport::new(0, 3)));
    assert_eq!(Some(MatchedLine::new(0, 2)), lines.viewport_match(&Viewport::new(0, 0)));
    assert_eq!(Some(MatchedLine::new(0, 0)), lines.viewport_match(&Viewport::new(0, 5)));
    assert_eq!(None, lines.viewport_match(&Viewport::new(1, 5)));
    assert_eq!(None, RenderedLineCollection::default().viewport_match(&Viewport::new(0, 5)));
}
