use flow::buffer::{Offset, Query};
use flow::filter::Filter;
use flow::flow::{shift_highlighted_line, Action, Direction, Event, Flow};
use flow::rendered_line::RenderedLineCollection;

fn batch(items: &[&str]) -> Vec<String> {
    items.iter().map(|x| x.to_string()).collect()
}

fn shown(flow: &Flow, width: usize) -> Vec<String> {
    flow.visible(width, None)
        .iter()
        .map(|line| flow.lines.get(line.index).unwrap().content.clone())
        .collect()
}

fn bracketed() -> Filter {
    Filter::from_patterns("Blocks", None, Some("START"), Some("END")).unwrap()
}

#[test]
fn new_coordinator_is_empty() {
    let flow = Flow::new(5, vec![bracketed()]);
    assert_eq!(0, flow.lines.len());
    assert_eq!(5, flow.lines.capacity());
    assert_eq!(1, flow.buffers.len());
    assert!(shown(&flow, 80).is_empty());
}

#[test]
fn end_to_end_block_stays_in_view_while_lines_come_in() {
    let mut flow = Flow::new(5, vec![bracketed()]);
    let count = flow.append_incoming_lines(batch(&["a", "START", "b", "c", "END"]));
    assert_eq!(5, count);
    assert_eq!(vec!["START", "b", "c", "END"], shown(&flow, 80));

    assert_eq!(2, flow.scroll(Offset::Line(2), 24, 10));
    assert!(flow.buffers.selected_item().is_scrolled());

    let count = flow.append_incoming_lines(batch(&["d"]));
    assert_eq!(1, count);
    assert_eq!(5, flow.lines.len());
    assert_eq!("START", flow.lines.get(0).unwrap().content);
    assert_eq!("d", flow.lines.get(4).unwrap().content);
    assert_eq!(vec!["START", "b", "c", "END"], shown(&flow, 80));

    let mut rendered = RenderedLineCollection::default();
    for index in 0..flow.lines.len() {
        let height = flow.lines.get(index).unwrap().guess_height(80) as i32;
        rendered.create(height, None);
    }
    let added_height = rendered.last_lines_height(count);
    assert_eq!(1, added_height);
    flow.keep_position(added_height, 10);
    assert_eq!(3, flow.buffers.selected_item().reverse_index);
}

#[test]
fn view_at_the_newest_line_stays_there() {
    let mut flow = Flow::new(5, vec![bracketed()]);
    flow.append_incoming_lines(batch(&["START", "END"]));
    flow.keep_position(4, 10);
    assert_eq!(0, flow.buffers.selected_item().reverse_index);
    assert!(!flow.buffers.selected_item().is_scrolled());
}

#[test]
fn scrolled_view_moves_within_the_range() {
    let mut flow = Flow::new(5, vec![bracketed()]);
    flow.scroll(Offset::Line(8), 24, 10);
    flow.keep_position(5, 10);
    assert_eq!(10, flow.buffers.selected_item().reverse_index);
    flow.keep_position(-4, 10);
    assert_eq!(6, flow.buffers.selected_item().reverse_index);
}

#[test]
fn menu_selection_moves_between_buffers() {
    let all = Filter::from_patterns("All", None, None, None).unwrap();
    let mut flow = Flow::new(5, vec![all, bracketed()]);
    flow.append_incoming_lines(batch(&["a", "START", "b", "END"]));
    assert_eq!(vec!["a", "START", "b", "END"], shown(&flow, 80));
    flow.select_menu_item(Direction::Right);
    assert_eq!(1, flow.buffers.selected_index());
    assert_eq!(vec!["START", "b", "END"], shown(&flow, 80));
    flow.select_menu_item(Direction::Right);
    assert_eq!(1, flow.buffers.selected_index());
    flow.select_menu_item(Direction::Left);
    flow.select_menu_item(Direction::Left);
    assert_eq!(0, flow.buffers.selected_index());
}

#[test]
fn scroll_reports_the_new_position() {
    let mut flow = Flow::new(5, vec![bracketed()]);
    assert_eq!(20, flow.scroll(Offset::Viewport(1), 24, 100));
    assert_eq!(100, flow.scroll(Offset::Top, 24, 100));
    assert_eq!(0, flow.scroll(Offset::Bottom, 24, 100));
}

#[test]
fn visible_applies_the_query() {
    let all = Filter::from_patterns("All", None, None, None).unwrap();
    let mut flow = Flow::new(5, vec![all]);
    flow.append_incoming_lines(batch(&["one", "two", "twenty one"]));
    let query = Query { text: "one".to_string(), filter: true };
    let page = flow.visible(80, Some(&query));
    assert_eq!(vec![0, 2], page.iter().map(|line| line.index).collect::<Vec<_>>());
}

#[test]
fn highlighted_line_moves_on_with_the_lines_that_come() {
    assert_eq!(7, shift_highlighted_line(10, 3));
    assert_eq!(0, shift_highlighted_line(3, 3));
    assert_eq!(2, shift_highlighted_line(2, 3));
    assert_eq!(0, shift_highlighted_line(0, 1));
    assert_eq!(5, shift_highlighted_line(5, 0));
}

#[test]
fn events_lead_to_what_is_left_to_do() {
    let all = Filter::from_patterns("All", None, None, None).unwrap();
    let mut flow = Flow::new(5, vec![all, bracketed()]);
    assert_eq!(Action::Drain, flow.process(Event::Other, 24, 100));
    assert_eq!(Action::Render, flow.process(Event::Resize, 24, 100));
    assert_eq!(Action::Quit, flow.process(Event::Quit, 24, 100));
    assert_eq!(0, flow.buffers.selected_index());
    assert_eq!(
        Action::Render,
        flow.process(Event::SelectMenuItem(Direction::Right), 24, 100)
    );
    assert_eq!(1, flow.buffers.selected_index());
    assert_eq!(
        Action::Scroll(20),
        flow.process(Event::ScrollContents(Offset::Viewport(1)), 24, 100)
    );
    assert_eq!(
        Action::Scroll(21),
        flow.process(Event::ScrollContents(Offset::Line(1)), 24, 100)
    );
    assert_eq!(21, flow.buffers.selected_item().reverse_index);
    assert_eq!(
        Action::Render,
        flow.process(Event::SelectMenuItem(Direction::Left), 24, 100)
    );
    assert_eq!(0, flow.buffers.selected_item().reverse_index);
    assert_eq!(Action::Scroll(100), flow.process(Event::ScrollContents(Offset::Top), 24, 100));
    assert_eq!(Action::Scroll(0), flow.process(Event::ScrollContents(Offset::Bottom), 24, 100));
}

#[test]
fn coordinator_without_buffers_shows_nothing() {
    let mut flow = Flow::new(5, Vec::new());
    flow.append_incoming_lines(batch(&["a"]));
    assert!(flow.visible(80, None).is_empty());
    assert_eq!(0, flow.scroll(Offset::Top, 24, 100));
    assert_eq!(Action::Scroll(0), flow.process(Event::ScrollContents(Offset::Top), 24, 100));
    flow.keep_position(3, 100);
    flow.select_menu_item(Direction::Right);
    assert_eq!(0, flow.buffers.selected_index());
    assert_eq!(1, flow.lines.len());
}
