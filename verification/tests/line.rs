use flow::line::{Line, LineCollection};

fn texts(store: &LineCollection) -> Vec<String> {
    (0..store.len()).map(|i| store.get(i).unwrap().content.clone()).collect()
}

fn batch(items: &[&str]) -> Vec<String> {
    items.iter().map(|x| x.to_string()).collect()
}

#[test]
fn line_without_styling_is_kept_as_it_is() {
    let line = Line::new("lorem ipsum".to_string());
    assert_eq!("lorem ipsum", line.content);
    assert_eq!("lorem ipsum", line.content_without_ansi);
    assert_eq!(11, line.width);
}

#[test]
fn line_width_counts_columns_not_characters() {
    let line = Line::new("こんにちは！".to_string());
    assert_eq!(12, line.width);
    assert_eq!(0, Line::new(String::new()).width);
}

#[test]
fn guesses_height_from_width() {
    let line = Line::new("0123456789".to_string());
    assert_eq!(1, line.guess_height(80));
    assert_eq!(1, line.guess_height(10));
    assert_eq!(2, line.guess_height(9));
    assert_eq!(2, line.guess_height(5));
    assert_eq!(4, line.guess_height(3));
    assert_eq!(10, line.guess_height(1));
}

#[test]
fn empty_line_takes_one_row() {
    let line = Line::new(String::new());
    assert_eq!(1, line.guess_height(80));
    assert_eq!(1, line.guess_height(0));
}

#[test]
fn line_in_a_container_without_width_takes_all_rows() {
    let line = Line::new("a".to_string());
    assert_eq!(usize::MAX, line.guess_height(0));
}

#[test]
fn line_contains_looks_at_the_text_without_styling() {
    let line = Line::new("\x1b[31mred\x1b[0m alert".to_string());
    assert!(line.contains("red alert"));
    assert!(line.contains(""));
    assert!(!line.contains("[31m"));
    assert!(!line.contains("Red"));
}

#[test]
fn new_store_is_empty() {
    let store = LineCollection::new(3);
    assert_eq!(0, store.len());
    assert_eq!(3, store.capacity());
    assert!(store.get(0).is_none());
}

#[test]
fn empty_batch_changes_nothing() {
    let mut store = LineCollection::new(3);
    store.extend(batch(&["a", "b"]));
    store.extend(Vec::new());
    assert_eq!(vec!["a", "b"], texts(&store));
}

#[test]
fn store_keeps_lines_in_order() {
    let mut store = LineCollection::new(5);
    store.extend(batch(&["a", "b"]));
    store.extend(batch(&["c"]));
    assert_eq!(3, store.len());
    assert_eq!(vec!["a", "b", "c"], texts(&store));
    assert!(store.get(3).is_none());
}

#[test]
fn store_evicts_the_oldest_lines() {
    let mut store = LineCollection::new(3);
    store.extend(batch(&["a", "b"]));
    store.extend(batch(&["c", "d"]));
    assert_eq!(vec!["b", "c", "d"], texts(&store));
    store.extend(batch(&["e", "f", "g", "h", "i"]));
    assert_eq!(3, store.len());
    assert_eq!(vec!["g", "h", "i"], texts(&store));
}

#[test]
fn batches_leave_what_one_batch_leaves() {
    let mut piecewise = LineCollection::new(4);
    piecewise.extend(batch(&["a"]));
    piecewise.extend(batch(&["b", "c", "d"]));
    piecewise.extend(batch(&["e", "f"]));
    let mut at_once = LineCollection::new(4);
    at_once.extend(batch(&["a", "b", "c", "d", "e", "f"]));
    assert_eq!(texts(&at_once), texts(&piecewise));
    assert_eq!(vec!["c", "d", "e", "f"], texts(&piecewise));
}

#[test]
fn store_without_capacity_keeps_nothing() {
    let mut store = LineCollection::new(0);
    store.extend(batch(&["a", "b"]));
    assert_eq!(0, store.len());
}

#[test]
fn line_tells_where_a_text_occurs() {
    let line = Line::new("\x1b[1mabc\x1b[0m abc ábc abcabc".to_string());
    assert_eq!(vec![0, 4, 13, 16], line.matches_for("abc"));
    assert_eq!(vec![1, 5, 10], line.matches_for("bc "));
    assert!(line.matches_for("xyz").is_empty());
    let line = Line::new("aaaa".to_string());
    assert_eq!(vec![0, 2], line.matches_for("aa"));
}
