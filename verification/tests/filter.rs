use flow::filter::{Filter, FilterError, Kind};
use flow::line::LineCollection;
use flow::scan::parse;

fn lines() -> LineCollection {
    let mut store = LineCollection::new(100);
    store.extend(
        vec![
            "Setting database",
            "Started POST",
            "dolor needle",
            "sit amen mel",
            "Completed 200",
            "Started GET",
            "quo natum",
            "mel elit needle",
            "Completed 200",
            "Started GET",
            "graece ceteros",
            "neglegentur id",
            "Completed 200",
            "Started GET",
            "electram needle",
            "sit amen",
            "Completed 404",
            "Started GET",
            "concludaturque mel",
            "sit ea NEEDLE ignota",
            "Completed 200",
        ]
        .iter()
        .map(|x| x.to_string())
        .collect(),
    );
    store
}

fn store_of(texts: &[&str]) -> LineCollection {
    let mut store = LineCollection::new(texts.len());
    store.extend(texts.iter().map(|x| x.to_string()).collect());
    store
}

fn contents(store: &LineCollection, filter: &Filter) -> Vec<String> {
    parse(store, filter)
        .iter()
        .map(|index| store.get(*index).unwrap().content_without_ansi.clone())
        .collect()
}

fn assert_line_content(filter: Filter, expected: Vec<&str>) {
    let store = lines();
    let actual = contents(&store, &filter);
    assert_eq!(expected, actual);
}

fn toml_string_to_filter(contents: &str) -> Filter {
    try_toml_string_to_filter(contents).unwrap()
}

fn try_toml_string_to_filter(contents: &str) -> Result<Filter, FilterError> {
    let table: toml::Table = contents.parse().unwrap();
    let field = |name: &str| table.get(name).and_then(|value| value.as_str());
    Filter::from_patterns(
        field("name").unwrap(),
        field("contains"),
        field("starts_with"),
        field("ends_with"),
    )
}

#[test]
fn decodes_named_filter() {
    let filter = toml_string_to_filter(
        r##"
       name = "All"
    "##,
    );

    assert_eq!("All", filter.name());
    assert!(filter.start().is_none());
    assert!(filter.content().is_none());
    assert!(filter.end().is_none());
}

#[test]
fn decodes_filter_with_content_constraint() {
    let filter = toml_string_to_filter(
        r##"
       name = "Having content constraints"
       contains = "body value"
    "##,
    );

    assert_eq!("Having content constraints", filter.name());
    assert!(filter.start().is_none());
    assert_eq!(Some("body value"), filter.content().map(|c| c.as_str()));
    assert!(filter.end().is_none());
}

#[test]
fn decodes_filter_with_boundary_constraints() {
    let filter = toml_string_to_filter(
        r##"
       name = "Having boundary constraints"
       starts_with = "start marker"
       ends_with = "end marker"
    "##,
    );

    assert_eq!("Having boundary constraints", filter.name());
    assert!(filter.content().is_none());
    assert_eq!("start marker", filter.start().unwrap().regex.as_str());
    assert_eq!("end marker", filter.end().unwrap().regex.as_str());
}

#[test]
fn decodes_filter_with_boundary_match_constraints() {
    let filter = toml_string_to_filter(
        r##"
       name = "Having many constraints"
       contains = "body value"
       starts_with = "(?P<matching>start) body value"
       ends_with = "(?P<other>end) body value"
    "##,
    );

    assert_eq!("Having many constraints", filter.name());

    assert!(filter.start().unwrap().has_named_match);
    assert_eq!("body value", filter.content().unwrap().as_str());
    assert!(!filter.end().unwrap().has_named_match);
}

#[test]
fn having_no_constraints_matches_everything() {
    let filter = toml_string_to_filter(
        r##"
       name = "All"
    "##,
    );

    let store = store_of(&["", "lorem ipsum", "こんにちは！"]);
    assert_eq!(3, parse(&store, &filter).len());
}

#[test]
fn having_content_constraint_matches_against_provided_value() {
    let filter = toml_string_to_filter(
        r##"
       name = "All"
       contains = "(?i)or"
    "##,
    );

    let store = store_of(&["Lorem ipsum", "Legislature", "Folklore"]);
    let actual = contents(&store, &filter);
    let expected = vec!["Folklore", "Lorem ipsum"];
    assert_eq!(expected, actual);
}

#[test]
fn filters_entries_by_start_boundary() {
    let filter = toml_string_to_filter(
        r##"
       name = "GET requests"
       starts_with = "Started (?P<matching>GET)?"
    "##,
    );

    let expected = vec![
        "Completed 200",
        "sit ea NEEDLE ignota",
        "concludaturque mel",
        "Started GET",
        "Completed 404",
        "sit amen",
        "electram needle",
        "Started GET",
        "Completed 200",
        "neglegentur id",
        "graece ceteros",
        "Started GET",
        "Completed 200",
        "mel elit needle",
        "quo natum",
        "Started GET",
    ];
    assert_line_content(filter, expected);
}

#[test]
fn filters_entries_by_end_boundary() {
    let filter = toml_string_to_filter(
        r##"
       name = "GET requests"
       ends_with = "Completed (?P<matching>200)?"
    "##,
    );

    let expected = vec![
        "Completed 200",
        "sit ea NEEDLE ignota",
        "concludaturque mel",
        "Started GET",
        "Completed 200",
        "neglegentur id",
        "graece ceteros",
        "Started GET",
        "Completed 200",
        "mel elit needle",
        "quo natum",
        "Started GET",
        "Completed 200",
        "sit amen mel",
        "dolor needle",
        "Started POST",
        "Setting database",
    ];
    assert_line_content(filter, expected);
}

#[test]
fn filters_entries_by_boundary_with_matcher() {
    let filter = toml_string_to_filter(
        r##"
       name = "Having many constraints"
       starts_with = "Started (?P<matching>GET)?"
       ends_with = "Completed (?P<matching>200)?"
    "##,
    );

    let expected = vec![
        "Completed 200",
        "sit ea NEEDLE ignota",
        "concludaturque mel",
        "Started GET",
        "Completed 200",
        "neglegentur id",
        "graece ceteros",
        "Started GET",
        "Completed 200",
        "mel elit needle",
        "quo natum",
        "Started GET",
    ];
    assert_line_content(filter, expected);
}

#[test]
fn filters_entries_by_boundary_without_matcher() {
    let filter = toml_string_to_filter(
        r##"
       name = "GET requests"
       starts_with = "Started (?P<matching>GET)?"
       ends_with = "Completed"
    "##,
    );

    let expected = vec![
        "Completed 200",
        "sit ea NEEDLE ignota",
        "concludaturque mel",
        "Started GET",
        "Completed 404",
        "sit amen",
        "electram needle",
        "Started GET",
        "Completed 200",
        "neglegentur id",
        "graece ceteros",
        "Started GET",
        "Completed 200",
        "mel elit needle",
        "quo natum",
        "Started GET",
    ];
    assert_line_content(filter, expected);
}

#[test]
fn filters_entries_by_main_content_and_boundary_with_matcher() {
    let filter = toml_string_to_filter(
        r##"
       name = "Succesful GET requests"
       contains = "(?i)needle"
       starts_with = "Started (?P<matching>GET)?"
       ends_with = "Completed (?P<matching>200)?"
    "##,
    );

    let expected = vec![
        "Completed 200",
        "sit ea NEEDLE ignota",
        "concludaturque mel",
        "Started GET",
        "Completed 200",
        "mel elit needle",
        "quo natum",
        "Started GET",
    ];
    assert_line_content(filter, expected);
}

#[test]
fn filters_entries_by_main_content_and_boundary_without_matcher() {
    let filter = toml_string_to_filter(
        r##"
       name = "GET requests"
       contains = "(?i)needle"
       starts_with = "Started (?P<matching>GET)?"
       ends_with = "Completed"
    "##,
    );

    let expected = vec![
        "Completed 200",
        "sit ea NEEDLE ignota",
        "concludaturque mel",
        "Started GET",
        "Completed 404",
        "sit amen",
        "electram needle",
        "Started GET",
        "Completed 200",
        "mel elit needle",
        "quo natum",
        "Started GET",
    ];
    assert_line_content(filter, expected);
}

#[test]
fn refuses_content_with_start_boundary_only() {
    let refused = try_toml_string_to_filter(
        r##"
       name = "GET requests"
       starts_with = "Started (?P<matching>GET)?"
       contains = "mel"
    "##,
    );
    assert!(matches!(refused, Err(FilterError::InvalidConstraints)));
}

#[test]
fn refuses_content_with_end_boundary_only() {
    let refused = try_toml_string_to_filter(
        r##"
       name = "GET requests"
       contains = "sit"
       ends_with = "Completed (?P<matching>200)?"
    "##,
    );
    assert!(matches!(refused, Err(FilterError::InvalidConstraints)));
}

#[test]
fn refuses_a_pattern_that_does_not_compile() {
    let refused = Filter::from_patterns("Broken", None, None, Some("Completed ("));
    assert!(matches!(
        refused,
        Err(FilterError::MalformedPattern(flow::filter::Constraint::End, _))
    ));
}

#[test]
fn refuses_the_combination_before_it_looks_at_patterns() {
    let refused = Filter::from_patterns("Broken", Some("("), Some("a"), None);
    assert!(matches!(refused, Err(FilterError::InvalidConstraints)));
}

#[test]
fn derives_the_kind_from_the_constraints_present() {
    let kind = |contains, starts_with, ends_with| {
        Filter::from_patterns("kind", contains, starts_with, ends_with).unwrap().kind()
    };
    assert_eq!(Kind::Empty, kind(None, None, None));
    assert_eq!(Kind::Content, kind(Some("a"), None, None));
    assert_eq!(Kind::Start, kind(None, Some("a"), None));
    assert_eq!(Kind::End, kind(None, None, Some("a")));
    assert_eq!(Kind::StartEnd, kind(None, Some("a"), Some("b")));
    assert_eq!(Kind::StartContentEnd, kind(Some("c"), Some("a"), Some("b")));
}
