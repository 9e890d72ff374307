use flow::filter::{
    handle_content, handle_end, handle_normal_occurrence, handle_start, transition, Constraint,
    Filter, Hits, Kind, Parser, ParserResult, Signal, State,
};

fn hits(start: Signal, content: bool, end: Signal) -> Hits {
    Hits { start, content, end }
}

fn state(active: Constraint, first_match: bool) -> State {
    State { active, first_match }
}

const BETWEEN: State = State { active: Constraint::Start, first_match: true };
const NOTHING: Hits = Hits { start: Signal::Miss, content: false, end: Signal::Miss };

#[test]
fn scan_starts_between_blocks() {
    assert_eq!(BETWEEN, State::new());
}

#[test]
fn kind_follows_from_the_constraints_present() {
    assert_eq!(Some(Kind::Empty), Kind::from_constraints(false, false, false));
    assert_eq!(Some(Kind::Content), Kind::from_constraints(false, true, false));
    assert_eq!(Some(Kind::Start), Kind::from_constraints(true, false, false));
    assert_eq!(Some(Kind::End), Kind::from_constraints(false, false, true));
    assert_eq!(Some(Kind::StartEnd), Kind::from_constraints(true, false, true));
    assert_eq!(Some(Kind::StartContentEnd), Kind::from_constraints(true, true, true));
    assert_eq!(None, Kind::from_constraints(true, true, false));
    assert_eq!(None, Kind::from_constraints(false, true, true));
}

#[test]
fn empty_kind_matches_whatever_the_answers() {
    let all = hits(Signal::Strong, true, Signal::Weak);
    assert_eq!((BETWEEN, ParserResult::Match), transition(Kind::Empty, BETWEEN, NOTHING));
    assert_eq!((BETWEEN, ParserResult::Match), transition(Kind::Empty, BETWEEN, all));
}

#[test]
fn content_kind_follows_the_content_pattern_alone() {
    let with = hits(Signal::Miss, true, Signal::Miss);
    let inside = state(Constraint::End, false);
    assert_eq!((BETWEEN, ParserResult::Match), transition(Kind::Content, BETWEEN, with));
    assert_eq!((BETWEEN, ParserResult::NoMatch), transition(Kind::Content, BETWEEN, NOTHING));
    assert_eq!((inside, ParserResult::Match), transition(Kind::Content, inside, with));
    assert_eq!(
        (BETWEEN, ParserResult::NoMatch),
        transition(Kind::Content, BETWEEN, hits(Signal::Strong, false, Signal::Strong))
    );
}

#[test]
fn end_kind_opens_on_a_deciding_marker_only() {
    let inside = state(Constraint::End, true);
    for (signal, expected) in [
        (Signal::Miss, (BETWEEN, ParserResult::NoMatch)),
        (Signal::Weak, (BETWEEN, ParserResult::NoMatch)),
        (Signal::Plain, (inside, ParserResult::Match)),
        (Signal::Strong, (inside, ParserResult::Match)),
    ] {
        let answers = hits(Signal::Miss, false, signal);
        assert_eq!(expected, transition(Kind::End, BETWEEN, answers));
    }
}

#[test]
fn end_kind_closes_on_the_next_marker() {
    let inside = state(Constraint::End, true);
    for (signal, expected) in [
        (Signal::Miss, (inside, ParserResult::Match)),
        (Signal::Strong, (inside, ParserResult::LastMatch(true))),
        (Signal::Weak, (BETWEEN, ParserResult::LastMatch(false))),
        (Signal::Plain, (BETWEEN, ParserResult::LastMatch(false))),
    ] {
        let answers = hits(Signal::Miss, false, signal);
        assert_eq!(expected, transition(Kind::End, inside, answers));
        assert_eq!(expected, handle_normal_occurrence(inside, signal));
    }
}

#[test]
fn start_marker_closes_a_block_or_voids_it() {
    let inside = state(Constraint::End, true);
    for (signal, expected) in [
        (Signal::Miss, (inside, ParserResult::Match)),
        (Signal::Weak, (BETWEEN, ParserResult::Invalid)),
        (Signal::Plain, (BETWEEN, ParserResult::LastMatch(true))),
        (Signal::Strong, (BETWEEN, ParserResult::LastMatch(true))),
    ] {
        let answers = hits(signal, false, Signal::Miss);
        assert_eq!(expected, transition(Kind::StartEnd, inside, answers));
        assert_eq!(expected, handle_start(inside, signal, true));
    }
}

#[test]
fn start_end_kind_waits_for_an_end_marker_between_blocks() {
    let inside = state(Constraint::End, true);
    assert_eq!(
        (BETWEEN, ParserResult::NoMatch),
        transition(Kind::StartEnd, BETWEEN, hits(Signal::Strong, false, Signal::Miss))
    );
    assert_eq!(
        (BETWEEN, ParserResult::NoMatch),
        transition(Kind::StartEnd, BETWEEN, hits(Signal::Miss, false, Signal::Weak))
    );
    assert_eq!(
        (inside, ParserResult::Match),
        transition(Kind::StartEnd, BETWEEN, hits(Signal::Miss, false, Signal::Plain))
    );
    assert_eq!((inside, ParserResult::Match), handle_end(BETWEEN, Signal::Strong, true));
}

#[test]
fn start_kind_is_always_inside_a_block() {
    assert_eq!(
        (BETWEEN, ParserResult::Match),
        transition(Kind::Start, BETWEEN, hits(Signal::Miss, true, Signal::Strong))
    );
    assert_eq!(
        (BETWEEN, ParserResult::LastMatch(true)),
        transition(Kind::Start, BETWEEN, hits(Signal::Strong, false, Signal::Miss))
    );
    assert_eq!(
        (BETWEEN, ParserResult::Invalid),
        transition(Kind::Start, BETWEEN, hits(Signal::Weak, false, Signal::Miss))
    );
}

#[test]
fn full_kind_walks_through_end_content_and_start() {
    let opened = state(Constraint::End, false);
    let filled = state(Constraint::Content, false);
    let kind = Kind::StartContentEnd;
    assert_eq!((BETWEEN, ParserResult::NoMatch), transition(kind, BETWEEN, NOTHING));
    assert_eq!(
        (BETWEEN, ParserResult::NoMatch),
        transition(kind, BETWEEN, hits(Signal::Strong, true, Signal::Weak))
    );
    assert_eq!(
        (opened, ParserResult::Match),
        transition(kind, BETWEEN, hits(Signal::Miss, false, Signal::Strong))
    );
    assert_eq!((opened, ParserResult::Match), transition(kind, opened, NOTHING));
    assert_eq!(
        (filled, ParserResult::Match),
        transition(kind, opened, hits(Signal::Miss, true, Signal::Miss))
    );
    assert_eq!((filled, ParserResult::Match), transition(kind, filled, NOTHING));
    assert_eq!(
        (filled, ParserResult::Match),
        transition(kind, filled, hits(Signal::Miss, true, Signal::Strong))
    );
    assert_eq!(
        (BETWEEN, ParserResult::LastMatch(true)),
        transition(kind, filled, hits(Signal::Plain, false, Signal::Miss))
    );
    assert_eq!(
        (BETWEEN, ParserResult::Invalid),
        transition(kind, filled, hits(Signal::Weak, false, Signal::Miss))
    );
}

#[test]
fn boundary_in_a_block_without_content_voids_it() {
    let opened = state(Constraint::End, false);
    for answers in [
        hits(Signal::Weak, false, Signal::Miss),
        hits(Signal::Strong, true, Signal::Miss),
        hits(Signal::Miss, true, Signal::Plain),
        hits(Signal::Miss, false, Signal::Weak),
    ] {
        let expected = (BETWEEN, ParserResult::Invalid);
        assert_eq!(expected, transition(Kind::StartContentEnd, opened, answers));
        assert_eq!(expected, handle_content(opened, answers));
    }
}

#[test]
fn parser_reports_what_it_was_made_of() {
    let filter = Filter::from_patterns("GET", None, Some("Started"), Some("Completed")).unwrap();
    let parser = Parser::new(filter);
    assert_eq!("GET", parser.filter().name());
    assert_eq!(Kind::StartEnd, parser.kind());
    assert_eq!(Constraint::Start, parser.active_constraint());
    assert!(parser.is_first_match());
    assert!(!parser.assume_found_matches());
}

#[test]
fn parser_assumes_matches_where_no_terminator_is_needed() {
    let found = |contains, starts_with, ends_with| {
        Parser::new(Filter::from_patterns("f", contains, starts_with, ends_with).unwrap())
            .assume_found_matches()
    };
    assert!(found(None, None, None));
    assert!(found(Some("a"), None, None));
    assert!(found(None, None, Some("a")));
    assert!(!found(None, Some("a"), None));
    assert!(!found(None, Some("a"), Some("b")));
    assert!(!found(Some("c"), Some("a"), Some("b")));
}

#[test]
fn parser_tells_strong_from_weak_start_markers() {
    let filter = Filter::from_patterns(
        "GET requests",
        None,
        Some("Started (?P<matching>GET)?"),
        Some("Completed"),
    )
    .unwrap();
    let mut parser = Parser::new(filter);
    assert_eq!(ParserResult::NoMatch, parser.matches("trailing"));
    assert_eq!(ParserResult::Match, parser.matches("Completed 200"));
    assert_eq!(Constraint::End, parser.active_constraint());
    assert_eq!(ParserResult::Match, parser.matches("body"));
    assert_eq!(ParserResult::LastMatch(true), parser.matches("Started GET"));
    assert_eq!(Constraint::Start, parser.active_constraint());

    assert_eq!(ParserResult::Match, parser.matches("Completed 200"));
    assert_eq!(ParserResult::Match, parser.matches("body"));
    assert_eq!(ParserResult::Invalid, parser.matches("Started POST"));
    assert_eq!(Constraint::Start, parser.active_constraint());
    assert_eq!(ParserResult::NoMatch, parser.matches("Started POST"));
}

#[test]
fn parser_tracks_the_first_end_marker_of_a_block() {
    let filter =
        Filter::from_patterns("f", Some("needle"), Some("START"), Some("END")).unwrap();
    let mut parser = Parser::new(filter);
    assert!(parser.is_first_match());
    assert_eq!(ParserResult::Match, parser.matches("END"));
    assert!(!parser.is_first_match());
    assert_eq!(Constraint::End, parser.active_constraint());
    assert_eq!(ParserResult::Match, parser.matches("a needle"));
    assert_eq!(Constraint::Content, parser.active_constraint());
    assert_eq!(ParserResult::LastMatch(true), parser.matches("START"));
    assert!(parser.is_first_match());
    assert_eq!(ParserResult::Match, parser.matches("END"));
    assert_eq!(ParserResult::Invalid, parser.matches("END"));
    assert!(parser.is_first_match());
    assert_eq!(Constraint::Start, parser.active_constraint());
}

#[test]
fn parser_starts_over_after_reset() {
    let filter = Filter::from_patterns("f", None, None, Some("END")).unwrap();
    let mut parser = Parser::new(filter);
    assert_eq!(ParserResult::Match, parser.matches("END"));
    assert_eq!(ParserResult::Match, parser.matches("body"));
    parser.reset();
    assert_eq!(Constraint::Start, parser.active_constraint());
    assert_eq!(ParserResult::NoMatch, parser.matches("body"));
}

#[test]
fn filter_answers_for_each_of_its_patterns() {
    let filter = Filter::from_patterns(
        "f",
        Some("(?i)needle"),
        Some("Started (?P<matching>GET)?"),
        Some("Completed"),
    )
    .unwrap();
    assert_eq!(hits(Signal::Strong, false, Signal::Miss), filter.hits("Started GET"));
    assert_eq!(hits(Signal::Weak, true, Signal::Miss), filter.hits("Started PUT NEEDLE"));
    assert_eq!(hits(Signal::Miss, false, Signal::Plain), filter.hits("Completed 404"));
    assert_eq!(NOTHING, filter.hits("sit amen"));
    assert!(filter.is_partial_match(Constraint::Start, "Started POST"));
    assert!(!filter.is_partial_match(Constraint::Start, "Completed"));
    assert!(filter.is_partial_match(Constraint::Content, "a Needle"));
    assert!(filter.is_partial_match(Constraint::End, "Completed"));
    assert!(!filter.is_partial_match(Constraint::End, "Started GET"));
}

#[test]
fn absent_patterns_answer_nothing() {
    let filter = Filter::from_patterns("All", None, None, None).unwrap();
    assert_eq!(NOTHING, filter.hits("Started GET needle Completed"));
    assert!(!filter.is_partial_match(Constraint::Start, "anything"));
    assert!(!filter.is_partial_match(Constraint::Content, "anything"));
    assert!(!filter.is_partial_match(Constraint::End, "anything"));
}

#[test]
fn filter_lists_its_constraints_in_the_order_of_the_scan() {
    let constraints = |contains, starts_with, ends_with| {
        Filter::from_patterns("f", contains, starts_with, ends_with)
            .unwrap()
            .determine_constraints()
    };
    assert!(constraints(None, None, None).is_empty());
    assert_eq!(vec![Constraint::Content], constraints(Some("a"), None, None));
    assert_eq!(vec![Constraint::End], constraints(None, None, Some("a")));
    assert_eq!(vec![Constraint::Start], constraints(None, Some("a"), None));
    assert_eq!(
        vec![Constraint::End, Constraint::Start],
        constraints(None, Some("a"), Some("b"))
    );
    assert_eq!(
        vec![Constraint::End, Constraint::Content, Constraint::Start],
        constraints(Some("c"), Some("a"), Some("b"))
    );
}

#[test]
fn each_older_end_marker_closes_the_run_behind_it() {
    let filter = Filter::from_patterns("f", None, None, Some("(?P<matching>END)")).unwrap();
    let mut parser = Parser::new(filter);
    assert_eq!(ParserResult::NoMatch, parser.matches("body 4"));
    assert_eq!(ParserResult::Match, parser.matches("END 3"));
    assert_eq!(ParserResult::Match, parser.matches("body 3"));
    assert_eq!(ParserResult::LastMatch(true), parser.matches("END 2"));
    assert_eq!(ParserResult::Match, parser.matches("body 2"));
    assert_eq!(ParserResult::Match, parser.matches("body 1"));
    assert_eq!(ParserResult::LastMatch(true), parser.matches("END 1"));
    assert_eq!(ParserResult::Match, parser.matches("body 0"));
    assert!(parser.assume_found_matches());
}

#[test]
fn copy_of_a_filter_answers_as_the_filter_does() {
    let filter = Filter::from_patterns(
        "GET requests",
        Some("(?i)needle"),
        Some("Started (?P<matching>GET)?"),
        Some("Completed"),
    )
    .unwrap();
    let copy = filter.clone();
    assert_eq!("GET requests", copy.name());
    assert_eq!(Kind::StartContentEnd, copy.kind());
    assert_eq!("(?i)needle", copy.content().unwrap().as_str());
    assert_eq!("Started (?P<matching>GET)?", copy.start().unwrap().regex.as_str());
    assert!(copy.start().unwrap().has_named_match);
    assert_eq!("Completed", copy.end().unwrap().regex.as_str());
    assert!(!copy.end().unwrap().has_named_match);
    for text in ["Started GET", "Started POST needle", "Completed 200", "sit amen"] {
        assert_eq!(filter.hits(text), copy.hits(text));
    }
    let empty = Filter::from_patterns("All", None, None, None).unwrap().clone();
    assert_eq!(Kind::Empty, empty.kind());
    assert!(empty.content().is_none() && empty.start().is_none() && empty.end().is_none());
}
