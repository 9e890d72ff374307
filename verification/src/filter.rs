//! Filters and the state machine that decides, line by line, which lines of
//! a backward scan belong to a filter's blocks.

use crate::pattern::{
    regex_compiles, regex_declares_group, regex_group_participates, regex_matches, Pattern,
    PatternError,
};
use vstd::prelude::*;

verus! {

/// The three parts a filter can constrain. As a parser state it names the
/// phase that was entered last: `Start` between blocks, `End` once an end
/// marker has opened a block, `Content` once the block has shown content.
#[derive(Clone, Copy, PartialEq, Eq, Debug, Structural)]
pub enum Constraint {
    Start,
    Content,
    End,
}

/// What a filter is made of.
#[derive(Clone, Copy, PartialEq, Eq, Debug, Structural)]
pub enum Kind {
    /// No constraint: every line matches.
    Empty,
    /// A content pattern only.
    Content,
    /// A start boundary only.
    Start,
    /// An end boundary only.
    End,
    /// Start and end boundaries.
    StartEnd,
    /// Start and end boundaries with a content pattern.
    StartContentEnd,
}

/// How a boundary pattern answers for one line.
#[derive(Clone, Copy, PartialEq, Eq, Debug, Structural)]
pub enum Signal {
    /// The pattern does not match.
    Miss,
    /// The pattern matches, it declares the `matching` group, and the group
    /// took no part in the match.
    Weak,
    /// The pattern matches and declares no `matching` group.
    Plain,
    /// The pattern matches and its `matching` group took part.
    Strong,
}

/// The answers of a filter's three patterns for one line. An absent boundary
/// answers `Miss`, an absent content pattern `false`.
#[derive(Clone, Copy, PartialEq, Eq, Debug, Structural)]
pub struct Hits {
    pub start: Signal,
    pub content: bool,
    pub end: Signal,
}

/// The verdict of the parser on one line.
#[derive(Clone, Copy, PartialEq, Eq, Debug, Structural)]
pub enum ParserResult {
    /// The line belongs to the block under construction.
    Match,
    /// The line belongs to no block.
    NoMatch,
    /// The block under construction is complete; the flag tells whether this
    /// line is its last member.
    LastMatch(bool),
    /// The block under construction turned out not to be one and is to be
    /// dropped.
    Invalid,
}

/// The part of a parser that changes from line to line.
#[derive(Clone, Copy, PartialEq, Eq, Debug, Structural)]
pub struct State {
    pub active: Constraint,
    pub first_match: bool,
}

/// Why a filter was refused.
#[derive(Debug)]
pub enum FilterError {
    /// The pattern of the named constraint does not compile.
    MalformedPattern(Constraint, PatternError),
    /// Content is constrained together with exactly one boundary.
    InvalidConstraints,
}

/// Whether the pattern text of a constraint compiles, where the constraint
/// is present; an absent constraint has nothing that could fail.
pub open spec fn compiles_if_present(source: Option<&str>) -> bool {
    match source {
        Some(text) => regex_compiles(text@),
        None => true,
    }
}

/// The name of the capture group that makes a boundary match a strong one.
pub open spec fn matching_group() -> Seq<char> {
    "matching"@
}

impl Signal {
    /// A boundary hit that may open or close a block.
    pub open spec fn decides(self) -> bool {
        self == Signal::Plain || self == Signal::Strong
    }

    /// Any hit at all.
    pub open spec fn hits(self) -> bool {
        self != Signal::Miss
    }
}

impl Kind {
    /// The kind of a filter from the constraints it carries, or `None` where
    /// the combination is not allowed.
    pub open spec fn of(start: bool, content: bool, end: bool) -> Option<Kind> {
        if content {
            if start && end {
                Some(Kind::StartContentEnd)
            } else if !start && !end {
                Some(Kind::Content)
            } else {
                None
            }
        } else if start {
            if end {
                Some(Kind::StartEnd)
            } else {
                Some(Kind::Start)
            }
        } else if end {
            Some(Kind::End)
        } else {
            Some(Kind::Empty)
        }
    }

    /// Whether the lines gathered since the last terminator are shown when
    /// the scan reaches the oldest line without meeting another terminator.
    pub open spec fn keeps_open_block(self) -> bool {
        self == Kind::Empty || self == Kind::Content || self == Kind::End
    }

    /// Whether the lines gathered since the last terminator count as found
    /// when the scan ends without another terminator.
    pub fn assume_found_matches(self) -> (found: bool)
        ensures
            found == self.keeps_open_block(),
    {
        match self {
            Kind::Empty | Kind::Content | Kind::End => true,
            _ => false,
        }
    }

    /// Derives the kind from the constraints that are present.
    pub fn from_constraints(start: bool, content: bool, end: bool) -> (kind: Option<Kind>)
        ensures
            kind == Kind::of(start, content, end),
    {
        match (start, content, end) {
            (false, false, false) => Some(Kind::Empty),
            (false, true, false) => Some(Kind::Content),
            (true, false, false) => Some(Kind::Start),
            (false, false, true) => Some(Kind::End),
            (true, false, true) => Some(Kind::StartEnd),
            (true, true, true) => Some(Kind::StartContentEnd),
            (true, true, false) => None,
            (false, true, true) => None,
        }
    }
}

impl State {
    /// The state every scan starts from: between blocks, nothing seen.
    pub open spec fn initial() -> State {
        State { active: Constraint::Start, first_match: true }
    }

    /// The state from which every scan starts.
    pub fn new() -> (state: State)
        ensures
            state == State::initial(),
    {
        State { active: Constraint::Start, first_match: true }
    }
}

/// Between blocks: an end marker that decides opens a block.
pub open spec fn seek_end(state: State, end: Signal, first_match: bool) -> (State, ParserResult) {
    if end.decides() {
        (State { active: Constraint::End, first_match }, ParserResult::Match)
    } else {
        (state, ParserResult::NoMatch)
    }
}

/// Inside a block that a start marker closes: a deciding marker is the last
/// line of the block, a weak one shows that the lines gathered are no block.
pub open spec fn seek_start(state: State, start: Signal, first_match: bool) -> (State, ParserResult) {
    match start {
        Signal::Miss => (state, ParserResult::Match),
        Signal::Weak => (State { active: Constraint::Start, first_match }, ParserResult::Invalid),
        _ => (State { active: Constraint::Start, first_match }, ParserResult::LastMatch(true)),
    }
}

/// In a run that an end marker has opened and that only end markers close:
/// a strong marker ends the run and stays with it, while the run goes on
/// behind it; any other marker ends the run and is dropped.
pub open spec fn seek_next_end(state: State, end: Signal) -> (State, ParserResult) {
    match end {
        Signal::Miss => (state, ParserResult::Match),
        Signal::Strong => (state, ParserResult::LastMatch(true)),
        _ => (
            State { active: Constraint::Start, first_match: state.first_match },
            ParserResult::LastMatch(false),
        ),
    }
}

/// In a block that an end marker has opened and that has shown no content
/// yet: a boundary of either kind shows that the lines gathered are no
/// block; a line with content takes the block into its content phase.
pub open spec fn seek_content(state: State, hits: Hits) -> (State, ParserResult) {
    if hits.start.hits() || hits.end.hits() {
        (State { active: Constraint::Start, first_match: true }, ParserResult::Invalid)
    } else if hits.content {
        (State { active: Constraint::Content, first_match: state.first_match }, ParserResult::Match)
    } else {
        (state, ParserResult::Match)
    }
}

/// The transition table: the state and the verdict that follow from a state
/// and the answers of the patterns for the next older line.
pub open spec fn step(kind: Kind, state: State, hits: Hits) -> (State, ParserResult) {
    match kind {
        Kind::Empty => (state, ParserResult::Match),
        Kind::Content => (
            state,
            if hits.content {
                ParserResult::Match
            } else {
                ParserResult::NoMatch
            },
        ),
        Kind::Start => seek_start(state, hits.start, state.first_match),
        Kind::End => if state.active == Constraint::End {
            seek_next_end(state, hits.end)
        } else {
            seek_end(state, hits.end, state.first_match)
        },
        Kind::StartEnd => if state.active == Constraint::End {
            seek_start(state, hits.start, state.first_match)
        } else {
            seek_end(state, hits.end, state.first_match)
        },
        Kind::StartContentEnd => match state.active {
            Constraint::Start => seek_end(state, hits.end, false),
            Constraint::End => seek_content(state, hits),
            Constraint::Content => seek_start(state, hits.start, true),
        },
    }
}

impl State {
    /// The states that a scan of the given kind can be in. A filter without
    /// boundaries never leaves the initial state; a filter without content
    /// never enters the content phase; and where all three constraints are
    /// present, `first_match` is set exactly between blocks.
    pub open spec fn fits(self, kind: Kind) -> bool {
        match kind {
            Kind::Empty | Kind::Content | Kind::Start => self == State::initial(),
            Kind::End | Kind::StartEnd => self.active != Constraint::Content && self.first_match,
            Kind::StartContentEnd => self.first_match == (self.active == Constraint::Start),
        }
    }
}

/// The initial state fits every kind, and a step from a state that fits the
/// kind leads to one that fits it, whatever the patterns answer. A verdict
/// that closes or drops a block is never given between blocks, and after an
/// invalid verdict the parser is between blocks.
pub proof fn lemma_step_keeps_state_fit(kind: Kind, state: State, hits: Hits)
    requires
        state.fits(kind),
    ensures
        State::initial().fits(kind),
        step(kind, state, hits).0.fits(kind),
        step(kind, state, hits).1 is Invalid ==> step(kind, state, hits).0.active
            == Constraint::Start,
        state.active == Constraint::Start && kind != Kind::Start ==> (step(kind, state, hits).1
            is Match || step(kind, state, hits).1 is NoMatch),
{
}

/// A boundary: a pattern, and whether it declares the `matching` group.
pub struct BoundaryFilter {
    pub regex: Pattern,
    pub has_named_match: bool,
}

impl BoundaryFilter {
    /// The answer of this boundary for a line's text.
    pub open spec fn signal_of(&self, text: Seq<char>) -> Signal {
        if !regex_matches(self.regex@, text) {
            Signal::Miss
        } else if !self.has_named_match {
            Signal::Plain
        } else if regex_group_participates(self.regex@, text, matching_group()) {
            Signal::Strong
        } else {
            Signal::Weak
        }
    }

    /// Makes a boundary of a pattern and notes whether the pattern declares
    /// the `matching` group.
    pub fn new(regex: Pattern) -> (boundary: BoundaryFilter)
        ensures
            boundary.regex == regex,
            boundary.has_named_match == regex_declares_group(regex@, matching_group()),
    {
        let has_named_match = regex.has_group("matching");
        BoundaryFilter { regex, has_named_match }
    }

    /// Whether the boundary is met: by the `matching` group where the
    /// pattern declares it, by any match where it does not.
    pub fn is_match(&self, text: &str) -> (b: bool)
        ensures
            b == self.signal_of(text@).decides(),
    {
        if self.has_named_match {
            self.is_named_match(text)
        } else {
            self.regex.is_match(text)
        }
    }

    /// Whether the pattern matches with its `matching` group taking part.
    pub fn is_named_match(&self, text: &str) -> (b: bool)
        ensures
            b == (regex_matches(self.regex@, text@) && regex_group_participates(
                self.regex@,
                text@,
                matching_group(),
            )),
    {
        self.regex.is_match(text) && self.regex.is_group_match(text, "matching")
    }

    /// The answer of this boundary for `text`.
    pub fn signal(&self, text: &str) -> (signal: Signal)
        ensures
            signal == self.signal_of(text@),
    {
        if !self.regex.is_match(text) {
            Signal::Miss
        } else if !self.has_named_match {
            Signal::Plain
        } else if self.regex.is_group_match(text, "matching") {
            Signal::Strong
        } else {
            Signal::Weak
        }
    }
}

impl Clone for BoundaryFilter {
    fn clone(&self) -> (copy: BoundaryFilter)
        ensures
            copy.regex@ == self.regex@,
            copy.has_named_match == self.has_named_match,
    {
        BoundaryFilter { regex: self.regex.clone(), has_named_match: self.has_named_match }
    }
}

/// A boundary whose pattern declares the `matching` group tells strong hits
/// from weak ones by that group alone: a match in which the group took part
/// is strong, a match in which it took none is weak. A strong start marker
/// closes the block that it is found in and is its last line; a weak one
/// closes nothing: the lines gathered are dropped and the search for the
/// next block begins. Between blocks a strong end marker opens a block and a
/// weak one is passed over.
pub proof fn lemma_named_group_tells_strong_from_weak(
    boundary: BoundaryFilter,
    text: Seq<char>,
    state: State,
)
    requires
        boundary.has_named_match,
    ensures
        boundary.signal_of(text) != Signal::Plain,
        boundary.signal_of(text) == Signal::Strong <==> regex_matches(boundary.regex@, text)
            && regex_group_participates(boundary.regex@, text, matching_group()),
        boundary.signal_of(text) == Signal::Weak <==> regex_matches(boundary.regex@, text)
            && !regex_group_participates(boundary.regex@, text, matching_group()),
        seek_start(state, Signal::Strong, state.first_match).1 == ParserResult::LastMatch(true),
        seek_start(state, Signal::Weak, state.first_match) == (
            State { active: Constraint::Start, first_match: state.first_match },
            ParserResult::Invalid,
        ),
        seek_end(state, Signal::Strong, state.first_match).1 == ParserResult::Match,
        seek_end(state, Signal::Weak, state.first_match) == (state, ParserResult::NoMatch),
{
}

/// Between blocks: looks for the end marker that opens the next block.
pub fn handle_end(state: State, end: Signal, first_match: bool) -> (r: (State, ParserResult))
    ensures
        r == seek_end(state, end, first_match),
{
    match end {
        Signal::Plain | Signal::Strong => (
            State { active: Constraint::End, first_match },
            ParserResult::Match,
        ),
        _ => (state, ParserResult::NoMatch),
    }
}

/// Inside a block: looks for the start marker that closes it.
pub fn handle_start(state: State, start: Signal, first_match: bool) -> (r: (State, ParserResult))
    ensures
        r == seek_start(state, start, first_match),
{
    match start {
        Signal::Miss => (state, ParserResult::Match),
        Signal::Weak => (State { active: Constraint::Start, first_match }, ParserResult::Invalid),
        _ => (State { active: Constraint::Start, first_match }, ParserResult::LastMatch(true)),
    }
}

/// In a block that an end marker has opened and that has shown no content
/// yet: another boundary here means that the lines gathered are no block.
pub fn handle_content(state: State, hits: Hits) -> (r: (State, ParserResult))
    ensures
        r == seek_content(state, hits),
{
    let overlap = match (hits.start, hits.end) {
        (Signal::Miss, Signal::Miss) => false,
        _ => true,
    };
    if overlap {
        (State { active: Constraint::Start, first_match: true }, ParserResult::Invalid)
    } else if hits.content {
        (
            State { active: Constraint::Content, first_match: state.first_match },
            ParserResult::Match,
        )
    } else {
        (state, ParserResult::Match)
    }
}

/// In a run that an end marker has opened and that only end markers close:
/// a strong marker ends the run and stays with it, any other ends it and is
/// dropped.
pub fn handle_normal_occurrence(state: State, end: Signal) -> (r: (State, ParserResult))
    ensures
        r == seek_next_end(state, end),
{
    match end {
        Signal::Miss => (state, ParserResult::Match),
        Signal::Strong => (state, ParserResult::LastMatch(true)),
        _ => (
            State { active: Constraint::Start, first_match: state.first_match },
            ParserResult::LastMatch(false),
        ),
    }
}

/// The state and the verdict that follow from `state` when the next older
/// line answers `hits`.
pub fn transition(kind: Kind, state: State, hits: Hits) -> (r: (State, ParserResult))
    ensures
        r == step(kind, state, hits),
{
    match kind {
        Kind::Empty => (state, ParserResult::Match),
        Kind::Content => {
            if hits.content {
                (state, ParserResult::Match)
            } else {
                (state, ParserResult::NoMatch)
            }
        },
        Kind::Start => handle_start(state, hits.start, state.first_match),
        Kind::End => match state.active {
            Constraint::End => handle_normal_occurrence(state, hits.end),
            _ => handle_end(state, hits.end, state.first_match),
        },
        Kind::StartEnd => match state.active {
            Constraint::End => handle_start(state, hits.start, state.first_match),
            _ => handle_end(state, hits.end, state.first_match),
        },
        Kind::StartContentEnd => match state.active {
            Constraint::Start => handle_end(state, hits.end, false),
            Constraint::End => handle_content(state, hits),
            Constraint::Content => handle_start(state, hits.start, true),
        },
    }
}

/// A named rule: an optional content pattern between optional boundaries.
pub struct Filter {
    name: String,
    content: Option<Pattern>,
    start: Option<BoundaryFilter>,
    end: Option<BoundaryFilter>,
    kind: Kind,
}

impl Filter {
    #[verifier::type_invariant]
    spec fn well_formed(self) -> bool {
        Kind::of(self.start.is_some(), self.content.is_some(), self.end.is_some()) == Some(
            self.kind,
        )
    }

    /// The display name.
    pub closed spec fn name_view(&self) -> Seq<char> {
        self.name@
    }

    /// The content pattern, if there is one.
    pub closed spec fn content_view(&self) -> Option<Pattern> {
        self.content
    }

    /// The start boundary, if there is one.
    pub closed spec fn start_view(&self) -> Option<BoundaryFilter> {
        self.start
    }

    /// The end boundary, if there is one.
    pub closed spec fn end_view(&self) -> Option<BoundaryFilter> {
        self.end
    }

    /// The kind derived from the constraints that are present.
    pub closed spec fn kind_view(&self) -> Kind {
        self.kind
    }

    /// The text of the content pattern, if there is one.
    pub open spec fn content_text(&self) -> Option<Seq<char>> {
        match self.content_view() {
            Some(content) => Some(content@),
            None => None,
        }
    }

    /// The text of the start boundary's pattern and whether it declares the
    /// `matching` group, if there is a start boundary.
    pub open spec fn start_text(&self) -> Option<(Seq<char>, bool)> {
        match self.start_view() {
            Some(start) => Some((start.regex@, start.has_named_match)),
            None => None,
        }
    }

    /// The text of the end boundary's pattern and whether it declares the
    /// `matching` group, if there is an end boundary.
    pub open spec fn end_text(&self) -> Option<(Seq<char>, bool)> {
        match self.end_view() {
            Some(end) => Some((end.regex@, end.has_named_match)),
            None => None,
        }
    }

    /// The answers of the filter's patterns for a line's text.
    pub open spec fn hits_of(&self, text: Seq<char>) -> Hits {
        Hits {
            start: match self.start_view() {
                Some(start) => start.signal_of(text),
                None => Signal::Miss,
            },
            content: match self.content_view() {
                Some(content) => regex_matches(content@, text),
                None => false,
            },
            end: match self.end_view() {
                Some(end) => end.signal_of(text),
                None => Signal::Miss,
            },
        }
    }

    /// Builds a filter from its parts. Content together with exactly one
    /// boundary is refused; every other combination is accepted.
    pub fn new(
        name: String,
        content: Option<Pattern>,
        start: Option<BoundaryFilter>,
        end: Option<BoundaryFilter>,
    ) -> (r: Result<Filter, FilterError>)
        ensures
            match r {
                Ok(filter) => {
                    &&& filter.name_view() == name@
                    &&& filter.content_view() == content
                    &&& filter.start_view() == start
                    &&& filter.end_view() == end
                    &&& Kind::of(start.is_some(), content.is_some(), end.is_some()) == Some(
                        filter.kind_view(),
                    )
                },
                Err(error) => {
                    &&& error is InvalidConstraints
                    &&& Kind::of(start.is_some(), content.is_some(), end.is_some()) is None
                },
            },
    {
        match Kind::from_constraints(start.is_some(), content.is_some(), end.is_some()) {
            Some(kind) => Ok(Filter { name, content, start, end, kind }),
            None => Err(FilterError::InvalidConstraints),
        }
    }

    /// Compiles the pattern of a constraint, where there is one.
    fn compile(constraint: Constraint, source: Option<&str>) -> (r: Result<
        Option<Pattern>,
        FilterError,
    >)
        ensures
            r is Ok <==> compiles_if_present(source),
            match r {
                Ok(pattern) => pattern.is_some() == source.is_some() && (pattern matches Some(
                    compiled,
                ) ==> compiled@ == source.unwrap()@),
                Err(error) => source.is_some() && (error matches FilterError::MalformedPattern(
                    refused,
                    _,
                ) && refused == constraint),
            },
    {
        match source {
            Some(text) => match Pattern::new(text) {
                Ok(pattern) => Ok(Some(pattern)),
                Err(error) => Err(FilterError::MalformedPattern(constraint, error)),
            },
            None => Ok(None),
        }
    }

    /// Makes a boundary of a compiled pattern, where there is one.
    fn boundary(pattern: Option<Pattern>) -> (r: Option<BoundaryFilter>)
        ensures
            r.is_some() == pattern.is_some(),
            r matches Some(boundary) ==> (boundary.regex == pattern.unwrap()
                && boundary.has_named_match == regex_declares_group(
                pattern.unwrap()@,
                matching_group(),
            )),
    {
        match pattern {
            Some(pattern) => Some(BoundaryFilter::new(pattern)),
            None => None,
        }
    }

    /// Builds a filter from a name and up to three pattern texts, as a
    /// configuration gives them.
    ///
    /// A combination of constraints that is not allowed is refused before
    /// any pattern is looked at. Otherwise the patterns are compiled, that
    /// of the content first, then that of the start, then that of the end,
    /// and the filter is refused for the first of them that does not
    /// compile; there is a filter exactly where the combination is allowed
    /// and every pattern compiles.
    pub fn from_patterns(
        name: &str,
        contains: Option<&str>,
        starts_with: Option<&str>,
        ends_with: Option<&str>,
    ) -> (r: Result<Filter, FilterError>)
        ensures
            r is Ok <==> {
                &&& Kind::of(starts_with.is_some(), contains.is_some(), ends_with.is_some())
                    is Some
                &&& compiles_if_present(contains)
                &&& compiles_if_present(starts_with)
                &&& compiles_if_present(ends_with)
            },
            match r {
                Ok(filter) => {
                    &&& filter.name_view() == name@
                    &&& Kind::of(starts_with.is_some(), contains.is_some(), ends_with.is_some())
                        == Some(filter.kind_view())
                    &&& filter.content_view().is_some() == contains.is_some()
                    &&& filter.start_view().is_some() == starts_with.is_some()
                    &&& filter.end_view().is_some() == ends_with.is_some()
                    &&& filter.content_view() matches Some(content) ==> content@
                        == contains.unwrap()@
                    &&& filter.start_view() matches Some(start) ==> (start.regex@
                        == starts_with.unwrap()@ && start.has_named_match == regex_declares_group(
                        starts_with.unwrap()@,
                        matching_group(),
                    ))
                    &&& filter.end_view() matches Some(end) ==> (end.regex@ == ends_with.unwrap()@
                        && end.has_named_match == regex_declares_group(
                        ends_with.unwrap()@,
                        matching_group(),
                    ))
                },
                Err(FilterError::InvalidConstraints) => Kind::of(
                    starts_with.is_some(),
                    contains.is_some(),
                    ends_with.is_some(),
                ) is None,
                Err(FilterError::MalformedPattern(constraint, _)) => {
                    &&& Kind::of(starts_with.is_some(), contains.is_some(), ends_with.is_some())
                        is Some
                    &&& match constraint {
                        Constraint::Content => !compiles_if_present(contains),
                        Constraint::Start => compiles_if_present(contains) && !compiles_if_present(
                            starts_with,
                        ),
                        Constraint::End => compiles_if_present(contains) && compiles_if_present(
                            starts_with,
                        ) && !compiles_if_present(ends_with),
                    }
                },
            },
    {
        if Kind::from_constraints(starts_with.is_some(), contains.is_some(), ends_with.is_some())
            .is_none() {
            return Err(FilterError::InvalidConstraints);
        }
        let content = match Filter::compile(Constraint::Content, contains) {
            Ok(pattern) => pattern,
            Err(error) => { return Err(error); },
        };
        let start = match Filter::compile(Constraint::Start, starts_with) {
            Ok(pattern) => Filter::boundary(pattern),
            Err(error) => { return Err(error); },
        };
        let end = match Filter::compile(Constraint::End, ends_with) {
            Ok(pattern) => Filter::boundary(pattern),
            Err(error) => { return Err(error); },
        };
        Filter::new(name.to_owned(), content, start, end)
    }

    /// The display name.
    pub fn name(&self) -> (name: &str)
        ensures
            name@ == self.name_view(),
    {
        self.name.as_str()
    }

    /// The content pattern, if there is one.
    pub fn content(&self) -> (content: Option<&Pattern>)
        ensures
            content.is_some() == self.content_view().is_some(),
            content matches Some(found) ==> *found == self.content_view().unwrap(),
    {
        self.content.as_ref()
    }

    /// The start boundary, if there is one.
    pub fn start(&self) -> (start: Option<&BoundaryFilter>)
        ensures
            start.is_some() == self.start_view().is_some(),
            start matches Some(found) ==> *found == self.start_view().unwrap(),
    {
        self.start.as_ref()
    }

    /// The end boundary, if there is one.
    pub fn end(&self) -> (end: Option<&BoundaryFilter>)
        ensures
            end.is_some() == self.end_view().is_some(),
            end matches Some(found) ==> *found == self.end_view().unwrap(),
    {
        self.end.as_ref()
    }

    /// The kind, which is the one that the present constraints determine.
    pub fn kind(&self) -> (kind: Kind)
        ensures
            kind == self.kind_view(),
            Kind::of(
                self.start_view().is_some(),
                self.content_view().is_some(),
                self.end_view().is_some(),
            ) == Some(kind),
    {
        proof {
            use_type_invariant(self);
        }
        self.kind
    }

    /// The constraints that are present: the end boundary first, then the
    /// content, then the start boundary, which is the order in which a scan
    /// from the newest line meets them.
    pub fn determine_constraints(&self) -> (constraints: Vec<Constraint>)
        ensures
            constraints@ == (if self.end_view().is_some() {
                seq![Constraint::End]
            } else {
                Seq::empty()
            }) + (if self.content_view().is_some() {
                seq![Constraint::Content]
            } else {
                Seq::empty()
            }) + (if self.start_view().is_some() {
                seq![Constraint::Start]
            } else {
                Seq::empty()
            }),
    {
        let mut constraints: Vec<Constraint> = Vec::new();
        if self.end.is_some() {
            constraints.push(Constraint::End);
        }
        let ghost ends = constraints@;
        if self.content.is_some() {
            constraints.push(Constraint::Content);
        }
        let ghost middle = constraints@;
        if self.start.is_some() {
            constraints.push(Constraint::Start);
        }
        proof {
            let first = if self.end_view().is_some() {
                seq![Constraint::End]
            } else {
                Seq::empty()
            };
            let second = if self.content_view().is_some() {
                seq![Constraint::Content]
            } else {
                Seq::empty()
            };
            let third = if self.start_view().is_some() {
                seq![Constraint::Start]
            } else {
                Seq::empty()
            };
            assert(ends =~= first);
            assert(middle =~= first + second);
            assert(constraints@ =~= first + second + third);
        }
        constraints
    }

    /// Whether the pattern of the given constraint is present and matches
    /// `text`, whatever its capture groups do.
    pub fn is_partial_match(&self, constraint: Constraint, text: &str) -> (b: bool)
        ensures
            b == match constraint {
                Constraint::Start => self.hits_of(text@).start.hits(),
                Constraint::Content => self.hits_of(text@).content,
                Constraint::End => self.hits_of(text@).end.hits(),
            },
    {
        match constraint {
            Constraint::Start => match &self.start {
                Some(start) => start.regex.is_match(text),
                None => false,
            },
            Constraint::Content => match &self.content {
                Some(content) => content.is_match(text),
                None => false,
            },
            Constraint::End => match &self.end {
                Some(end) => end.regex.is_match(text),
                None => false,
            },
        }
    }

    /// The answers of the filter's patterns for `text`.
    pub fn hits(&self, text: &str) -> (hits: Hits)
        ensures
            hits == self.hits_of(text@),
    {
        let start = match &self.start {
            Some(start) => start.signal(text),
            None => Signal::Miss,
        };
        let content = match &self.content {
            Some(content) => content.is_match(text),
            None => false,
        };
        let end = match &self.end {
            Some(end) => end.signal(text),
            None => Signal::Miss,
        };
        Hits { start, content, end }
    }
}

impl Clone for Filter {
    /// A filter of the same name and kind whose patterns are compiled from
    /// the same texts, so that it answers for every line as this one does.
    fn clone(&self) -> (copy: Filter)
        ensures
            copy.name_view() == self.name_view(),
            copy.kind_view() == self.kind_view(),
            copy.content_text() == self.content_text(),
            copy.start_text() == self.start_text(),
            copy.end_text() == self.end_text(),
            forall|text: Seq<char>| #[trigger] copy.hits_of(text) == self.hits_of(text),
    {
        proof {
            use_type_invariant(self);
        }
        let content = match &self.content {
            Some(content) => Some(content.clone()),
            None => None,
        };
        let start = match &self.start {
            Some(start) => Some(start.clone()),
            None => None,
        };
        let end = match &self.end {
            Some(end) => Some(end.clone()),
            None => None,
        };
        Filter { name: self.name.clone(), content, start, end, kind: self.kind }
    }
}

/// The state machine of one filter: fed the lines of a scan from the newest
/// to the oldest, it tells for each whether it belongs to a block.
pub struct Parser {
    filter: Filter,
    state: State,
}

impl Parser {
    /// The filter that the parser works for.
    pub closed spec fn filter_view(&self) -> Filter {
        self.filter
    }

    /// The current state.
    pub closed spec fn state_view(&self) -> State {
        self.state
    }

    /// A parser for `filter`, in the state that every scan starts from.
    pub fn new(filter: Filter) -> (parser: Parser)
        ensures
            parser.filter_view() == filter,
            parser.state_view() == State::initial(),
    {
        Parser { filter, state: State::new() }
    }

    /// The filter that the parser works for.
    pub fn filter(&self) -> (filter: &Filter)
        ensures
            *filter == self.filter_view(),
    {
        &self.filter
    }

    /// The kind of the parser's filter.
    pub fn kind(&self) -> (kind: Kind)
        ensures
            kind == self.filter_view().kind_view(),
    {
        self.filter.kind()
    }

    /// The phase that was entered last.
    pub fn active_constraint(&self) -> (active: Constraint)
        ensures
            active == self.state_view().active,
    {
        self.state.active
    }

    /// Whether the block under construction has not met its end marker yet.
    pub fn is_first_match(&self) -> (first: bool)
        ensures
            first == self.state_view().first_match,
    {
        self.state.first_match
    }

    /// Puts the parser back into the state that every scan starts from.
    pub fn reset(&mut self)
        ensures
            final(self).filter_view() == old(self).filter_view(),
            final(self).state_view() == State::initial(),
    {
        self.state = State::new();
    }

    /// Judges the next older line of the scan: the verdict and the new state
    /// are those of the transition table for the answers that the filter's
    /// patterns give for `text`.
    pub fn matches(&mut self, text: &str) -> (result: ParserResult)
        ensures
            final(self).filter_view() == old(self).filter_view(),
            (final(self).state_view(), result) == step(
                old(self).filter_view().kind_view(),
                old(self).state_view(),
                old(self).filter_view().hits_of(text@),
            ),
    {
        let hits = self.filter.hits(text);
        let (state, result) = transition(self.filter.kind(), self.state, hits);
        self.state = state;
        result
    }

    /// Whether the lines gathered since the last terminator count as found
    /// when the scan ends without another terminator.
    pub fn assume_found_matches(&self) -> (found: bool)
        ensures
            found == self.filter_view().kind_view().keeps_open_block(),
    {
        self.filter.kind().assume_found_matches()
    }
}

} // verus!
