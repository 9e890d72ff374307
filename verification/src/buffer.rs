//! Buffers: one filter each, with the position of its view counted in rows
//! back from the newest line, and the collection of them with its selection.

use crate::filter::{Filter, Hits, Kind};
use crate::line::{occurs_in, rows_for, Line, LineCollection};
use crate::scan::{descending, hits_in, lemma_scan_yields_each_line_once, parse, scan_of};
use vstd::prelude::*;

verus! {

/// The position of a view that shows the newest line.
pub const DEFAULT_REVERSE_INDEX: usize = 0;

/// The rows beyond which a view is cut off.
pub const MAX_LINES_RENDERED: usize = 2000;

/// Whether a scroll request asked for a move.
#[derive(Clone, Copy, PartialEq, Eq, Debug, Structural)]
pub enum ScrollState {
    Unchanged,
    Changed,
}

/// A scroll request.
#[derive(Clone, Copy, PartialEq, Eq, Debug, Structural)]
pub enum Offset {
    /// By a number of rows; positive is towards older lines.
    Line(i32),
    /// By a number of screens.
    Viewport(i32),
    /// To the oldest line.
    Top,
    /// To the newest line.
    Bottom,
}

/// A search typed by the user: in filter mode only the lines that hold the
/// text are shown, otherwise all are shown and those that hold it are marked.
pub struct Query {
    pub text: String,
    pub filter: bool,
}

impl Query {
    /// The search for a text that was typed; no text, no search.
    pub fn build(text: String, filter: bool) -> (query: Option<Query>)
        ensures
            query is Some <==> text@.len() > 0,
            query matches Some(made) ==> made.text == text && made.filter == filter,
    {
        if text.as_str().is_empty() {
            None
        } else {
            Some(Query { text, filter })
        }
    }
}

/// One line of a view: its index in the store, and whether it holds the
/// text searched for.
#[derive(Clone, Copy, PartialEq, Eq, Debug, Structural)]
pub struct ViewLine {
    pub index: usize,
    pub highlighted: bool,
}

/// `value` brought into `[0, max_value]`.
pub open spec fn clamped(value: int, max_value: int) -> int {
    if value < 0 {
        0
    } else if value > max_value {
        max_value
    } else {
        value
    }
}

/// Clamping settles: the value brought into range is in range, and bringing
/// it into the same range again changes nothing, however often it is done.
pub proof fn lemma_clamping_settles(value: int, max_value: int)
    requires
        0 <= max_value,
    ensures
        0 <= clamped(value, max_value) <= max_value,
        clamped(clamped(value, max_value), max_value) == clamped(value, max_value),
{
}

/// The position that a scroll request leads to from `position`, on a screen
/// `height` rows high whose content allows positions up to `max_value`. A
/// request by screens moves by that many screens less four rows.
pub open spec fn scrolled(position: usize, offset: Offset, height: i32, max_value: usize) -> int {
    match offset {
        Offset::Line(value) => clamped(position + value, max_value as int),
        Offset::Viewport(value) => clamped(position + value * height - 4, max_value as int),
        Offset::Top => max_value as int,
        Offset::Bottom => 0,
    }
}

/// The position at which a view stays on the same content after lines that
/// take `added_height` rows have come in: a view that is scrolled moves
/// that many rows further back, within `[0, max_value]`; a view that shows
/// the newest line goes on doing so.
pub open spec fn kept(position: usize, added_height: i32, max_value: usize) -> int {
    if position != 0 {
        clamped(position + added_height, max_value as int)
    } else {
        0
    }
}

/// Whether the line at `index` holds the text of the query.
pub open spec fn marks(lines: Seq<Line>, query: Option<Query>, index: usize) -> bool {
    match query {
        Some(query) => index < lines.len() && occurs_in(
            query.text@,
            lines[index as int].content_without_ansi@,
        ),
        None => false,
    }
}

/// Whether the query lets the line at `index` through: a query in filter
/// mode lets through only what it marks.
pub open spec fn shows(lines: Seq<Line>, query: Option<Query>, index: usize) -> bool {
    index < lines.len() && match query {
        Some(query) => !query.filter || marks(lines, Some(query), index),
        None => true,
    }
}

/// The page cut from `found`, read from position `at` on: the lines that the
/// query lets through, up to the first whose rows no longer fit in `budget`.
pub open spec fn page_from(
    lines: Seq<Line>,
    query: Option<Query>,
    width: usize,
    found: Seq<usize>,
    at: nat,
    budget: nat,
) -> Seq<ViewLine>
    decreases found.len() - at,
{
    if at >= found.len() {
        Seq::empty()
    } else {
        let index = found[at as int];
        if !shows(lines, query, index) {
            page_from(lines, query, width, found, at + 1, budget)
        } else {
            let rows = rows_for(lines[index as int].width as int, width as int);
            if rows > budget {
                Seq::empty()
            } else {
                seq![ViewLine { index, highlighted: marks(lines, query, index) }] + page_from(
                    lines,
                    query,
                    width,
                    found,
                    at + 1,
                    (budget - rows) as nat,
                )
            }
        }
    }
}

/// The rows that the lines of a page are expected to take.
pub open spec fn rows_of(lines: Seq<Line>, width: usize, page: Seq<ViewLine>) -> int
    decreases page.len(),
{
    if page.len() == 0 {
        0
    } else {
        rows_for(lines[page[0].index as int].width as int, width as int) + rows_of(
            lines,
            width,
            page.skip(1),
        )
    }
}

/// A page takes no more rows than its budget, holds only lines that the
/// query lets through, marked where they hold its text, and holds them in
/// the order in which they were found.
pub proof fn lemma_page_within_budget(
    lines: Seq<Line>,
    query: Option<Query>,
    width: usize,
    found: Seq<usize>,
    at: nat,
    budget: nat,
)
    requires
        descending(found),
    ensures
        rows_of(lines, width, page_from(lines, query, width, found, at, budget)) <= budget,
        forall|i: int|
            0 <= i < page_from(lines, query, width, found, at, budget).len() ==> {
                let line = #[trigger] page_from(lines, query, width, found, at, budget)[i];
                &&& shows(lines, query, line.index)
                &&& line.highlighted == marks(lines, query, line.index)
                &&& exists|k: int| at <= k < found.len() && found[k] == line.index
            },
        forall|i: int, j: int|
            0 <= i < j < page_from(lines, query, width, found, at, budget).len() ==> page_from(
                lines,
                query,
                width,
                found,
                at,
                budget,
            )[i].index > page_from(lines, query, width, found, at, budget)[j].index,
    decreases found.len() - at,
{
    let page = page_from(lines, query, width, found, at, budget);
    if at < found.len() {
        let index = found[at as int];
        if !shows(lines, query, index) {
            lemma_page_within_budget(lines, query, width, found, at + 1, budget);
        } else {
            let rows = rows_for(lines[index as int].width as int, width as int);
            if rows <= budget {
                let rest_budget = (budget - rows) as nat;
                let rest = page_from(lines, query, width, found, at + 1, rest_budget);
                lemma_page_within_budget(lines, query, width, found, at + 1, rest_budget);
                let first = ViewLine { index, highlighted: marks(lines, query, index) };
                assert(page == seq![first] + rest);
                assert(page.skip(1) =~= rest);
                assert forall|i: int| 0 <= i < page.len() implies ({
                    let line = #[trigger] page[i];
                    &&& shows(lines, query, line.index)
                    &&& line.highlighted == marks(lines, query, line.index)
                    &&& exists|k: int| at <= k < found.len() && found[k] == line.index
                }) by {
                    if i > 0 {
                        let line = rest[i - 1];
                        let k = choose|k: int| at + 1 <= k < found.len() && found[k] == line.index;
                        assert(at <= k < found.len() && found[k] == line.index);
                    } else {
                        assert(found[at as int] == page[0].index);
                    }
                }
                assert forall|i: int, j: int| 0 <= i < j < page.len() implies page[i].index
                    > page[j].index by {
                    let later = rest[j - 1];
                    let k = choose|k: int| at + 1 <= k < found.len() && found[k] == later.index;
                    if i == 0 {
                        assert(found[at as int] > found[k]);
                    } else {
                        assert(rest[i - 1].index > rest[j - 1].index);
                    }
                }
            }
        }
    }
}

/// What a view shows is in the order of the store, oldest first, without a
/// line twice; every line of it is one of the store, is let through by the
/// query and is marked exactly where it holds the query's text; and all of
/// it together takes no more rows than the limit.
pub proof fn lemma_view_is_chronological_and_bounded(
    kind: Kind,
    hits: Seq<Hits>,
    lines: Seq<Line>,
    query: Option<Query>,
    width: usize,
)
    requires
        hits.len() == lines.len(),
        lines.len() <= usize::MAX,
    ensures
        ({
            let page = page_from(
                lines,
                query,
                width,
                scan_of(kind, hits),
                0,
                MAX_LINES_RENDERED as nat,
            );
            &&& rows_of(lines, width, page) <= MAX_LINES_RENDERED
            &&& page.reverse().len() == page.len()
            &&& forall|i: int, j: int|
                0 <= i < j < page.len() ==> page.reverse()[i].index < page.reverse()[j].index
            &&& forall|i: int|
                0 <= i < page.len() ==> {
                    let line = #[trigger] page.reverse()[i];
                    &&& line.index < lines.len()
                    &&& shows(lines, query, line.index)
                    &&& line.highlighted == marks(lines, query, line.index)
                }
        }),
{
    let found = scan_of(kind, hits);
    lemma_scan_yields_each_line_once(kind, hits);
    lemma_page_within_budget(lines, query, width, found, 0, MAX_LINES_RENDERED as nat);
    let page = page_from(lines, query, width, found, 0, MAX_LINES_RENDERED as nat);
    assert forall|i: int, j: int| 0 <= i < j < page.len() implies page.reverse()[i].index
        < page.reverse()[j].index by {
        assert(page[page.len() - 1 - j].index > page[page.len() - 1 - i].index);
    }
    assert forall|i: int| 0 <= i < page.len() implies ({
        let line = #[trigger] page.reverse()[i];
        &&& line.index < lines.len()
        &&& shows(lines, query, line.index)
        &&& line.highlighted == marks(lines, query, line.index)
    }) by {
        let line = page[page.len() - 1 - i];
        assert(shows(lines, query, line.index));
    }
}

/// A live filter view.
pub struct Buffer {
    pub filter: Filter,
    pub reverse_index: usize,
}

impl Buffer {
    /// A view of `filter` that shows the newest line.
    pub fn new(filter: Filter) -> (buffer: Buffer)
        ensures
            buffer.filter == filter,
            buffer.reverse_index == 0,
    {
        Buffer { filter, reverse_index: DEFAULT_REVERSE_INDEX }
    }

    /// Binds the view to a store. The width of the container is set on what
    /// comes back, before the lines are asked for.
    pub fn with_lines<'a>(&'a self, lines: &'a LineCollection) -> (view: BufferLines<'a>)
        ensures
            view.buffer == self,
            view.lines == lines,
            view.width == 0,
    {
        BufferLines { lines, buffer: self, width: 0 }
    }

    /// Moves the position by `value` rows and brings it into
    /// `[0, max_value]`.
    pub fn increment_reverse_index(&mut self, value: i32, max_value: usize)
        ensures
            final(self).filter == old(self).filter,
            final(self).reverse_index == clamped(
                old(self).reverse_index + value,
                max_value as int,
            ),
    {
        let target: i128 = self.reverse_index as i128 + value as i128;
        if target < 0 {
            self.reverse_index = 0;
        } else if target > max_value as i128 {
            self.reverse_index = max_value;
        } else {
            self.reverse_index = target as usize;
        }
    }

    /// Moves the position by `delta` rows and brings it into
    /// `[0, max_value]`, and tells whether a move was asked for. A request
    /// to move by nothing still brings the position into the range.
    pub fn adjust_reverse_index(&mut self, delta: i32, max_value: usize) -> (state: ScrollState)
        ensures
            final(self).filter == old(self).filter,
            final(self).reverse_index == clamped(
                old(self).reverse_index + delta,
                max_value as int,
            ),
            state == ScrollState::Unchanged <==> delta == 0,
            state == ScrollState::Changed <==> delta != 0,
    {
        self.increment_reverse_index(delta, max_value);
        if delta == 0 {
            ScrollState::Unchanged
        } else {
            ScrollState::Changed
        }
    }

    /// Sets the position to `value` brought into `[0, max_value]`.
    pub fn set_reverse_index(&mut self, value: i32, max_value: usize)
        ensures
            final(self).filter == old(self).filter,
            final(self).reverse_index == clamped(value as int, max_value as int),
    {
        if value < 0 {
            self.reverse_index = 0;
        } else if value as i128 > max_value as i128 {
            self.reverse_index = max_value;
        } else {
            self.reverse_index = value as usize;
        }
    }

    /// Whether the view is away from the newest line.
    pub fn is_scrolled(&self) -> (scrolled: bool)
        ensures
            scrolled == (self.reverse_index != 0),
    {
        self.reverse_index != DEFAULT_REVERSE_INDEX
    }

    /// Keeps the view on the same content after lines that take
    /// `added_height` rows have come in.
    pub fn keep_position(&mut self, added_height: i32, max_value: usize)
        ensures
            final(self).filter == old(self).filter,
            final(self).reverse_index == kept(old(self).reverse_index, added_height, max_value),
    {
        if self.is_scrolled() {
            self.increment_reverse_index(added_height, max_value);
        }
    }

    /// Brings the view back to the newest line.
    pub fn reset_reverse_index(&mut self)
        ensures
            final(self).filter == old(self).filter,
            final(self).reverse_index == 0,
    {
        self.reverse_index = DEFAULT_REVERSE_INDEX;
    }

    /// Carries out a scroll request on a screen `height` rows high whose
    /// content allows positions up to `max_value`.
    pub fn scroll(&mut self, offset: Offset, height: i32, max_value: usize)
        ensures
            final(self).filter == old(self).filter,
            final(self).reverse_index == scrolled(
                old(self).reverse_index,
                offset,
                height,
                max_value,
            ),
    {
        match offset {
            Offset::Line(value) => {
                self.increment_reverse_index(value, max_value);
            },
            Offset::Viewport(value) => {
                assert(-0x4000_0000_0000_0000 <= value * height <= 0x4000_0000_0000_0000)
                    by (nonlinear_arith)
                    requires
                        -0x8000_0000 <= value <= 0x7fff_ffff,
                        -0x8000_0000 <= height <= 0x7fff_ffff,
                ;
                let target: i128 = self.reverse_index as i128 + (value as i128) * (height as i128)
                    - 4;
                if target < 0 {
                    self.reverse_index = 0;
                } else if target > max_value as i128 {
                    self.reverse_index = max_value;
                } else {
                    self.reverse_index = target as usize;
                }
            },
            Offset::Top => {
                self.reverse_index = max_value;
            },
            Offset::Bottom => {
                self.reset_reverse_index();
            },
        }
    }
}

/// A view bound to a store, for a container of a given width.
pub struct BufferLines<'a> {
    pub lines: &'a LineCollection,
    pub buffer: &'a Buffer,
    pub width: usize,
}

impl<'a> BufferLines<'a> {
    /// What the view shows, oldest first.
    pub open spec fn shown(&self, query: Option<Query>) -> Seq<ViewLine> {
        page_from(
            self.lines@,
            query,
            self.width,
            scan_of(self.buffer.filter.kind_view(), hits_in(&self.buffer.filter, self.lines)),
            0,
            MAX_LINES_RENDERED as nat,
        ).reverse()
    }

    /// Scans the store once for the view's filter, lets the query pass or
    /// mark each line found, stops at the first line, counted from the
    /// newest, with which the rows expected would exceed the limit, and
    /// returns what is left, oldest first.
    pub fn collect(&self, query: Option<&Query>) -> (page: Vec<ViewLine>)
        ensures
            page@ == self.shown(
                match query {
                    Some(query) => Some(*query),
                    None => None,
                },
            ),
    {
        let ghost asked: Option<Query> = match query {
            Some(query) => Some(*query),
            None => None,
        };
        let found = parse(self.lines, &self.buffer.filter);
        let mut newest_first: Vec<ViewLine> = Vec::new();
        let mut budget: usize = MAX_LINES_RENDERED;
        let mut at: usize = 0;
        let mut full = false;
        while at < found.len() && !full
            invariant
                at <= found@.len(),
                asked == match query {
                    Some(query) => Some(*query),
                    None => None,
                },
                !full ==> newest_first@ + page_from(
                    self.lines@,
                    asked,
                    self.width,
                    found@,
                    at as nat,
                    budget as nat,
                ) == page_from(
                    self.lines@,
                    asked,
                    self.width,
                    found@,
                    0,
                    MAX_LINES_RENDERED as nat,
                ),
                full ==> newest_first@ == page_from(
                    self.lines@,
                    asked,
                    self.width,
                    found@,
                    0,
                    MAX_LINES_RENDERED as nat,
                ),
            decreases found@.len() - at + (if full { 0int } else { 1int }),
        {
            let index = found[at];
            let ghost rest = page_from(
                self.lines@,
                asked,
                self.width,
                found@,
                at as nat,
                budget as nat,
            );
            match self.lines.get(index) {
                Some(line) => {
                    let highlighted = match query {
                        Some(query) => line.contains(query.text.as_str()),
                        None => false,
                    };
                    let passes = match query {
                        Some(query) => !query.filter || highlighted,
                        None => true,
                    };
                    if passes {
                        let rows = line.guess_height(self.width);
                        if rows > budget {
                            full = true;
                        } else {
                            let ghost before = newest_first@;
                            let ghost tail = page_from(
                                self.lines@,
                                asked,
                                self.width,
                                found@,
                                (at + 1) as nat,
                                (budget - rows) as nat,
                            );
                            newest_first.push(ViewLine { index, highlighted });
                            budget = budget - rows;
                            assert(rest == seq![ViewLine { index, highlighted }] + tail);
                            assert((before + seq![ViewLine { index, highlighted }]) + tail
                                =~= before + (seq![ViewLine { index, highlighted }] + tail));
                            at += 1;
                        }
                    } else {
                        at += 1;
                    }
                },
                None => {
                    at += 1;
                },
            }
        }
        proof {
            if !full {
                assert(newest_first@ + Seq::<ViewLine>::empty() =~= newest_first@);
            }
        }
        let mut page: Vec<ViewLine> = Vec::new();
        let mut left: usize = newest_first.len();
        while left > 0
            invariant
                left <= newest_first@.len(),
                page@.len() == newest_first@.len() - left,
                forall|j: int|
                    0 <= j < page@.len() ==> page@[j] == newest_first@[newest_first@.len() - 1 - j],
            decreases left,
        {
            left -= 1;
            page.push(newest_first[left]);
        }
        page
    }
}

/// The buffers in the order of their filters, one of them selected.
pub struct BufferCollection {
    items: Vec<Buffer>,
    index: usize,
}

impl View for BufferCollection {
    type V = Seq<Buffer>;

    closed spec fn view(&self) -> Seq<Buffer> {
        self.items@
    }
}

impl BufferCollection {
    #[verifier::type_invariant]
    spec fn selection_in_range(self) -> bool {
        self.index < self.items@.len() || self.index == 0
    }

    /// The index of the selected buffer.
    pub closed spec fn selected(&self) -> nat {
        self.index as nat
    }

    /// One buffer for each filter, in their order, each showing the newest
    /// line; the first is selected.
    pub fn from_filters(filters: Vec<Filter>) -> (buffers: BufferCollection)
        ensures
            buffers@.len() == filters@.len(),
            buffers.selected() == 0,
            forall|i: int|
                0 <= i < filters@.len() ==> (#[trigger] buffers@[i]).filter == filters@[i]
                    && buffers@[i].reverse_index == 0,
    {
        let mut filters = filters;
        let ghost given = filters@;
        let mut reversed: Vec<Buffer> = Vec::new();
        while filters.len() > 0
            invariant
                filters@.len() + reversed@.len() == given.len(),
                forall|i: int| 0 <= i < filters@.len() ==> filters@[i] == given[i],
                forall|i: int|
                    0 <= i < reversed@.len() ==> (#[trigger] reversed@[i]).filter == given[given.len()
                        - 1 - i] && reversed@[i].reverse_index == 0,
            decreases filters@.len(),
        {
            match filters.pop() {
                Some(filter) => reversed.push(Buffer::new(filter)),
                None => {},
            }
        }
        let mut items: Vec<Buffer> = Vec::new();
        while reversed.len() > 0
            invariant
                items@.len() + reversed@.len() == given.len(),
                forall|i: int|
                    0 <= i < reversed@.len() ==> (#[trigger] reversed@[i]).filter == given[given.len()
                        - 1 - i] && reversed@[i].reverse_index == 0,
                forall|i: int|
                    0 <= i < items@.len() ==> (#[trigger] items@[i]).filter == given[i]
                        && items@[i].reverse_index == 0,
            decreases reversed@.len(),
        {
            match reversed.pop() {
                Some(buffer) => items.push(buffer),
                None => {},
            }
        }
        BufferCollection { items, index: 0 }
    }

    /// The number of buffers.
    pub fn len(&self) -> (len: usize)
        ensures
            len == self@.len(),
    {
        self.items.len()
    }

    /// The index of the selected buffer, which is a valid one unless the
    /// collection is empty.
    pub fn selected_index(&self) -> (index: usize)
        ensures
            index == self.selected(),
            self@.len() > 0 ==> index < self@.len(),
            self@.len() == 0 ==> index == 0,
    {
        proof {
            use_type_invariant(self);
        }
        self.index
    }

    /// The selected buffer.
    pub fn selected_item(&self) -> (buffer: &Buffer)
        requires
            self@.len() > 0,
        ensures
            self.selected() < self@.len(),
            *buffer == self@[self.selected() as int],
    {
        proof {
            use_type_invariant(self);
        }
        &self.items[self.index]
    }

    /// Selects the buffer before the selected one, if there is one.
    pub fn select_previous(&mut self)
        ensures
            final(self)@ == old(self)@,
            final(self).selected() == if old(self).selected() > 0 {
                (old(self).selected() - 1) as nat
            } else {
                0
            },
    {
        proof {
            use_type_invariant(&*self);
        }
        if self.index > 0 {
            self.index -= 1;
        }
    }

    /// Selects the buffer behind the selected one, if there is one.
    pub fn select_next(&mut self)
        ensures
            final(self)@ == old(self)@,
            final(self).selected() == if old(self).selected() + 1 < old(self)@.len() {
                old(self).selected() + 1
            } else {
                old(self).selected()
            },
    {
        proof {
            use_type_invariant(&*self);
        }
        let len = self.items.len();
        if len > 0 && self.index < len - 1 {
            self.index += 1;
        }
    }

    /// Keeps every buffer on the same content after lines that take
    /// `added_height` rows have come in.
    pub fn keep_positions(&mut self, added_height: i32, max_value: usize)
        ensures
            final(self).selected() == old(self).selected(),
            final(self)@.len() == old(self)@.len(),
            forall|i: int|
                0 <= i < old(self)@.len() ==> (#[trigger] final(self)@[i]).filter == old(self)@[i].filter
                    && final(self)@[i].reverse_index == kept(
                    old(self)@[i].reverse_index,
                    added_height,
                    max_value,
                ),
    {
        proof {
            use_type_invariant(&*self);
        }
        let index = self.index;
        let mut taken = BufferCollection { items: Vec::new(), index: 0 };
        std::mem::swap(self, &mut taken);
        let mut items = taken.items;
        let ghost given = items@;
        let mut reversed: Vec<Buffer> = Vec::new();
        while items.len() > 0
            invariant
                items@.len() + reversed@.len() == given.len(),
                forall|i: int| 0 <= i < items@.len() ==> items@[i] == given[i],
                forall|i: int|
                    0 <= i < reversed@.len() ==> (#[trigger] reversed@[i]).filter == given[given.len()
                        - 1 - i].filter && reversed@[i].reverse_index == kept(
                        given[given.len() - 1 - i].reverse_index,
                        added_height,
                        max_value,
                    ),
            decreases items@.len(),
        {
            match items.pop() {
                Some(buffer) => {
                    let mut buffer = buffer;
                    buffer.keep_position(added_height, max_value);
                    reversed.push(buffer);
                },
                None => {},
            }
        }
        while reversed.len() > 0
            invariant
                items@.len() + reversed@.len() == given.len(),
                forall|i: int|
                    0 <= i < reversed@.len() ==> (#[trigger] reversed@[i]).filter == given[given.len()
                        - 1 - i].filter && reversed@[i].reverse_index == kept(
                        given[given.len() - 1 - i].reverse_index,
                        added_height,
                        max_value,
                    ),
                forall|i: int|
                    0 <= i < items@.len() ==> (#[trigger] items@[i]).filter == given[i].filter
                        && items@[i].reverse_index == kept(
                        given[i].reverse_index,
                        added_height,
                        max_value,
                    ),
            decreases reversed@.len(),
        {
            match reversed.pop() {
                Some(buffer) => items.push(buffer),
                None => {},
            }
        }
        *self = BufferCollection { items, index };
    }

    /// Carries out a scroll request on the selected buffer; the others stay
    /// as they are.
    pub fn scroll_selected(&mut self, offset: Offset, height: i32, max_value: usize)
        ensures
            final(self).selected() == old(self).selected(),
            final(self)@.len() == old(self)@.len(),
            forall|i: int|
                0 <= i < old(self)@.len() && i != old(self).selected() ==> final(self)@[i] == old(
                    self,
                )@[i],
            old(self)@.len() > 0 ==> {
                let before = old(self)@[old(self).selected() as int];
                let after = final(self)@[old(self).selected() as int];
                after.filter == before.filter && after.reverse_index == scrolled(
                    before.reverse_index,
                    offset,
                    height,
                    max_value,
                )
            },
    {
        proof {
            use_type_invariant(&*self);
        }
        let index = self.index;
        let mut taken = BufferCollection { items: Vec::new(), index: 0 };
        std::mem::swap(self, &mut taken);
        let mut items = taken.items;
        if index < items.len() {
            let mut buffer = items.remove(index);
            buffer.scroll(offset, height, max_value);
            items.insert(index, buffer);
        }
        *self = BufferCollection { items, index };
    }
}

} // verus!
