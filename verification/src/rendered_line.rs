//! The record of what a view has put on the screen: the rows that each line
//! took and where in it the text searched for was found.

use vstd::prelude::*;

verus! {

/// A line as it was drawn: its rows, and the row offsets of the matches of
/// the current search in it, if it has any.
pub struct RenderedLine {
    pub height: i32,
    pub found_matches: Option<Vec<usize>>,
}

/// A match of the current search: a line and the number of the match in it.
#[derive(Clone, Copy, PartialEq, Eq, Debug, Structural)]
pub struct MatchedLine {
    pub line: usize,
    pub match_index: usize,
}

/// The lines drawn, oldest first.
pub struct RenderedLineCollection {
    pub entries: Vec<RenderedLine>,
}

/// The rows that a run of drawn lines takes.
pub open spec fn height_sum(lines: Seq<RenderedLine>) -> int
    decreases lines.len(),
{
    if lines.len() == 0 {
        0
    } else {
        height_sum(lines.drop_last()) + lines.last().height
    }
}

/// Whether the line holds matches of the current search.
pub open spec fn has_matches(line: RenderedLine) -> bool {
    line.found_matches is Some
}

/// The rows of two runs add up.
pub proof fn lemma_height_sum_concat(front: Seq<RenderedLine>, back: Seq<RenderedLine>)
    ensures
        height_sum(front + back) == height_sum(front) + height_sum(back),
    decreases back.len(),
{
    if back.len() == 0 {
        assert(front + back =~= front);
    } else {
        lemma_height_sum_concat(front, back.drop_last());
        assert((front + back).drop_last() =~= front + back.drop_last());
    }
}

/// The part of the record that is on the screen: where it begins, in rows
/// back from the newest, and how many rows it shows.
#[derive(Clone, Copy, PartialEq, Eq, Debug, Structural)]
pub struct Viewport {
    pub reverse_index: usize,
    pub visible_height: usize,
}

/// The rows that the lines from `from` on take.
pub open spec fn rows_from(lines: Seq<RenderedLine>, from: int) -> int {
    height_sum(lines.skip(from))
}

/// The rows that the last `back` lines of the record take.
pub open spec fn rows_behind(lines: Seq<RenderedLine>, back: int) -> int {
    height_sum(lines.skip(lines.len() - back))
}

/// Whether the match with the number `at` of the line that lies `back`
/// lines before the newest is on the screen: the rows behind the line reach
/// the beginning of the viewport, and with the offset of the match they do
/// not pass its limit.
pub open spec fn in_viewport(lines: Seq<RenderedLine>, viewport: Viewport, back: int, at: int) -> bool {
    &&& 0 <= back < lines.len()
    &&& rows_behind(lines, back) >= viewport.reverse_index
    &&& has_matches(lines[lines.len() - 1 - back])
    &&& 0 <= at < lines[lines.len() - 1 - back].found_matches->0@.len()
    &&& rows_behind(lines, back) + lines[lines.len() - 1 - back].found_matches->0@[at]
        <= viewport.reverse_index + viewport.visible_height
}

/// Whether a walk from the newest line back gets as far as the line that
/// lies `back` lines before the newest: the walk ends behind the first line
/// with which the rows reach the limit of the viewport.
pub open spec fn walk_reaches(lines: Seq<RenderedLine>, viewport: Viewport, back: int) -> bool {
    forall|b: int|
        0 < b <= back ==> #[trigger] rows_behind(lines, b) < viewport.reverse_index
            + viewport.visible_height
}

/// With one more line, the rows behind are those of the line more.
pub proof fn lemma_rows_behind_one_more(lines: Seq<RenderedLine>, back: int)
    requires
        0 <= back < lines.len(),
    ensures
        rows_behind(lines, back + 1) == rows_behind(lines, back) + lines[lines.len() - 1
            - back].height,
{
    let line = lines[lines.len() - 1 - back];
    let shorter = lines.skip(lines.len() - back);
    let longer = lines.skip(lines.len() - back - 1);
    assert(longer =~= seq![line] + shorter);
    lemma_height_sum_concat(seq![line], shorter);
    assert(seq![line].drop_last() =~= Seq::<RenderedLine>::empty());
    assert(height_sum(seq![line]) == line.height) by {
        assert(seq![line].last() == line);
        assert(height_sum(seq![line].drop_last()) == 0);
    }
}

/// Lines that take no less than no rows take no less than none together.
proof fn lemma_height_sum_not_negative(lines: Seq<RenderedLine>)
    requires
        forall|i: int| 0 <= i < lines.len() ==> lines[i].height >= 0,
    ensures
        height_sum(lines) >= 0,
    decreases lines.len(),
{
    if lines.len() > 0 {
        lemma_height_sum_not_negative(lines.drop_last());
    }
}

/// A record in which no line takes less than no rows, and whose rows can be
/// counted when taken together, can be counted in every stretch: a stretch
/// takes no more rows than the whole.
pub proof fn lemma_counted_rows_are_countable(lines: RenderedLineCollection)
    requires
        lines.rows_not_negative(),
        height_sum(lines.entries@) <= i32::MAX,
    ensures
        lines.rows_countable(),
{
    let all = lines.entries@;
    assert forall|from: int, to: int| 0 <= from <= to <= all.len() implies i32::MIN
        <= #[trigger] height_sum(all.subrange(from, to)) <= i32::MAX by {
        let front = all.subrange(0, from);
        let stretch = all.subrange(from, to);
        let back = all.subrange(to, all.len() as int);
        assert(all =~= (front + stretch) + back);
        lemma_height_sum_concat(front + stretch, back);
        lemma_height_sum_concat(front, stretch);
        lemma_height_sum_not_negative(front);
        lemma_height_sum_not_negative(stretch);
        lemma_height_sum_not_negative(back);
    }
}

/// The number of the first offset with which `rows` does not pass `limit`,
/// if there is one.
fn first_within(offsets: &Vec<usize>, rows: usize, limit: usize) -> (first: Option<usize>)
    ensures
        match first {
            Some(at) => {
                &&& at < offsets@.len()
                &&& rows + offsets@[at as int] <= limit
                &&& forall|k: int| 0 <= k < at ==> rows + #[trigger] offsets@[k] > limit
            },
            None => forall|k: int| 0 <= k < offsets@.len() ==> rows + #[trigger] offsets@[k] > limit,
        },
{
    if rows > limit {
        return None;
    }
    let room: usize = limit - rows;
    let mut at: usize = 0;
    while at < offsets.len()
        invariant
            at <= offsets@.len(),
            room + rows == limit,
            forall|k: int| 0 <= k < at ==> rows + #[trigger] offsets@[k] > limit,
        decreases offsets@.len() - at,
    {
        if offsets[at] <= room {
            return Some(at);
        }
        at += 1;
    }
    None
}

impl Viewport {
    /// A viewport that begins `reverse_index` rows back from the newest and
    /// shows `visible_height` rows.
    pub fn new(reverse_index: usize, visible_height: usize) -> (viewport: Viewport)
        ensures
            viewport.reverse_index == reverse_index,
            viewport.visible_height == visible_height,
    {
        Viewport { reverse_index, visible_height }
    }

    /// The row, counted back from the newest, behind which nothing is on
    /// the screen.
    pub fn limit(&self) -> (limit: usize)
        requires
            self.reverse_index + self.visible_height <= usize::MAX,
        ensures
            limit == self.reverse_index + self.visible_height,
    {
        self.reverse_index + self.visible_height
    }
}

impl RenderedLine {
    /// A drawn line.
    pub fn new(height: i32, found_matches: Option<Vec<usize>>) -> (line: RenderedLine)
        ensures
            line.height == height,
            line.found_matches == found_matches,
    {
        RenderedLine { height, found_matches }
    }

    /// The number of matches in a line that has some.
    pub fn match_count(&self) -> (count: usize)
        requires
            self.found_matches is Some,
        ensures
            count == self.found_matches->0@.len(),
    {
        match &self.found_matches {
            Some(found) => found.len(),
            None => 0,
        }
    }
}

impl MatchedLine {
    /// The match with the given number in the given line.
    pub fn new(line: usize, match_index: usize) -> (matched: MatchedLine)
        ensures
            matched.line == line,
            matched.match_index == match_index,
    {
        MatchedLine { line, match_index }
    }
}

impl RenderedLineCollection {
    /// Every stretch of the record takes a number of rows that can be
    /// counted.
    pub open spec fn rows_countable(&self) -> bool {
        forall|from: int, to: int|
            0 <= from <= to <= self.entries@.len() ==> i32::MIN <= #[trigger] height_sum(
                self.entries@.subrange(from, to),
            ) <= i32::MAX
    }

    /// No line takes less than no rows.
    pub open spec fn rows_not_negative(&self) -> bool {
        forall|i: int| 0 <= i < self.entries@.len() ==> (#[trigger] self.entries@[i]).height >= 0
    }

    /// A line that holds matches holds at least one.
    pub open spec fn matches_present(&self) -> bool {
        forall|i: int|
            0 <= i < self.entries@.len() ==> (#[trigger] self.entries@[i].found_matches matches Some(
                found,
            ) ==> found@.len() > 0)
    }

    /// An empty record.
    pub fn default() -> (lines: RenderedLineCollection)
        ensures
            lines.entries@.len() == 0,
            lines.rows_countable(),
            lines.rows_not_negative(),
            lines.matches_present(),
    {
        let lines = RenderedLineCollection { entries: Vec::new() };
        assert forall|from: int, to: int| 0 <= from <= to <= lines.entries@.len() implies i32::MIN
            <= #[trigger] height_sum(lines.entries@.subrange(from, to)) <= i32::MAX by {
            assert(lines.entries@.subrange(from, to).len() == 0);
        }
        lines
    }

    /// Records one more drawn line behind the others.
    pub fn create(&mut self, height: i32, found_matches: Option<Vec<usize>>)
        ensures
            final(self).entries@ == old(self).entries@.push(
                RenderedLine { height, found_matches },
            ),
    {
        let entry = RenderedLine::new(height, found_matches);
        self.entries.push(entry);
    }

    /// The rows of the stretch of lines from `from` up to `to`.
    fn stretch_height(&self, from: usize, to: usize) -> (height: i32)
        requires
            self.rows_countable(),
            from <= to <= self.entries@.len(),
        ensures
            height == height_sum(self.entries@.subrange(from as int, to as int)),
    {
        let mut height: i32 = 0;
        let mut i: usize = from;
        assert(self.entries@.subrange(from as int, from as int).len() == 0);
        while i < to
            invariant
                self.rows_countable(),
                from <= i <= to <= self.entries@.len(),
                height == height_sum(self.entries@.subrange(from as int, i as int)),
            decreases to - i,
        {
            proof {
                let longer = self.entries@.subrange(from as int, i + 1);
                assert(longer.drop_last() =~= self.entries@.subrange(from as int, i as int));
                assert(longer.last() == self.entries@[i as int]);
                assert(i32::MIN <= height_sum(longer) <= i32::MAX);
            }
            height = height + self.entries[i].height;
            i += 1;
        }
        height
    }

    /// The rows of all the lines.
    pub fn height(&self) -> (height: i32)
        requires
            self.rows_countable(),
        ensures
            height == height_sum(self.entries@),
    {
        assert(self.entries@.subrange(0, self.entries@.len() as int) =~= self.entries@);
        self.stretch_height(0, self.entries.len())
    }

    /// Forgets all the lines.
    pub fn clear(&mut self)
        ensures
            final(self).entries@.len() == 0,
    {
        self.entries.clear();
    }

    /// The number of lines.
    pub fn len(&self) -> (len: usize)
        ensures
            len == self.entries@.len(),
    {
        self.entries.len()
    }

    /// The position, in rows back from the newest, at which the match with
    /// the given number in the given line lies: the rows from that line to
    /// the newest, less the offset of the match.
    pub fn buffer_reverse_index(&self, line_index: usize, match_index: usize) -> (position: i32)
        requires
            self.rows_countable(),
            line_index < self.entries@.len(),
            self.entries@[line_index as int].found_matches is Some,
            match_index < self.entries@[line_index as int].found_matches->0@.len(),
            self.entries@[line_index as int].found_matches->0@[match_index as int] <= i32::MAX,
            i32::MIN <= height_sum(self.entries@.skip(line_index as int))
                - self.entries@[line_index as int].found_matches->0@[match_index as int],
        ensures
            position == height_sum(self.entries@.skip(line_index as int))
                - self.entries@[line_index as int].found_matches->0@[match_index as int],
    {
        let offset: usize = match &self.entries[line_index].found_matches {
            Some(found) => found[match_index],
            None => 0,
        };
        let below = self.stretch_height(line_index, self.entries.len());
        below - offset as i32
    }

    /// The rows of the first `index` lines, or of all where there are fewer.
    pub fn height_up_to_index(&self, index: usize) -> (height: i32)
        requires
            self.rows_countable(),
        ensures
            height == height_sum(
                self.entries@.take(
                    if index <= self.entries@.len() {
                        index as int
                    } else {
                        self.entries@.len() as int
                    },
                ),
            ),
    {
        let to = if index <= self.entries.len() {
            index
        } else {
            self.entries.len()
        };
        self.stretch_height(0, to)
    }

    /// The rows of the last `count` lines, or of all where there are fewer.
    pub fn last_lines_height(&self, count: usize) -> (height: i32)
        requires
            self.rows_countable(),
        ensures
            height == height_sum(
                self.entries@.skip(
                    if count <= self.entries@.len() {
                        self.entries@.len() - count
                    } else {
                        0
                    },
                ),
            ),
    {
        let from = if count <= self.entries.len() {
            self.entries.len() - count
        } else {
            0
        };
        self.stretch_height(from, self.entries.len())
    }

    /// The last match of the newest line that holds matches; the line is
    /// counted back from the newest.
    pub fn last_match(&self) -> (matched: MatchedLine)
        requires
            self.matches_present(),
            exists|i: int| 0 <= i < self.entries@.len() && has_matches(#[trigger] self.entries@[i]),
        ensures
            matched.line < self.entries@.len(),
            has_matches(self.entries@[self.entries@.len() - 1 - matched.line]),
            forall|j: int|
                0 <= j < matched.line ==> !has_matches(
                    #[trigger] self.entries@[self.entries@.len() - 1 - j],
                ),
            matched.match_index + 1 == self.entries@[self.entries@.len() - 1
                - matched.line].found_matches->0@.len(),
    {
        let len = self.entries.len();
        let mut back: usize = 0;
        while back < len
            invariant
                self.matches_present(),
                len == self.entries@.len(),
                back <= len,
                forall|j: int| 0 <= j < back ==> !has_matches(#[trigger] self.entries@[len - 1 - j]),
            decreases len - back,
        {
            let entry = &self.entries[len - 1 - back];
            if entry.found_matches.is_some() {
                return MatchedLine::new(back, entry.match_count() - 1);
            }
            back += 1;
        }
        proof {
            let i = choose|i: int| 0 <= i < self.entries@.len() && has_matches(#[trigger] self.entries@[i]);
            assert(!has_matches(self.entries@[len - 1 - (len - 1 - i)]));
        }
        MatchedLine::new(0, 0)
    }

    /// The last match of the first line behind `current_index` that holds
    /// matches.
    pub fn next_match(&self, current_index: usize) -> (matched: Option<MatchedLine>)
        requires
            self.matches_present(),
        ensures
            match matched {
                Some(matched) => {
                    &&& current_index < matched.line < self.entries@.len()
                    &&& has_matches(self.entries@[matched.line as int])
                    &&& matched.match_index + 1 == self.entries@[matched.line as int].found_matches->0@.len()
                    &&& forall|j: int|
                        current_index < j < matched.line ==> !has_matches(
                            #[trigger] self.entries@[j],
                        )
                },
                None => forall|j: int|
                    current_index < j < self.entries@.len() ==> !has_matches(
                        #[trigger] self.entries@[j],
                    ),
            },
    {
        let len = self.entries.len();
        if current_index >= len {
            return None;
        }
        let mut i: usize = current_index + 1;
        while i < len
            invariant
                self.matches_present(),
                len == self.entries@.len(),
                current_index < i <= len,
                forall|j: int| current_index < j < i ==> !has_matches(#[trigger] self.entries@[j]),
            decreases len - i,
        {
            let entry = &self.entries[i];
            if entry.found_matches.is_some() {
                return Some(MatchedLine::new(i, entry.match_count() - 1));
            }
            i += 1;
        }
        None
    }

    /// The last match of the last line before `current_index` that holds
    /// matches.
    pub fn previous_match(&self, current_index: usize) -> (matched: Option<MatchedLine>)
        requires
            self.matches_present(),
            current_index <= self.entries@.len(),
        ensures
            match matched {
                Some(matched) => {
                    &&& matched.line < current_index
                    &&& has_matches(self.entries@[matched.line as int])
                    &&& matched.match_index + 1 == self.entries@[matched.line as int].found_matches->0@.len()
                    &&& forall|j: int|
                        matched.line < j < current_index ==> !has_matches(
                            #[trigger] self.entries@[j],
                        )
                },
                None => forall|j: int|
                    0 <= j < current_index ==> !has_matches(#[trigger] self.entries@[j]),
            },
    {
        let mut i: usize = current_index;
        while i > 0
            invariant
                self.matches_present(),
                i <= current_index <= self.entries@.len(),
                forall|j: int| i <= j < current_index ==> !has_matches(#[trigger] self.entries@[j]),
            decreases i,
        {
            i -= 1;
            let entry = &self.entries[i];
            if entry.found_matches.is_some() {
                return Some(MatchedLine::new(i, entry.match_count() - 1));
            }
        }
        None
    }
    /// Whether one of the matches of the given line is on the screen: the
    /// rows from that line to the newest reach the beginning of the
    /// viewport, and with the offset of one of the line's matches they do
    /// not pass its limit.
    pub fn is_match_in_viewport(&self, matched_line: MatchedLine, viewport: Viewport) -> (seen: bool)
        requires
            self.rows_countable(),
            viewport.reverse_index + viewport.visible_height <= usize::MAX,
            matched_line.line < self.entries@.len(),
            rows_from(self.entries@, matched_line.line as int) >= 0,
            rows_from(self.entries@, matched_line.line as int) >= viewport.reverse_index
                ==> has_matches(self.entries@[matched_line.line as int]),
        ensures
            seen == (rows_from(self.entries@, matched_line.line as int) >= viewport.reverse_index
                && exists|at: int|
                0 <= at < self.entries@[matched_line.line as int].found_matches->0@.len()
                    && rows_from(self.entries@, matched_line.line as int)
                    + #[trigger] self.entries@[matched_line.line as int].found_matches->0@[at]
                    <= viewport.reverse_index + viewport.visible_height),
    {
        let limit = viewport.limit();
        let len = self.entries.len();
        assert(self.entries@.subrange(matched_line.line as int, len as int) =~= self.entries@.skip(
            matched_line.line as int,
        ));
        let rows = self.stretch_height(matched_line.line, len);
        let accumulated: usize = rows as usize;
        if accumulated < viewport.reverse_index {
            return false;
        }
        match &self.entries[matched_line.line].found_matches {
            Some(found) => first_within(found, accumulated, limit).is_some(),
            None => false,
        }
    }

    /// The first match on the screen, in a walk from the newest line back:
    /// the line is counted back from the newest, and the walk ends behind
    /// the first line with which the rows reach the limit of the viewport.
    pub fn viewport_match(&self, viewport: &Viewport) -> (matched: Option<MatchedLine>)
        requires
            self.rows_countable(),
            self.rows_not_negative(),
            viewport.reverse_index + viewport.visible_height <= usize::MAX,
        ensures
            match matched {
                Some(matched) => {
                    &&& in_viewport(
                        self.entries@,
                        *viewport,
                        matched.line as int,
                        matched.match_index as int,
                    )
                    &&& walk_reaches(self.entries@, *viewport, matched.line as int)
                    &&& forall|back: int, at: int|
                        0 <= back < matched.line ==> !#[trigger] in_viewport(
                            self.entries@,
                            *viewport,
                            back,
                            at,
                        )
                    &&& forall|at: int|
                        0 <= at < matched.match_index ==> !#[trigger] in_viewport(
                            self.entries@,
                            *viewport,
                            matched.line as int,
                            at,
                        )
                },
                None => forall|back: int, at: int|
                    walk_reaches(self.entries@, *viewport, back) ==> !#[trigger] in_viewport(
                        self.entries@,
                        *viewport,
                        back,
                        at,
                    ),
            },
    {
        let limit = viewport.limit();
        let len = self.entries.len();
        let mut accumulated: usize = 0;
        let mut back: usize = 0;
        assert(self.entries@.skip(len as int).len() == 0);
        while back < len
            invariant
                self.rows_countable(),
                self.rows_not_negative(),
                len == self.entries@.len(),
                limit == viewport.reverse_index + viewport.visible_height,
                back <= len,
                accumulated == rows_behind(self.entries@, back as int),
                walk_reaches(self.entries@, *viewport, back as int),
                forall|b: int, at: int|
                    0 <= b < back ==> !#[trigger] in_viewport(self.entries@, *viewport, b, at),
            decreases len - back,
        {
            let line = &self.entries[len - 1 - back];
            if accumulated >= viewport.reverse_index {
                match &line.found_matches {
                    Some(found) => match first_within(found, accumulated, limit) {
                        Some(at) => {
                            return Some(MatchedLine::new(back, at));
                        },
                        None => {},
                    },
                    None => {},
                }
            }
            proof {
                lemma_rows_behind_one_more(self.entries@, back as int);
                assert(self.entries@.skip(len - (back + 1)) =~= self.entries@.subrange(
                    len - (back + 1),
                    len as int,
                ));
            }
            accumulated = accumulated + line.height as usize;
            if accumulated >= limit {
                proof {
                    assert forall|b: int, at: int|
                        walk_reaches(self.entries@, *viewport, b) implies !#[trigger] in_viewport(
                        self.entries@,
                        *viewport,
                        b,
                        at,
                    ) by {
                        if b > back {
                            assert(rows_behind(self.entries@, back + 1) < limit);
                        }
                    }
                }
                return None;
            }
            back += 1;
        }
        None
    }
}

} // verus!
