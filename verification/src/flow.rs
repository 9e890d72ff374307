//! The coordinator: it owns the store and the buffers, takes in the lines
//! that the tailer delivers, and keeps the views where they were while the
//! store grows.

use crate::buffer::{
    kept, scrolled, Buffer, BufferCollection, BufferLines, Offset, Query, ViewLine,
};
use crate::ansi::standard_decoder;
use crate::filter::Filter;
use crate::line::{appended, payloads, taken_in, LineCollection};
use vstd::prelude::*;

verus! {

/// The neighbour to select.
#[derive(Clone, Copy, PartialEq, Eq, Debug, Structural)]
pub enum Direction {
    Left,
    Right,
}

/// What the loop that owns the screen reports.
#[derive(Clone, Copy, PartialEq, Eq, Debug, Structural)]
pub enum Event {
    /// A request to scroll.
    ScrollContents(Offset),
    /// A request to select a neighbour.
    SelectMenuItem(Direction),
    /// The screen has changed its size.
    Resize,
    /// A request to leave.
    Quit,
    /// Nothing that concerns the views.
    Other,
}

/// What is left for the caller to do after an event.
#[derive(Clone, Copy, PartialEq, Eq, Debug, Structural)]
pub enum Action {
    /// Draw the selected view anew.
    Render,
    /// Show the selected view at this position.
    Scroll(usize),
    /// Take what the tailer has queued and hand it in.
    Drain,
    /// Stop the loops and leave.
    Quit,
}

/// The index of the neighbour of `selected` among `count` buffers in the
/// given direction, or `selected` itself at the end of the row.
pub open spec fn neighbour(selected: nat, count: nat, direction: Direction) -> nat {
    match direction {
        Direction::Left => if selected > 0 {
            (selected - 1) as nat
        } else {
            0
        },
        Direction::Right => if selected + 1 < count {
            selected + 1
        } else {
            selected
        },
    }
}

/// Where the highlighted line, counted back from the newest, lies once
/// `count` lines have come in: `count` lines further on, as long as that
/// many lie before it.
pub open spec fn shifted(highlighted_line: usize, count: usize) -> usize {
    if count <= highlighted_line {
        (highlighted_line - count) as usize
    } else {
        highlighted_line
    }
}

/// The store and the views on it.
pub struct Flow {
    pub lines: LineCollection,
    pub buffers: BufferCollection,
}

impl Flow {
    /// A coordinator with an empty store of the given capacity and one
    /// buffer for each filter.
    pub fn new(max_lines_count: usize, filters: Vec<Filter>) -> (flow: Flow)
        ensures
            flow.lines@.len() == 0,
            flow.lines.capacity_view() == max_lines_count,
            flow.lines.decoder_view() == standard_decoder(),
            flow.buffers@.len() == filters@.len(),
            flow.buffers.selected() == 0,
            forall|i: int|
                0 <= i < filters@.len() ==> (#[trigger] flow.buffers@[i]).filter == filters@[i]
                    && flow.buffers@[i].reverse_index == 0,
    {
        Flow {
            lines: LineCollection::new(max_lines_count),
            buffers: BufferCollection::from_filters(filters),
        }
    }

    /// Selects the buffer to the left or to the right of the selected one,
    /// if there is one; the store and the buffers stay as they are.
    pub fn select_menu_item(&mut self, direction: Direction)
        ensures
            final(self).lines == old(self).lines,
            final(self).buffers@ == old(self).buffers@,
            final(self).buffers.selected() == neighbour(
                old(self).buffers.selected(),
                old(self).buffers@.len(),
                direction,
            ),
    {
        match direction {
            Direction::Left => self.buffers.select_previous(),
            Direction::Right => self.buffers.select_next(),
        }
    }

    /// Carries out a scroll request on the selected buffer and returns its
    /// new position; the other buffers stay as they are. Without buffers
    /// nothing moves and the position is 0.
    pub fn scroll(&mut self, offset: Offset, height: i32, max_value: usize) -> (position: usize)
        ensures
            final(self).lines == old(self).lines,
            final(self).buffers.selected() == old(self).buffers.selected(),
            final(self).buffers@.len() == old(self).buffers@.len(),
            forall|i: int|
                0 <= i < old(self).buffers@.len() && i != old(self).buffers.selected()
                    ==> final(self).buffers@[i] == old(self).buffers@[i],
            old(self).buffers@.len() == 0 ==> position == 0,
            old(self).buffers@.len() > 0 ==> {
                let selected = old(self).buffers.selected() as int;
                &&& selected < old(self).buffers@.len()
                &&& final(self).buffers@[selected].filter == old(self).buffers@[selected].filter
                &&& final(self).buffers@[selected].reverse_index == position
                &&& position == scrolled(
                    old(self).buffers@[selected].reverse_index,
                    offset,
                    height,
                    max_value,
                )
            },
    {
        if self.buffers.len() == 0 {
            return 0;
        }
        self.buffers.scroll_selected(offset, height, max_value);
        self.buffers.selected_item().reverse_index
    }

    /// Takes in a batch of lines, oldest first: each is made into a line
    /// with the store's decoder and appended to the store, which drops its
    /// oldest lines where it has to. The buffers stay as they are. Returns
    /// the number of lines that came.
    pub fn append_incoming_lines(&mut self, pending_lines: Vec<String>) -> (count: usize)
        ensures
            count == pending_lines@.len(),
            final(self).buffers == old(self).buffers,
            final(self).lines.capacity_view() == old(self).lines.capacity_view(),
            final(self).lines.decoder_view() == old(self).lines.decoder_view(),
            final(self).lines.contents() == appended(
                old(self).lines.contents(),
                payloads(pending_lines@),
                old(self).lines.capacity_view(),
            ),
            taken_in(
                old(self).lines@,
                pending_lines@,
                final(self).lines@,
                old(self).lines.capacity_view(),
                old(self).lines.decoder_view(),
            ),
    {
        let count = pending_lines.len();
        self.lines.extend(pending_lines);
        count
    }

    /// Keeps every view where it was after lines have come in that take
    /// `added_height` rows on the screen: a view that is scrolled moves that
    /// many rows further back, within `[0, max_value]`; a view that shows
    /// the newest line goes on doing so.
    pub fn keep_position(&mut self, added_height: i32, max_value: usize)
        ensures
            final(self).lines == old(self).lines,
            final(self).buffers.selected() == old(self).buffers.selected(),
            final(self).buffers@.len() == old(self).buffers@.len(),
            forall|i: int|
                0 <= i < old(self).buffers@.len() ==> (#[trigger] final(self).buffers@[i]).filter
                    == old(self).buffers@[i].filter && final(self).buffers@[i].reverse_index == kept(
                    old(self).buffers@[i].reverse_index,
                    added_height,
                    max_value,
                ),
    {
        self.buffers.keep_positions(added_height, max_value);
    }

    /// What the selected buffer shows in a container of the given width,
    /// oldest first; nothing where there is no buffer.
    pub fn visible(&self, width: usize, query: Option<&Query>) -> (page: Vec<ViewLine>)
        ensures
            self.buffers@.len() == 0 ==> page@.len() == 0,
            self.buffers@.len() > 0 ==> self.buffers.selected() < self.buffers@.len() && page@ == (
            BufferLines {
                lines: &self.lines,
                buffer: &self.buffers@[self.buffers.selected() as int],
                width,
            }).shown(
                match query {
                    Some(query) => Some(*query),
                    None => None,
                },
            ),
    {
        if self.buffers.len() == 0 {
            return Vec::new();
        }
        let buffer: &Buffer = self.buffers.selected_item();
        let mut view = buffer.with_lines(&self.lines);
        view.width = width;
        view.collect(query)
    }

    /// Decides what an event leads to: the selection or the position is
    /// changed here, and the answer tells the caller what is left for it to
    /// do. The store is never touched.
    pub fn process(&mut self, event: Event, height: i32, max_value: usize) -> (action: Action)
        ensures
            final(self).lines == old(self).lines,
            final(self).buffers@.len() == old(self).buffers@.len(),
            match event {
                Event::SelectMenuItem(direction) => {
                    &&& action == Action::Render
                    &&& final(self).buffers@ == old(self).buffers@
                    &&& final(self).buffers.selected() == neighbour(
                        old(self).buffers.selected(),
                        old(self).buffers@.len(),
                        direction,
                    )
                },
                Event::ScrollContents(offset) => {
                    &&& final(self).buffers.selected() == old(self).buffers.selected()
                    &&& forall|i: int|
                        0 <= i < old(self).buffers@.len() && i != old(self).buffers.selected()
                            ==> final(self).buffers@[i] == old(self).buffers@[i]
                    &&& old(self).buffers@.len() == 0 ==> action == Action::Scroll(0)
                    &&& old(self).buffers@.len() > 0 ==> {
                        let selected = old(self).buffers.selected() as int;
                        &&& selected < old(self).buffers@.len()
                        &&& final(self).buffers@[selected].filter == old(
                            self,
                        ).buffers@[selected].filter
                        &&& action == Action::Scroll(final(self).buffers@[selected].reverse_index)
                        &&& final(self).buffers@[selected].reverse_index == scrolled(
                            old(self).buffers@[selected].reverse_index,
                            offset,
                            height,
                            max_value,
                        )
                    }
                },
                Event::Resize => action == Action::Render && final(self).buffers == old(
                    self,
                ).buffers,
                Event::Quit => action == Action::Quit && final(self).buffers == old(self).buffers,
                Event::Other => action == Action::Drain && final(self).buffers == old(
                    self,
                ).buffers,
            },
    {
        match event {
            Event::SelectMenuItem(direction) => {
                self.select_menu_item(direction);
                Action::Render
            },
            Event::ScrollContents(offset) => {
                let position = self.scroll(offset, height, max_value);
                Action::Scroll(position)
            },
            Event::Resize => Action::Render,
            Event::Quit => Action::Quit,
            Event::Other => Action::Drain,
        }
    }
}

/// Moves the highlighted line, counted back from the newest, on by the
/// number of lines that have come in.
pub fn shift_highlighted_line(highlighted_line: usize, count: usize) -> (shifted_line: usize)
    ensures
        shifted_line == shifted(highlighted_line, count),
{
    if count <= highlighted_line {
        highlighted_line - count
    } else {
        highlighted_line
    }
}

} // verus!
