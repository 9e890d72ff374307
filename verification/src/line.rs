//! Lines and the bounded store that keeps them.

use crate::ansi::{
    decoder_view, has_ansi_escape_sequence, held_decoder_view, pieces, plain_text, strip_with,
    standard_decoder, AnsiDecoder, ComponentCollection, Patterns, Segment,
};
use std::collections::VecDeque;
use unicode_width::UnicodeWidthStr;
use vstd::prelude::*;

verus! {

/// The number of terminal columns that a text takes.
pub uninterp spec fn display_width(text: Seq<char>) -> nat;

/// Calls `UnicodeWidthStr::width`: the displayed width of the text in
/// columns, which depends on the text alone.
#[verifier::external_body]
fn str_width(text: &str) -> (width: usize)
    ensures
        width == display_width(text@),
{
    UnicodeWidthStr::width(text)
}

/// Calls `str::contains` with a string: true when `needle` occurs in `text`
/// as a run of consecutive characters.
#[verifier::external_body]
fn str_contains(text: &str, needle: &str) -> (b: bool)
    ensures
        b == occurs_in(needle@, text@),
{
    text.contains(needle)
}

/// The places at which `needle` occurs in `text`, counted in bytes from the
/// start, from the first on, each occurrence starting behind the one before.
pub uninterp spec fn match_offsets(text: Seq<char>, needle: Seq<char>) -> Seq<usize>;

/// Calls `str::match_indices` and keeps the offset of each match: the byte
/// offsets of the occurrences of `needle` that do not overlap, in order.
#[verifier::external_body]
fn str_match_indices(text: &str, needle: &str) -> (offsets: Vec<usize>)
    ensures
        offsets@ == match_offsets(text@, needle@),
{
    text.match_indices(needle).map(|found| found.0).collect()
}

/// Whether `needle` occurs in `text` as a run of consecutive characters.
pub open spec fn occurs_in(needle: Seq<char>, text: Seq<char>) -> bool {
    exists|at: int|
        0 <= at && at + needle.len() <= text.len() && #[trigger] text.subrange(
            at,
            at + needle.len(),
        ) == needle
}

/// The rows that a text of `width` columns takes in a container of
/// `container_width` columns: at least one, and as many as it takes to hold
/// the text. In a container without width a text that has some takes more
/// rows than can be counted.
pub open spec fn rows_for(width: int, container_width: int) -> int {
    if width == 0 {
        1
    } else if container_width == 0 {
        usize::MAX as int
    } else if width % container_width == 0 {
        width / container_width
    } else {
        width / container_width + 1
    }
}

/// One ingested record: the payload as it came, its text without styling,
/// which is what filters and searches look at, and the pieces of a payload
/// that holds styling.
pub struct Line {
    pub content: String,
    pub content_without_ansi: String,
    pub components: Option<ComponentCollection>,
    pub width: usize,
}

impl Line {
    /// The pieces of the payload, where it holds styling.
    pub open spec fn pieces_view(&self) -> Option<Seq<Segment>> {
        match self.components {
            Some(components) => Some(components@),
            None => None,
        }
    }

    /// Whether this is the line that is made of the payload `raw` with the
    /// given decoder of styling sequences.
    pub open spec fn made_from(&self, raw: Seq<char>, decoder: Option<Patterns>) -> bool {
        &&& self.content@ == raw
        &&& self.content_without_ansi@ == plain_text(raw, decoder)
        &&& self.pieces_view() == pieces(raw, decoder)
        &&& self.width == display_width(self.content_without_ansi@)
    }

    /// Makes a line of a payload: the styling sequences are stripped and the
    /// payload is cut into its pieces once, here, and the width of what is
    /// left is measured. Should a pattern of the decoder fail to compile,
    /// the payload is left as it is.
    pub fn new(content: String) -> (line: Line)
        ensures
            line.made_from(content@, standard_decoder()),
    {
        let decoder = AnsiDecoder::new();
        Line::with_decoder(content, decoder.as_ref())
    }

    /// Makes a line of a payload with a given decoder: where the payload
    /// holds an escape and there is a decoder, the payload is stripped and
    /// cut; the width of what is left is measured.
    pub fn with_decoder(content: String, decoder: Option<&AnsiDecoder>) -> (line: Line)
        ensures
            line.made_from(content@, decoder_view(decoder)),
    {
        let mut components: Option<ComponentCollection> = None;
        let content_without_ansi = match decoder {
            Some(decoder) => {
                if has_ansi_escape_sequence(content.as_str()) {
                    components = Some(
                        ComponentCollection::from_string(&decoder.cutter, content.as_str()),
                    );
                    strip_with(&decoder.stripper, content.as_str())
                } else {
                    content.clone()
                }
            },
            None => content.clone(),
        };
        let width = str_width(content_without_ansi.as_str());
        Line { content, content_without_ansi, components, width }
    }

    /// The rows that the line is expected to take in a container of the
    /// given width.
    pub fn guess_height(&self, container_width: usize) -> (height: usize)
        ensures
            height == rows_for(self.width as int, container_width as int),
            height >= 1,
    {
        if self.width == 0 {
            1
        } else if container_width == 0 {
            usize::MAX
        } else if self.width % container_width == 0 {
            proof {
                let w = self.width as int;
                let c = container_width as int;
                assert(w / c >= 1) by (nonlinear_arith)
                    requires
                        w % c == 0,
                        w > 0,
                        c > 0,
                ;
            }
            self.width / container_width
        } else {
            proof {
                let w = self.width as int;
                let c = container_width as int;
                assert(c >= 2) by {
                    if c == 1 {
                        assert(w % 1 == 0);
                    }
                }
                assert(0 <= w / c && w / c < w) by (nonlinear_arith)
                    requires
                        w > 0,
                        c >= 2,
                ;
            }
            self.width / container_width + 1
        }
    }

    /// The byte offsets at which `text` occurs in the line's text without
    /// styling.
    pub fn matches_for(&self, text: &str) -> (offsets: Vec<usize>)
        ensures
            offsets@ == match_offsets(self.content_without_ansi@, text@),
    {
        str_match_indices(self.content_without_ansi.as_str(), text)
    }

    /// Whether `text` occurs in the line's text without styling.
    pub fn contains(&self, text: &str) -> (b: bool)
        ensures
            b == occurs_in(text@, self.content_without_ansi@),
    {
        str_contains(self.content_without_ansi.as_str(), text)
    }
}

/// What a store holds after `batch` was appended to `retained` and the
/// oldest entries were dropped until `capacity` was met.
pub open spec fn appended<T>(retained: Seq<T>, batch: Seq<T>, capacity: nat) -> Seq<T> {
    let all = retained + batch;
    if all.len() <= capacity {
        all
    } else {
        all.skip(all.len() - capacity)
    }
}

/// Whether `after` is what a store of the given capacity holds once it has
/// taken in `batch` behind the lines `before`: as many of the newest lines
/// as the capacity allows; those of them that were there before are as they
/// were, and each of the others is the line made of its payload with the
/// store's decoder, so that it bears the payload, its text without styling,
/// its pieces and its width.
pub open spec fn taken_in(
    before: Seq<Line>,
    batch: Seq<String>,
    after: Seq<Line>,
    capacity: nat,
    decoder: Option<Patterns>,
) -> bool {
    &&& after.len() == if before.len() + batch.len() <= capacity {
        before.len() + batch.len()
    } else {
        capacity
    }
    &&& forall|j: int|
        0 <= j < after.len() ==> {
            let k = j + (before.len() + batch.len() - after.len());
            if k < before.len() {
                after[j] == before[k]
            } else {
                (#[trigger] after[j]).made_from(batch[k - before.len()]@, decoder)
            }
        }
}

/// The texts of a batch of payloads.
pub open spec fn payloads(batch: Seq<String>) -> Seq<Seq<char>> {
    Seq::new(batch.len(), |i: int| batch[i]@)
}

/// What a store holds after the batches were appended one after the other.
pub open spec fn appended_all<T>(retained: Seq<T>, batches: Seq<Seq<T>>, capacity: nat) -> Seq<T>
    decreases batches.len(),
{
    if batches.len() == 0 {
        retained
    } else {
        appended(appended_all(retained, batches.drop_last(), capacity), batches.last(), capacity)
    }
}

/// The batches laid end to end.
pub open spec fn joined<T>(batches: Seq<Seq<T>>) -> Seq<T>
    decreases batches.len(),
{
    if batches.len() == 0 {
        Seq::empty()
    } else {
        joined(batches.drop_last()) + batches.last()
    }
}

/// Appending keeps as many of the newest entries as the capacity allows, in
/// the order in which they came.
pub proof fn lemma_appended_keeps_newest<T>(retained: Seq<T>, batch: Seq<T>, capacity: nat)
    ensures
        appended(retained, batch, capacity).len() == if retained.len() + batch.len() <= capacity {
            retained.len() + batch.len()
        } else {
            capacity
        },
        forall|j: int|
            0 <= j < appended(retained, batch, capacity).len() ==> #[trigger] appended(
                retained,
                batch,
                capacity,
            )[j] == (retained + batch)[j + (retained.len() + batch.len() - appended(
                retained,
                batch,
                capacity,
            ).len())],
{
}

/// Appending two batches one after the other leaves what appending both at
/// once leaves.
pub proof fn lemma_appended_twice<T>(
    retained: Seq<T>,
    first: Seq<T>,
    second: Seq<T>,
    capacity: nat,
)
    ensures
        appended(appended(retained, first, capacity), second, capacity) == appended(
            retained,
            first + second,
            capacity,
        ),
{
    assert(appended(appended(retained, first, capacity), second, capacity) =~= appended(
        retained,
        first + second,
        capacity,
    ));
}

/// However many batches are appended to a store that is within its
/// capacity, and however they are cut, the store ends up with the newest
/// entries of all that was ever in it, as many as the capacity allows (all
/// of them where they are fewer), in the order in which they came.
pub proof fn lemma_eviction_keeps_order_and_capacity<T>(
    retained: Seq<T>,
    batches: Seq<Seq<T>>,
    capacity: nat,
)
    requires
        retained.len() <= capacity,
    ensures
        appended_all(retained, batches, capacity) == appended(retained, joined(batches), capacity),
        appended_all(retained, batches, capacity).len() == if retained.len() + joined(
            batches,
        ).len() <= capacity {
            retained.len() + joined(batches).len()
        } else {
            capacity
        },
        forall|j: int|
            0 <= j < appended_all(retained, batches, capacity).len() ==> #[trigger] appended_all(
                retained,
                batches,
                capacity,
            )[j] == (retained + joined(batches))[j + (retained.len() + joined(batches).len()
                - appended_all(retained, batches, capacity).len())],
    decreases batches.len(),
{
    if batches.len() == 0 {
        assert(retained + Seq::<T>::empty() =~= retained);
    } else {
        lemma_eviction_keeps_order_and_capacity(retained, batches.drop_last(), capacity);
        lemma_appended_twice(retained, joined(batches.drop_last()), batches.last(), capacity);
    }
    lemma_appended_keeps_newest(retained, joined(batches), capacity);
}

/// The bounded store: lines from the oldest to the newest, never more than
/// its capacity.
pub struct LineCollection {
    entries: VecDeque<Line>,
    capacity: usize,
    decoder: Option<AnsiDecoder>,
}

impl View for LineCollection {
    type V = Seq<Line>;

    closed spec fn view(&self) -> Seq<Line> {
        self.entries@
    }
}

impl LineCollection {
    #[verifier::type_invariant]
    spec fn within_capacity(self) -> bool {
        self.entries@.len() <= self.capacity
    }

    /// The most lines that the store retains.
    pub closed spec fn capacity_view(&self) -> nat {
        self.capacity as nat
    }

    /// The patterns by which the store takes apart what comes in, if it has
    /// them.
    pub closed spec fn decoder_view(&self) -> Option<Patterns> {
        held_decoder_view(self.decoder)
    }

    /// The payloads of the retained lines, oldest first.
    pub open spec fn contents(&self) -> Seq<Seq<char>> {
        Seq::new(self@.len(), |i: int| self@[i].content@)
    }

    /// An empty store that retains at most `capacity` lines.
    pub fn new(capacity: usize) -> (store: LineCollection)
        ensures
            store@.len() == 0,
            store.capacity_view() == capacity,
            store.decoder_view() == standard_decoder(),
    {
        LineCollection { entries: VecDeque::new(), capacity, decoder: AnsiDecoder::new() }
    }

    /// An empty store that retains at most `capacity` lines and takes apart
    /// what comes in with the given decoder.
    pub fn with_decoder(capacity: usize, decoder: Option<AnsiDecoder>) -> (store: LineCollection)
        ensures
            store@.len() == 0,
            store.capacity_view() == capacity,
            store.decoder_view() == held_decoder_view(decoder),
    {
        LineCollection { entries: VecDeque::new(), capacity, decoder }
    }

    /// The most lines that the store retains.
    pub fn capacity(&self) -> (capacity: usize)
        ensures
            capacity == self.capacity_view(),
            self@.len() <= capacity,
    {
        proof {
            use_type_invariant(self);
        }
        self.capacity
    }

    /// The number of lines retained.
    pub fn len(&self) -> (len: usize)
        ensures
            len == self@.len(),
            len <= self.capacity_view(),
    {
        proof {
            use_type_invariant(self);
        }
        self.entries.len()
    }

    /// The line at `index`, counted from the oldest.
    pub fn get(&self, index: usize) -> (line: Option<&Line>)
        ensures
            index < self@.len() ==> line == Some(&self@[index as int]),
            index >= self@.len() ==> line is None,
    {
        if index < self.entries.len() {
            Some(&self.entries[index])
        } else {
            None
        }
    }

    /// Appends a batch of payloads, oldest first, then drops lines from the
    /// oldest end until the capacity is met.
    pub fn extend(&mut self, batch: Vec<String>)
        ensures
            final(self).capacity_view() == old(self).capacity_view(),
            final(self).decoder_view() == old(self).decoder_view(),
            final(self).contents() == appended(
                old(self).contents(),
                payloads(batch@),
                old(self).capacity_view(),
            ),
            taken_in(
                old(self)@,
                batch@,
                final(self)@,
                old(self).capacity_view(),
                old(self).decoder_view(),
            ),
    {
        proof {
            use_type_invariant(&*self);
        }
        let capacity = self.capacity;
        let mut taken = LineCollection { entries: VecDeque::new(), capacity, decoder: None };
        std::mem::swap(self, &mut taken);
        let LineCollection { entries, decoder, .. } = taken;
        let mut entries = entries;
        let ghost stripped_by = held_decoder_view(decoder);
        let ghost before = entries@;
        let mut i: usize = 0;
        while i < batch.len()
            invariant
                i <= batch@.len(),
                entries@.len() == before.len() + i,
                stripped_by == held_decoder_view(decoder),
                forall|k: int| 0 <= k < before.len() ==> entries@[k] == before[k],
                forall|k: int|
                    before.len() <= k < before.len() + i ==> (#[trigger] entries@[k]).made_from(
                        batch@[k - before.len()]@,
                        stripped_by,
                    ),
            decreases batch@.len() - i,
        {
            let ghost earlier = entries@;
            push_line(&mut entries, batch[i].clone(), decoder.as_ref());
            assert forall|k: int| 0 <= k < earlier.len() implies entries@[k] == earlier[k] by {
                assert(entries@.drop_last()[k] == earlier[k]);
            }
            assert forall|k: int| before.len() <= k < before.len() + i + 1 implies (
            #[trigger] entries@[k]).made_from(batch@[k - before.len()]@, stripped_by) by {
                if k < before.len() + i {
                    assert(earlier[k].made_from(batch@[k - before.len()]@, stripped_by));
                } else {
                    assert(entries@[k] == entries@.last());
                }
            }
            i += 1;
        }
        let ghost all = entries@;
        clear_excess(&mut entries, capacity);
        proof {
            let texts = Seq::new(before.len(), |i: int| before[i].content@) + payloads(batch@);
            assert forall|j: int| 0 <= j < entries@.len() implies entries@[j].content@ == appended(
                Seq::new(before.len(), |i: int| before[i].content@),
                payloads(batch@),
                capacity as nat,
            )[j] by {
                let k = j + (all.len() - entries@.len());
                if k >= before.len() {
                    assert(all[k].made_from(batch@[k - before.len()]@, stripped_by));
                }
                assert(texts[k] == all[k].content@);
            }
            assert(Seq::new(entries@.len(), |i: int| entries@[i].content@) =~= appended(
                Seq::new(before.len(), |i: int| before[i].content@),
                payloads(batch@),
                capacity as nat,
            ));
        }
        *self = LineCollection { entries, capacity, decoder };
    }
}

/// Makes a line of `item` and puts it behind the newest.
fn push_line(entries: &mut VecDeque<Line>, item: String, decoder: Option<&AnsiDecoder>)
    ensures
        final(entries)@.len() == old(entries)@.len() + 1,
        final(entries)@.drop_last() == old(entries)@,
        final(entries)@.last().made_from(item@, decoder_view(decoder)),
{
    entries.push_back(Line::with_decoder(item, decoder));
}

/// Drops lines from the oldest end until no more than `capacity` are left.
fn clear_excess(entries: &mut VecDeque<Line>, capacity: usize)
    ensures
        final(entries)@ == appended(Seq::<Line>::empty(), old(entries)@, capacity as nat),
{
    let ghost all = entries@;
    while entries.len() > capacity
        invariant
            entries@.len() <= all.len(),
            entries@ == all.skip(all.len() - entries@.len()),
            entries@.len() >= capacity || entries@.len() == all.len(),
        decreases entries@.len(),
    {
        entries.pop_front();
    }
}

} // verus!
