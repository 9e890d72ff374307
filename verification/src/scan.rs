//! The backward scan: from the newest line to the oldest, gathering the
//! lines of each block and handing the blocks out one behind the other.

use crate::filter::{
    step, transition, Constraint, Filter, Hits, Kind, ParserResult, Signal, State,
};
use crate::line::LineCollection;
use vstd::prelude::*;

verus! {

/// What is left to come out of a scan when the lines `0..remaining` are
/// still to be judged, the parser is in `state`, and `pending` holds the
/// lines gathered for the block under construction, newest first.
///
/// A line that matches joins the block. A last match closes the block, which
/// comes out, with the line itself where the verdict says so. An invalid
/// verdict drops the block, and the same line is judged once more, as the
/// possible opening of the next block. At the oldest line an open block
/// comes out only for the kinds that keep it.
pub open spec fn scan_from(
    kind: Kind,
    hits: Seq<Hits>,
    remaining: nat,
    state: State,
    pending: Seq<usize>,
) -> Seq<usize>
    decreases remaining,
{
    if remaining == 0 {
        if kind.keeps_open_block() {
            pending
        } else {
            Seq::empty()
        }
    } else {
        let index = (remaining - 1) as nat;
        let (next, verdict) = step(kind, state, hits[index as int]);
        match verdict {
            ParserResult::Match => scan_from(kind, hits, index, next, pending.push(index as usize)),
            ParserResult::NoMatch => scan_from(kind, hits, index, next, pending),
            ParserResult::LastMatch(keep) => (if keep {
                pending.push(index as usize)
            } else {
                pending
            }) + scan_from(kind, hits, index, next, Seq::empty()),
            ParserResult::Invalid => {
                let (again, second) = step(kind, next, hits[index as int]);
                scan_from(
                    kind,
                    hits,
                    index,
                    again,
                    if second == ParserResult::Match {
                        seq![index as usize]
                    } else {
                        Seq::empty()
                    },
                )
            },
        }
    }
}

/// The indices that a scan of lines with the answers `hits` (oldest first)
/// yields for a filter of the given kind, newest first.
pub open spec fn scan_of(kind: Kind, hits: Seq<Hits>) -> Seq<usize> {
    scan_from(kind, hits, hits.len(), State::initial(), Seq::empty())
}

/// The answers of a filter for each line of a store, oldest first.
pub open spec fn hits_in(filter: &Filter, lines: &LineCollection) -> Seq<Hits> {
    Seq::new(lines@.len(), |i: int| filter.hits_of(lines@[i].content_without_ansi@))
}

/// Scans lines whose answers are given, oldest first, and returns the
/// indices of the lines that belong to blocks, newest first.
pub fn scan(kind: Kind, hits: &Vec<Hits>) -> (found: Vec<usize>)
    ensures
        found@ == scan_of(kind, hits@),
{
    let mut found: Vec<usize> = Vec::new();
    let mut pending: Vec<usize> = Vec::new();
    let mut state = State::new();
    let mut remaining: usize = hits.len();
    while remaining > 0
        invariant
            remaining <= hits@.len(),
            found@ + scan_from(kind, hits@, remaining as nat, state, pending@) == scan_of(
                kind,
                hits@,
            ),
        decreases remaining,
    {
        let index: usize = remaining - 1;
        let ghost rest = scan_from(kind, hits@, remaining as nat, state, pending@);
        let (next, verdict) = transition(kind, state, hits[index]);
        match verdict {
            ParserResult::Match => {
                pending.push(index);
            },
            ParserResult::NoMatch => {},
            ParserResult::LastMatch(keep) => {
                if keep {
                    pending.push(index);
                }
                let ghost block = pending@;
                let ghost before = found@;
                found.append(&mut pending);
                proof {
                    let tail = scan_from(kind, hits@, index as nat, next, Seq::empty());
                    assert(rest == block + tail);
                    assert((before + block) + tail =~= before + (block + tail));
                }
            },
            ParserResult::Invalid => {
                pending.clear();
                let (again, second) = transition(kind, next, hits[index]);
                match second {
                    ParserResult::Match => {
                        pending.push(index);
                    },
                    _ => {},
                }
                state = again;
                remaining = index;
                continue ;
            },
        }
        state = next;
        remaining = index;
    }
    if kind.assume_found_matches() {
        found.append(&mut pending);
    } else {
        assert(found@ + Seq::<usize>::empty() =~= found@);
    }
    found
}

/// Asks the filter's patterns about every line of the store, oldest first.
pub fn collect_hits(filter: &Filter, lines: &LineCollection) -> (hits: Vec<Hits>)
    ensures
        hits@ == hits_in(filter, lines),
{
    let mut hits: Vec<Hits> = Vec::new();
    let mut i: usize = 0;
    let len = lines.len();
    while i < len
        invariant
            len == lines@.len(),
            i <= len,
            hits@.len() == i,
            forall|k: int|
                0 <= k < i ==> hits@[k] == filter.hits_of(lines@[k].content_without_ansi@),
        decreases len - i,
    {
        match lines.get(i) {
            Some(line) => hits.push(filter.hits(line.content_without_ansi.as_str())),
            None => {},
        }
        i += 1;
    }
    hits
}

/// Scans the store for the filter: the indices of the lines that belong to
/// the filter's blocks, newest first.
pub fn parse(lines: &LineCollection, filter: &Filter) -> (found: Vec<usize>)
    ensures
        found@ == scan_of(filter.kind_view(), hits_in(filter, lines)),
{
    let hits = collect_hits(filter, lines);
    scan(filter.kind(), &hits)
}

/// The entries of `found` on one side of `position`, in their order: those
/// before it, or those behind it.
pub open spec fn side_of(found: Seq<usize>, position: usize, before: bool) -> Seq<usize>
    decreases found.len(),
{
    if found.len() == 0 {
        Seq::empty()
    } else {
        let rest = side_of(found.drop_last(), position, before);
        let index = found.last();
        if (before && index < position) || (!before && index > position) {
            rest.push(index)
        } else {
            rest
        }
    }
}

/// The entries of `found` that lie before `position`, in their order.
pub open spec fn older_than(found: Seq<usize>, position: usize) -> Seq<usize> {
    side_of(found, position, true)
}

/// The entries of `found` that lie behind `position`, in their order.
pub open spec fn newer_than(found: Seq<usize>, position: usize) -> Seq<usize> {
    side_of(found, position, false)
}

/// The first `count` entries of a sequence, or all where there are fewer.
pub open spec fn first_of(entries: Seq<usize>, count: usize) -> Seq<usize> {
    if count <= entries.len() {
        entries.take(count as int)
    } else {
        entries
    }
}

/// The last `count` entries of a sequence, or all where there are fewer.
pub open spec fn last_of(entries: Seq<usize>, count: usize) -> Seq<usize> {
    if count <= entries.len() {
        entries.skip(entries.len() - count)
    } else {
        entries
    }
}

/// The entries of `found` on one side of `position`: those before it or
/// those behind it.
fn on_one_side(found: &Vec<usize>, position: usize, before: bool) -> (side: Vec<usize>)
    ensures
        side@ == side_of(found@, position, before),
{
    let mut side: Vec<usize> = Vec::new();
    let mut i: usize = 0;
    while i < found.len()
        invariant
            i <= found@.len(),
            side@ == side_of(found@.take(i as int), position, before),
        decreases found@.len() - i,
    {
        assert(found@.take(i + 1).drop_last() =~= found@.take(i as int));
        let index = found[i];
        if (before && index < position) || (!before && index > position) {
            side.push(index);
        }
        i += 1;
    }
    assert(found@.take(found@.len() as int) =~= found@);
    side
}

/// The next `count` lines before `position` that belong to the filter's
/// blocks, or all where there are fewer: the nearest first.
pub fn matching_before(
    lines: &LineCollection,
    filter: &Filter,
    position: usize,
    count: usize,
) -> (found: Vec<usize>)
    ensures
        found@ == first_of(
            older_than(scan_of(filter.kind_view(), hits_in(filter, lines)), position),
            count,
        ),
{
    let all = parse(lines, filter);
    let mut side = on_one_side(&all, position, true);
    if count < side.len() {
        side.truncate(count);
    }
    side
}

/// The next `count` lines behind `position` that belong to the filter's
/// blocks, or all where there are fewer: the nearest first.
pub fn matching_after(
    lines: &LineCollection,
    filter: &Filter,
    position: usize,
    count: usize,
) -> (found: Vec<usize>)
    ensures
        found@ == last_of(
            newer_than(scan_of(filter.kind_view(), hits_in(filter, lines)), position),
            count,
        ).reverse(),
{
    let all = parse(lines, filter);
    let side = on_one_side(&all, position, false);
    let ghost wanted = last_of(side@, count);
    let stop: usize = if count <= side.len() {
        side.len() - count
    } else {
        0
    };
    let mut found: Vec<usize> = Vec::new();
    let mut left: usize = side.len();
    while left > stop
        invariant
            stop <= left <= side@.len(),
            stop == side@.len() - wanted.len(),
            wanted == side@.skip(stop as int),
            found@.len() == side@.len() - left,
            forall|j: int| 0 <= j < found@.len() ==> found@[j] == side@[side@.len() - 1 - j],
        decreases left,
    {
        left -= 1;
        found.push(side[left]);
    }
    found
}

/// Whether each entry is greater than the one behind it.
pub open spec fn descending(indices: Seq<usize>) -> bool {
    forall|i: int, j: int| 0 <= i < j < indices.len() ==> indices[i] > indices[j]
}

/// The indices below `count`, from the greatest down.
pub open spec fn run_below(count: nat) -> Seq<usize> {
    Seq::new(count, |j: int| (count - 1 - j) as usize)
}

/// The index of the newest of the lines `0..remaining` whose end marker is a
/// strong one, or -1 where there is none.
pub open spec fn newest_strong_end(hits: Seq<Hits>, remaining: nat) -> int
    decreases remaining,
{
    if remaining == 0 {
        -1
    } else if hits[remaining - 1].end == Signal::Strong {
        remaining - 1
    } else {
        newest_strong_end(hits, (remaining - 1) as nat)
    }
}

proof fn lemma_scan_from_descending(
    kind: Kind,
    hits: Seq<Hits>,
    remaining: nat,
    state: State,
    pending: Seq<usize>,
)
    requires
        remaining <= hits.len() <= usize::MAX,
        descending(pending),
        forall|i: int|
            0 <= i < pending.len() ==> remaining <= #[trigger] pending[i] && pending[i]
                < hits.len(),
    ensures
        descending(scan_from(kind, hits, remaining, state, pending)),
        forall|i: int|
            0 <= i < scan_from(kind, hits, remaining, state, pending).len() ==> {
                let found = #[trigger] scan_from(kind, hits, remaining, state, pending)[i];
                found < hits.len() && (found < remaining || pending.contains(found))
            },
    decreases remaining,
{
    let result = scan_from(kind, hits, remaining, state, pending);
    if remaining == 0 {
        assert forall|i: int| 0 <= i < result.len() implies pending.contains(
            #[trigger] result[i],
        ) by {
            assert(pending[i] == result[i]);
        }
    } else {
        let index = (remaining - 1) as nat;
        let (next, verdict) = step(kind, state, hits[index as int]);
        let joined = pending.push(index as usize);
        match verdict {
            ParserResult::Match => {
                lemma_scan_from_descending(kind, hits, index, next, joined);
                assert forall|i: int| 0 <= i < result.len() implies ({
                    let found = #[trigger] result[i];
                    found < hits.len() && (found < remaining || pending.contains(found))
                }) by {
                    let found = result[i];
                    if found >= remaining {
                        let at = choose|at: int| 0 <= at < joined.len() && joined[at] == found;
                        assert(at < pending.len());
                        assert(pending[at] == found);
                    }
                }
            },
            ParserResult::NoMatch => {
                lemma_scan_from_descending(kind, hits, index, next, pending);
            },
            ParserResult::LastMatch(keep) => {
                let block = if keep {
                    joined
                } else {
                    pending
                };
                let tail = scan_from(kind, hits, index, next, Seq::empty());
                lemma_scan_from_descending(kind, hits, index, next, Seq::empty());
                assert forall|i: int| 0 <= i < tail.len() implies #[trigger] tail[i] < index by {
                    let found = tail[i];
                    if found >= index {
                        assert(Seq::<usize>::empty().contains(found));
                    }
                }
                assert forall|i: int, j: int| 0 <= i < j < result.len() implies result[i]
                    > result[j] by {
                    if j < block.len() {
                        assert(block[i] > block[j]);
                    } else if i < block.len() {
                        assert(tail[j - block.len()] < index);
                    } else {
                        assert(tail[i - block.len()] > tail[j - block.len()]);
                    }
                }
                assert forall|i: int| 0 <= i < result.len() implies ({
                    let found = #[trigger] result[i];
                    found < hits.len() && (found < remaining || pending.contains(found))
                }) by {
                    if i < block.len() {
                        if i < pending.len() {
                            assert(pending[i] == result[i]);
                        }
                    } else {
                        assert(tail[i - block.len()] < index);
                    }
                }
            },
            ParserResult::Invalid => {
                let (again, second) = step(kind, next, hits[index as int]);
                let fresh = if second == ParserResult::Match {
                    seq![index as usize]
                } else {
                    Seq::empty()
                };
                lemma_scan_from_descending(kind, hits, index, again, fresh);
                assert forall|i: int| 0 <= i < result.len() implies ({
                    let found = #[trigger] result[i];
                    found < hits.len() && (found < remaining || pending.contains(found))
                }) by {
                    let found = result[i];
                    if found >= remaining {
                        let at = choose|at: int| 0 <= at < fresh.len() && fresh[at] == found;
                        assert(fresh[at] == index);
                    }
                }
            },
        }
    }
}

/// Whatever the kind of the filter and whatever the patterns answer, a scan
/// hands out indices of the lines scanned, each smaller than the one before
/// it: no line comes out twice, in one block or in two, and the lines come
/// out in the order of the store, newest first.
pub proof fn lemma_scan_yields_each_line_once(kind: Kind, hits: Seq<Hits>)
    requires
        hits.len() <= usize::MAX,
    ensures
        descending(scan_of(kind, hits)),
        forall|i: int| 0 <= i < scan_of(kind, hits).len() ==> scan_of(kind, hits)[i] < hits.len(),
        forall|i: int, j: int|
            0 <= i < j < scan_of(kind, hits).len() ==> scan_of(kind, hits)[i] != scan_of(
                kind,
                hits,
            )[j],
{
    lemma_scan_from_descending(kind, hits, hits.len(), State::initial(), Seq::empty());
}

proof fn lemma_scan_from_empty(hits: Seq<Hits>, remaining: nat, state: State, pending: Seq<usize>)
    requires
        remaining <= hits.len(),
    ensures
        scan_from(Kind::Empty, hits, remaining, state, pending) == pending + run_below(remaining),
    decreases remaining,
{
    if remaining == 0 {
        assert(pending + run_below(0) =~= pending);
    } else {
        let index = (remaining - 1) as nat;
        lemma_scan_from_empty(hits, index, state, pending.push(index as usize));
    }
}

/// A filter without constraints lets every line through: a scan of `n`
/// lines yields `n` indices, all of them, in the order of the store, newest
/// first.
pub proof fn lemma_empty_filter_matches_everything(hits: Seq<Hits>)
    ensures
        scan_of(Kind::Empty, hits) == run_below(hits.len()),
        scan_of(Kind::Empty, hits).len() == hits.len(),
{
    lemma_scan_from_empty(hits, hits.len(), State::initial(), Seq::empty());
}

proof fn lemma_scan_from_content(hits: Seq<Hits>, remaining: nat, state: State, pending: Seq<usize>)
    requires
        remaining <= hits.len() <= usize::MAX,
    ensures
        forall|index: usize|
            #[trigger] scan_from(Kind::Content, hits, remaining, state, pending).contains(index)
                <==> (pending.contains(index) || (index < remaining && hits[index as int].content)),
    decreases remaining,
{
    let result = scan_from(Kind::Content, hits, remaining, state, pending);
    if remaining > 0 {
        let at = (remaining - 1) as nat;
        let joined = pending.push(at as usize);
        let carried = if hits[at as int].content {
            joined
        } else {
            pending
        };
        lemma_scan_from_content(hits, at, state, carried);
        assert(result == scan_from(Kind::Content, hits, at, state, carried));
        assert forall|index: usize| #[trigger] result.contains(index) <==> (pending.contains(index)
            || (index < remaining && hits[index as int].content)) by {
            if joined.contains(index) {
                let k = choose|k: int| 0 <= k < joined.len() && joined[k] == index;
                if k < pending.len() {
                    assert(pending[k] == index);
                }
            }
            if pending.contains(index) {
                let k = choose|k: int| 0 <= k < pending.len() && pending[k] == index;
                assert(joined[k] == index);
            }
            if index == at {
                assert(joined[pending.len() as int] == index);
            }
        }
    }
}

/// A filter with a content pattern only is a plain predicate: a line comes
/// out of the scan exactly if its text matches the pattern, whatever its
/// neighbours are, and the lines that come out keep the order of the store.
pub proof fn lemma_content_filter_is_a_predicate(hits: Seq<Hits>)
    requires
        hits.len() <= usize::MAX,
    ensures
        forall|index: usize|
            #[trigger] scan_of(Kind::Content, hits).contains(index) <==> (index < hits.len()
                && hits[index as int].content),
        descending(scan_of(Kind::Content, hits)),
        forall|state: State, line: Hits| #[trigger] step(Kind::Content, state, line).0 == state,
{
    lemma_scan_from_content(hits, hits.len(), State::initial(), Seq::empty());
    lemma_scan_yields_each_line_once(Kind::Content, hits);
    assert forall|index: usize| #[trigger]
        scan_of(Kind::Content, hits).contains(index) <==> (index < hits.len()
            && hits[index as int].content) by {
        assert(!Seq::<usize>::empty().contains(index));
    }
}

/// Whether each of the lines `0..remaining` either bears a strong end marker
/// or none at all.
pub open spec fn ends_are_strong(hits: Seq<Hits>, remaining: nat) -> bool {
    forall|i: int|
        0 <= i < remaining ==> (#[trigger] hits[i]).end == Signal::Strong || hits[i].end
            == Signal::Miss
}

proof fn lemma_scan_from_end(hits: Seq<Hits>, remaining: nat, state: State, pending: Seq<usize>)
    requires
        remaining <= hits.len(),
        ends_are_strong(hits, remaining),
    ensures
        scan_from(Kind::End, hits, remaining, state, pending) == pending + run_below(
            if state.active == Constraint::End {
                remaining
            } else {
                (newest_strong_end(hits, remaining) + 1) as nat
            },
        ),
    decreases remaining,
{
    if remaining == 0 {
        assert(pending + run_below(0) =~= pending);
    } else {
        let index = (remaining - 1) as nat;
        let (next, verdict) = step(Kind::End, state, hits[index as int]);
        let joined = pending.push(index as usize);
        if state.active == Constraint::End {
            if hits[index as int].end == Signal::Strong {
                lemma_scan_from_end(hits, index, next, Seq::empty());
                assert(joined + (Seq::<usize>::empty() + run_below(index)) =~= joined + run_below(
                    index,
                ));
            } else {
                lemma_scan_from_end(hits, index, next, joined);
            }
        } else {
            if hits[index as int].end == Signal::Strong {
                lemma_scan_from_end(hits, index, next, joined);
            } else {
                lemma_scan_from_end(hits, index, next, pending);
            }
        }
    }
}

/// With an end boundary only, and lines that either bear the strong end
/// marker or none: every line up to the newest marker comes out, each run of
/// lines with the marker that follows it, and the run at the oldest end of
/// the store with them though no marker precedes it; what lies behind the
/// newest marker stays out.
pub proof fn lemma_end_filter_shows_all_up_to_newest_marker(hits: Seq<Hits>)
    requires
        ends_are_strong(hits, hits.len()),
    ensures
        scan_of(Kind::End, hits) == run_below((newest_strong_end(hits, hits.len()) + 1) as nat),
        -1 <= newest_strong_end(hits, hits.len()) < hits.len(),
        newest_strong_end(hits, hits.len()) >= 0 ==> hits[newest_strong_end(
            hits,
            hits.len(),
        )].end == Signal::Strong,
        forall|i: int|
            newest_strong_end(hits, hits.len()) < i < hits.len() ==> (#[trigger] hits[i]).end
                != Signal::Strong,
{
    lemma_scan_from_end(hits, hits.len(), State::initial(), Seq::empty());
    assert(Seq::<usize>::empty() + run_below((newest_strong_end(hits, hits.len()) + 1) as nat)
        =~= run_below((newest_strong_end(hits, hits.len()) + 1) as nat));
    lemma_newest_strong_end(hits, hits.len());
}

proof fn lemma_newest_strong_end(hits: Seq<Hits>, remaining: nat)
    requires
        remaining <= hits.len(),
    ensures
        -1 <= newest_strong_end(hits, remaining) < remaining,
        newest_strong_end(hits, remaining) >= 0 ==> hits[newest_strong_end(hits, remaining)].end
            == Signal::Strong,
        forall|i: int|
            newest_strong_end(hits, remaining) < i < remaining ==> (#[trigger] hits[i]).end
                != Signal::Strong,
    decreases remaining,
{
    if remaining > 0 && hits[remaining - 1].end != Signal::Strong {
        lemma_newest_strong_end(hits, (remaining - 1) as nat);
    }
}

} // verus!
