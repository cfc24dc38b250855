//! The parts of a line that are set off: the matches of several patterns,
//! merged into spans that do not overlap, and the line cut along them.

use vstd::prelude::*;

verus! {

/// Whether each span starts no later than it ends.
pub open spec fn all_ordered(spans: Seq<(usize, usize)>) -> bool {
    forall|i: int| 0 <= i < spans.len() ==> (#[trigger] spans[i]).0 <= spans[i].1
}

/// Whether the spans come by ascending start.
pub open spec fn sorted_by_start(spans: Seq<(usize, usize)>) -> bool {
    forall|i: int, j: int|
        0 <= i < j < spans.len() ==> (#[trigger] spans[i]).0 <= (#[trigger] spans[j]).0
}

/// Whether each span ends before the next one starts: no two overlap, and
/// no two touch.
pub open spec fn separated(spans: Seq<(usize, usize)>) -> bool {
    forall|i: int, j: int|
        0 <= i < j < spans.len() ==> (#[trigger] spans[i]).1 < (#[trigger] spans[j]).0
}

/// Whether the span `a` lies within the span `b`.
pub open spec fn within(a: (usize, usize), b: (usize, usize)) -> bool {
    b.0 <= a.0 && a.1 <= b.1
}

/// Whether `span` lies within one of `spans`.
pub open spec fn held_in(span: (usize, usize), spans: Seq<(usize, usize)>) -> bool {
    exists|j: int| 0 <= j < spans.len() && within(span, #[trigger] spans[j])
}

/// Whether one of `spans` starts at `at`.
pub open spec fn has_start(spans: Seq<(usize, usize)>, at: usize) -> bool {
    exists|i: int| 0 <= i < spans.len() && (#[trigger] spans[i]).0 == at
}

/// Whether one of `spans` ends at `at`.
pub open spec fn has_end(spans: Seq<(usize, usize)>, at: usize) -> bool {
    exists|i: int| 0 <= i < spans.len() && (#[trigger] spans[i]).1 == at
}

/// Whether the offset `p` lies in one of `spans`, each taken as a half-open
/// range.
pub open spec fn covered(spans: Seq<(usize, usize)>, p: int) -> bool {
    exists|i: int| 0 <= i < spans.len() && (#[trigger] spans[i]).0 <= p < spans[i].1
}

/// Whether `merged` is what `spans` merge into. Its spans are ordered and
/// apart from each other. Each of `spans` lies within one of them. And
/// none of them is wider than `spans` make it: it starts where one of
/// `spans` starts, ends where one ends, and every offset in it lies in one
/// of `spans`.
pub open spec fn is_merge_of(merged: Seq<(usize, usize)>, spans: Seq<(usize, usize)>) -> bool {
    &&& all_ordered(merged)
    &&& separated(merged)
    &&& forall|i: int| 0 <= i < spans.len() ==> #[trigger] held_in(spans[i], merged)
    &&& forall|j: int| 0 <= j < merged.len() ==> #[trigger] has_start(spans, merged[j].0)
    &&& forall|j: int| 0 <= j < merged.len() ==> #[trigger] has_end(spans, merged[j].1)
    &&& forall|j: int, p: int|
        0 <= j < merged.len() && (#[trigger] merged[j]).0 <= p < merged[j].1 ==> #[trigger] covered(
            spans,
            p,
        )
}

/// Whether the two sequences hold the same spans, whatever their order and
/// number.
pub open spec fn same_members(a: Seq<(usize, usize)>, b: Seq<(usize, usize)>) -> bool {
    &&& forall|i: int| 0 <= i < a.len() ==> #[trigger] b.contains(a[i])
    &&& forall|j: int| 0 <= j < b.len() ==> #[trigger] a.contains(b[j])
}

/// What some spans merge into, other spans with the same members merge
/// into too.
pub proof fn lemma_merge_same_members(
    merged: Seq<(usize, usize)>,
    a: Seq<(usize, usize)>,
    b: Seq<(usize, usize)>,
)
    requires
        is_merge_of(merged, a),
        same_members(a, b),
    ensures
        is_merge_of(merged, b),
{
    assert forall|i: int| 0 <= i < b.len() implies #[trigger] held_in(b[i], merged) by {
        assert(a.contains(b[i]));
    }
    assert forall|j: int| 0 <= j < merged.len() implies #[trigger] has_start(b, merged[j].0) by {
        assert(has_start(a, merged[j].0));
        let s = choose|i: int| 0 <= i < a.len() && (#[trigger] a[i]).0 == merged[j].0;
        assert(b.contains(a[s]));
    }
    assert forall|j: int| 0 <= j < merged.len() implies #[trigger] has_end(b, merged[j].1) by {
        assert(has_end(a, merged[j].1));
        let e = choose|i: int| 0 <= i < a.len() && (#[trigger] a[i]).1 == merged[j].1;
        assert(b.contains(a[e]));
    }
    assert forall|j: int, p: int|
        0 <= j < merged.len() && (#[trigger] merged[j]).0 <= p
            < merged[j].1 implies #[trigger] covered(b, p) by {
        assert(covered(a, p));
        let i = choose|i: int| 0 <= i < a.len() && (#[trigger] a[i]).0 <= p < a[i].1;
        assert(b.contains(a[i]));
    }
}

/// No offset at which a merged span ends lies in one of the spans that
/// were merged: else that span would reach beyond the merged one that
/// holds it.
proof fn lemma_end_not_covered(merged: Seq<(usize, usize)>, spans: Seq<(usize, usize)>, m: int)
    requires
        is_merge_of(merged, spans),
        0 <= m < merged.len(),
    ensures
        !covered(spans, merged[m].1 as int),
{
    let p = merged[m].1 as int;
    if covered(spans, p) {
        let i = choose|i: int| 0 <= i < spans.len() && (#[trigger] spans[i]).0 <= p < spans[i].1;
        assert(held_in(spans[i], merged));
    }
}

/// Each span of one merge of some spans is a span of every other merge of
/// them.
proof fn lemma_merged_span_shared(
    a: Seq<(usize, usize)>,
    b: Seq<(usize, usize)>,
    spans: Seq<(usize, usize)>,
    j: int,
)
    requires
        all_ordered(spans),
        is_merge_of(a, spans),
        is_merge_of(b, spans),
        0 <= j < a.len(),
    ensures
        b.contains(a[j]),
{
    assert(has_start(spans, a[j].0));
    let s = choose|i: int| 0 <= i < spans.len() && (#[trigger] spans[i]).0 == a[j].0;
    assert(held_in(spans[s], b));
    let k = choose|k: int| 0 <= k < b.len() && within(spans[s], #[trigger] b[k]);
    if b[k].0 < a[j].0 {
        assert(has_start(spans, b[k].0));
        let t = choose|i: int| 0 <= i < spans.len() && (#[trigger] spans[i]).0 == b[k].0;
        assert(held_in(spans[t], a));
        let m = choose|m: int| 0 <= m < a.len() && within(spans[t], #[trigger] a[m]);
        lemma_end_not_covered(a, spans, m);
    }
    if a[j].1 < b[k].1 {
        lemma_end_not_covered(a, spans, j);
    }
    if b[k].1 < a[j].1 {
        lemma_end_not_covered(b, spans, k);
    }
}

/// Two sequences of spans that are ordered and apart from each other, and
/// that hold the same spans, are the same sequence.
proof fn lemma_separated_equal(a: Seq<(usize, usize)>, b: Seq<(usize, usize)>)
    requires
        all_ordered(a),
        separated(a),
        all_ordered(b),
        separated(b),
        same_members(a, b),
    ensures
        a == b,
    decreases a.len(),
{
    if a.len() == 0 {
        if b.len() > 0 {
            assert(a.contains(b[0]));
        }
    } else {
        let last = a.len() - 1;
        assert(b.contains(a[last]));
        let k = choose|k: int| 0 <= k < b.len() && b[k] == a[last];
        let blast = b.len() - 1;
        if k < blast {
            assert(a.contains(b[blast]));
        }
        let a0 = a.drop_last();
        let b0 = b.drop_last();
        assert forall|i: int| 0 <= i < a0.len() implies #[trigger] b0.contains(a0[i]) by {
            assert(b.contains(a[i]));
            let k2 = choose|k2: int| 0 <= k2 < b.len() && b[k2] == a[i];
            assert(b0[k2] == a0[i]);
        }
        assert forall|i: int| 0 <= i < b0.len() implies #[trigger] a0.contains(b0[i]) by {
            assert(a.contains(b[i]));
            let j2 = choose|j2: int| 0 <= j2 < a.len() && a[j2] == b[i];
            assert(a0[j2] == b0[i]);
        }
        lemma_separated_equal(a0, b0);
        assert(a == a0.push(a[last]));
    }
}

/// Spans that are ordered and apart from each other merge into
/// themselves: to merge a second time changes nothing.
pub proof fn lemma_merge_of_merged(merged: Seq<(usize, usize)>)
    requires
        all_ordered(merged),
        separated(merged),
    ensures
        is_merge_of(merged, merged),
{
}

/// Spans merge into one thing only: what `is_merge_of` says of a merge is
/// true of no other sequence.
pub proof fn lemma_merge_unique(
    a: Seq<(usize, usize)>,
    b: Seq<(usize, usize)>,
    spans: Seq<(usize, usize)>,
)
    requires
        all_ordered(spans),
        is_merge_of(a, spans),
        is_merge_of(b, spans),
    ensures
        a == b,
{
    assert forall|j: int| 0 <= j < a.len() implies #[trigger] b.contains(a[j]) by {
        lemma_merged_span_shared(a, b, spans, j);
    }
    assert forall|k: int| 0 <= k < b.len() implies #[trigger] a.contains(b[k]) by {
        lemma_merged_span_shared(b, a, spans, k);
    }
    lemma_separated_equal(a, b);
}

/// The spans by ascending start; spans that start together keep their
/// order.
fn sort_by_start(spans: &Vec<(usize, usize)>) -> (sorted: Vec<(usize, usize)>)
    ensures
        sorted@.len() == spans@.len(),
        sorted_by_start(sorted@),
        same_members(spans@, sorted@),
{
    let mut sorted: Vec<(usize, usize)> = Vec::new();
    let mut k: usize = 0;
    while k < spans.len()
        invariant
            k <= spans@.len(),
            sorted@.len() == k,
            sorted_by_start(sorted@),
            forall|i: int| 0 <= i < k ==> #[trigger] sorted@.contains(spans@[i]),
            forall|j: int| 0 <= j < sorted@.len() ==> #[trigger] spans@.contains(sorted@[j]),
        decreases spans@.len() - k,
    {
        let span = spans[k];
        let mut at: usize = 0;
        while at < sorted.len() && sorted[at].0 <= span.0
            invariant
                at <= sorted@.len(),
                forall|j: int| 0 <= j < at ==> (#[trigger] sorted@[j]).0 <= span.0,
            decreases sorted@.len() - at,
        {
            at += 1;
        }
        let ghost before = sorted@;
        sorted.insert(at, span);
        proof {
            let after = sorted@;
            assert(after[at as int] == span);
            assert forall|j: int| 0 <= j < at implies #[trigger] after[j] == before[j] by {}
            assert forall|j: int| at < j < after.len() implies #[trigger] after[j] == before[j
                - 1] by {}
            assert forall|i: int| 0 <= i < k + 1 implies #[trigger] after.contains(spans@[i]) by {
                if i < k {
                    assert(before.contains(spans@[i]));
                    let j = choose|j: int| 0 <= j < before.len() && before[j] == spans@[i];
                    if j < at {
                        assert(after[j] == spans@[i]);
                    } else {
                        assert(after[j + 1] == spans@[i]);
                    }
                }
            }
        }
        k += 1;
    }
    sorted
}

/// Merges the sorted spans, walking them from the left: a span that starts
/// no later than the one before it ends is made one with it.
pub fn merge_sorted(sorted: &Vec<(usize, usize)>) -> (merged: Vec<(usize, usize)>)
    requires
        all_ordered(sorted@),
        sorted_by_start(sorted@),
    ensures
        is_merge_of(merged@, sorted@),
{
    let mut merged: Vec<(usize, usize)> = Vec::new();
    if sorted.len() == 0 {
        return merged;
    }
    let mut start: usize = sorted[0].0;
    let mut end: usize = sorted[0].1;
    let mut k: usize = 1;
    proof {
        let open = merged@.push((start, end));
        let seen = sorted@.take(1);
        assert(within(seen[0], open[0]));
    }
    while k < sorted.len()
        invariant
            1 <= k <= sorted@.len(),
            all_ordered(sorted@),
            sorted_by_start(sorted@),
            is_merge_of(merged@.push((start, end)), sorted@.take(k as int)),
        decreases sorted@.len() - k,
    {
        let span = sorted[k];
        let ghost open = merged@.push((start, end));
        let ghost seen = sorted@.take(k as int);
        let ghost seen_next = sorted@.take(k + 1);
        proof {
            assert(open[merged@.len() as int] == (start, end));
            assert(has_start(seen, start));
            let i = choose|i: int| 0 <= i < seen.len() && (#[trigger] seen[i]).0 == start;
            assert forall|i: int| 0 <= i < k implies seen_next[i] == seen[i] by {}
            assert(seen_next[k as int] == span);
        }
        if span.0 <= end {
            let ghost old_end = end;
            if span.1 > end {
                end = span.1;
            }
            proof {
                let next = merged@.push((start, end));
                let last = merged@.len() as int;
                assert forall|j: int| 0 <= j < last implies #[trigger] next[j] == open[j] by {}
                assert(next[last] == (start, end));
                assert forall|i: int| 0 <= i < seen_next.len() implies #[trigger] held_in(
                    seen_next[i],
                    next,
                ) by {
                    if i < k {
                        assert(held_in(seen[i], open));
                        let j = choose|j: int|
                            0 <= j < open.len() && within(seen[i], #[trigger] open[j]);
                        if j < last {
                            assert(within(seen_next[i], next[j]));
                        }
                    }
                }
                assert forall|j: int| 0 <= j < next.len() implies #[trigger] has_start(
                    seen_next,
                    next[j].0,
                ) by {
                    assert(has_start(seen, open[j].0));
                }
                assert forall|j: int| 0 <= j < next.len() implies #[trigger] has_end(
                    seen_next,
                    next[j].1,
                ) by {
                    if j < last || end == old_end {
                        assert(has_end(seen, open[j].1));
                    }
                }
                assert forall|j: int, p: int|
                    0 <= j < next.len() && (#[trigger] next[j]).0 <= p
                        < next[j].1 implies #[trigger] covered(seen_next, p) by {
                    if j < last || p < old_end {
                        assert(covered(seen, p));
                    }
                }
            }
        } else {
            merged.push((start, end));
            start = span.0;
            end = span.1;
            proof {
                let next = merged@.push((start, end));
                let last = merged@.len() as int;
                assert forall|j: int| 0 <= j < last implies #[trigger] next[j] == open[j] by {}
                assert(next[last] == span);
                assert forall|i: int| 0 <= i < seen_next.len() implies #[trigger] held_in(
                    seen_next[i],
                    next,
                ) by {
                    if i < k {
                        assert(held_in(seen[i], open));
                        let j = choose|j: int|
                            0 <= j < open.len() && within(seen[i], #[trigger] open[j]);
                        assert(within(seen_next[i], next[j]));
                    }
                }
                assert forall|j: int| 0 <= j < next.len() implies #[trigger] has_start(
                    seen_next,
                    next[j].0,
                ) by {
                    if j < last {
                        assert(has_start(seen, open[j].0));
                    }
                }
                assert forall|j: int| 0 <= j < next.len() implies #[trigger] has_end(
                    seen_next,
                    next[j].1,
                ) by {
                    if j < last {
                        assert(has_end(seen, open[j].1));
                    }
                }
                assert forall|j: int, p: int|
                    0 <= j < next.len() && (#[trigger] next[j]).0 <= p
                        < next[j].1 implies #[trigger] covered(seen_next, p) by {
                    if j < last {
                        assert(covered(seen, p));
                    }
                }
            }
        }
        k += 1;
    }
    proof {
        assert(sorted@.take(sorted@.len() as int) == sorted@);
    }
    merged.push((start, end));
    merged
}

/// Merges spans that overlap or touch: what comes back holds the same
/// offsets in spans that are ordered and apart from each other.
pub fn merge_spans(spans: &Vec<(usize, usize)>) -> (merged: Vec<(usize, usize)>)
    requires
        all_ordered(spans@),
    ensures
        is_merge_of(merged@, spans@),
{
    let sorted = sort_by_start(spans);
    proof {
        assert forall|j: int| 0 <= j < sorted@.len() implies (#[trigger] sorted@[j]).0
            <= sorted@[j].1 by {
            assert(spans@.contains(sorted@[j]));
        }
    }
    let merged = merge_sorted(&sorted);
    proof {
        lemma_merge_same_members(merged@, sorted@, spans@);
    }
    merged
}

/// A part of a line, as a half-open range of byte offsets, and whether
/// it is set off.
#[derive(Debug, Clone, Copy, PartialEq, Eq, Structural)]
pub struct Segment {
    /// Where the part starts.
    pub start: usize,
    /// Where the part ends.
    pub end: usize,
    /// Whether the part is set off.
    pub highlighted: bool,
}

/// The plain part from `from` to `to`, if there is anything between them.
pub open spec fn gap(from: usize, to: usize) -> Seq<Segment> {
    if from < to {
        seq![Segment { start: from, end: to, highlighted: false }]
    } else {
        Seq::empty()
    }
}

/// Where the last of `spans` ends; the start of the line where there is
/// none.
pub open spec fn end_of(spans: Seq<(usize, usize)>) -> usize {
    if spans.len() == 0 {
        0
    } else {
        spans.last().1
    }
}

/// The parts of a line up to the end of the last of `spans`: each span set
/// off, with the plain part before it that lies between it and the span
/// ahead of it, if there is any.
pub open spec fn marked(spans: Seq<(usize, usize)>) -> Seq<Segment>
    decreases spans.len(),
{
    if spans.len() == 0 {
        Seq::empty()
    } else {
        marked(spans.drop_last()) + gap(end_of(spans.drop_last()), spans.last().0).push(
            Segment { start: spans.last().0, end: spans.last().1, highlighted: true },
        )
    }
}

/// The parts of a line of `len` bytes, cut along `spans`: plain text for
/// the gaps between the spans, each span set off, and the plain text that
/// is left after the last span.
pub open spec fn segments_of(len: usize, spans: Seq<(usize, usize)>) -> Seq<Segment> {
    marked(spans) + gap(end_of(spans), len)
}

/// Whether the parts follow one another from `from` to `to` without a gap.
pub open spec fn tiles(parts: Seq<Segment>, from: int, to: int) -> bool
    decreases parts.len(),
{
    if parts.len() == 0 {
        from == to
    } else {
        &&& parts.last().start <= parts.last().end == to
        &&& tiles(parts.drop_last(), from, parts.last().start as int)
    }
}

/// Parts that reach from `from` to `mid`, and one more part from `mid` to
/// `to`, reach from `from` to `to`.
proof fn lemma_tiles_push(parts: Seq<Segment>, from: int, part: Segment)
    requires
        tiles(parts, from, part.start as int),
        part.start <= part.end,
    ensures
        tiles(parts.push(part), from, part.end as int),
{
    assert(parts.push(part).drop_last() == parts);
}

/// Cut along spans that are ordered and apart from each other, the part of
/// a line up to the last span is covered without a gap.
pub proof fn lemma_marked_tiles(spans: Seq<(usize, usize)>)
    requires
        all_ordered(spans),
        separated(spans),
    ensures
        tiles(marked(spans), 0, end_of(spans) as int),
    decreases spans.len(),
{
    if spans.len() > 0 {
        let before = spans.drop_last();
        let last = spans.last();
        lemma_marked_tiles(before);
        let set_off = Segment { start: last.0, end: last.1, highlighted: true };
        if end_of(before) < last.0 {
            let plain = Segment { start: end_of(before), end: last.0, highlighted: false };
            lemma_tiles_push(marked(before), 0, plain);
            lemma_tiles_push(marked(before).push(plain), 0, set_off);
            assert(marked(spans) == marked(before).push(plain).push(set_off));
        } else {
            lemma_tiles_push(marked(before), 0, set_off);
        }
    }
}

/// Cut along spans that are ordered, apart from each other and within the
/// line, the whole line is covered without a gap: every byte of it lies in
/// one part and no more.
pub proof fn lemma_segments_tile(len: usize, spans: Seq<(usize, usize)>)
    requires
        all_ordered(spans),
        separated(spans),
        forall|i: int| 0 <= i < spans.len() ==> (#[trigger] spans[i]).1 <= len,
    ensures
        tiles(segments_of(len, spans), 0, len as int),
{
    lemma_marked_tiles(spans);
    if end_of(spans) < len {
        let plain = Segment { start: end_of(spans), end: len, highlighted: false };
        lemma_tiles_push(marked(spans), 0, plain);
        assert(segments_of(len, spans) == marked(spans).push(plain));
    }
}

/// Cuts a line of `len` bytes along `spans`.
pub fn cut_segments(len: usize, spans: &Vec<(usize, usize)>) -> (parts: Vec<Segment>)
    ensures
        parts@ == segments_of(len, spans@),
{
    let mut parts: Vec<Segment> = Vec::new();
    let mut last_end: usize = 0;
    let mut k: usize = 0;
    while k < spans.len()
        invariant
            k <= spans@.len(),
            parts@ == marked(spans@.take(k as int)),
            last_end == end_of(spans@.take(k as int)),
        decreases spans@.len() - k,
    {
        let (start, end) = spans[k];
        proof {
            let seen = spans@.take(k + 1);
            assert(seen.drop_last() == spans@.take(k as int));
            let set_off = Segment { start, end, highlighted: true };
            if last_end < start {
                let plain = Segment { start: last_end, end: start, highlighted: false };
                assert(parts@ + gap(last_end, start).push(set_off) == parts@.push(plain).push(
                    set_off,
                ));
            }
        }
        if start > last_end {
            parts.push(Segment { start: last_end, end: start, highlighted: false });
        }
        parts.push(Segment { start, end, highlighted: true });
        last_end = end;
        k += 1;
    }
    proof {
        assert(spans@.take(spans@.len() as int) == spans@);
        if last_end < len {
            assert(parts@ + gap(last_end, len) == parts@.push(
                Segment { start: last_end, end: len, highlighted: false },
            ));
        }
    }
    if last_end < len {
        parts.push(Segment { start: last_end, end: len, highlighted: false });
    }
    parts
}

} // verus!
