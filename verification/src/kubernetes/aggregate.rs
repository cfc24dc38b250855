//! The merged stream: what the one that shows the entries sees of the
//! streams that the readers of the pods send into the queue.

use crate::kubernetes::ingest::{is_step_of, Read, Step};
use crate::kubernetes::log::LogEntry;
use crate::render::entries_of;
use vstd::prelude::*;

verus! {

/// Whether `merged` is a merge of the streams `sent`: it holds the items
/// of every stream and no others, and takes the items of each stream in
/// the order of that stream. Between the items of one stream the items of
/// the others stand in whatever way they arrived.
pub open spec fn is_merge<T>(merged: Seq<T>, sent: Seq<Seq<T>>) -> bool
    decreases merged.len(),
{
    if merged.len() == 0 {
        forall|i: int| 0 <= i < sent.len() ==> (#[trigger] sent[i]).len() == 0
    } else {
        exists|i: int|
            0 <= i < sent.len() && (#[trigger] sent[i]).len() > 0 && sent[i].last()
                == merged.last() && is_merge(
                merged.drop_last(),
                sent.update(i, sent[i].drop_last()),
            )
    }
}

/// Nothing sent is merged into nothing.
pub proof fn lemma_merge_of_nothing<T>(sources: nat)
    ensures
        is_merge(Seq::<T>::empty(), Seq::new(sources, |i: int| Seq::<T>::empty())),
{
}

/// The queue hands items on in the order in which it took them: when one
/// of the streams sends an item, what was merged so far with that item at
/// its end is a merge of what is sent now.
pub proof fn lemma_merge_takes<T>(merged: Seq<T>, sent: Seq<Seq<T>>, i: int, item: T)
    requires
        is_merge(merged, sent),
        0 <= i < sent.len(),
    ensures
        is_merge(merged.push(item), sent.update(i, sent[i].push(item))),
{
    let now = sent.update(i, sent[i].push(item));
    assert(now[i].last() == item);
    assert(merged.push(item).drop_last() == merged);
    assert(now.update(i, now[i].drop_last()) == sent) by {
        assert(sent[i].push(item).drop_last() == sent[i]);
    }
}

/// Whether `sent` are the entries that the reader of the pod `pod_name`
/// sends for `lines`: one entry for each line, in the order of the lines.
pub open spec fn is_sent_for(sent: Seq<LogEntry>, pod_name: Seq<char>, lines: Seq<Vec<u8>>) -> bool {
    &&& sent.len() == lines.len()
    &&& forall|j: int|
        0 <= j < sent.len() ==> is_step_of(
            Step::Forward(#[trigger] sent[j]),
            pod_name,
            Read::Line(lines[j]),
        )
}

/// Whether every entry of each stream bears the name of its pod.
pub open spec fn are_named(sent: Seq<Seq<LogEntry>>, names: Seq<Seq<char>>) -> bool {
    &&& names.len() == sent.len()
    &&& forall|i: int, j: int|
        0 <= i < sent.len() && 0 <= j < sent[i].len() ==> (#[trigger] sent[i][j]).pod_name@
            == names[i]
}

/// Whether no other pod bears the name of the pod at place `k`.
pub open spec fn is_only(names: Seq<Seq<char>>, k: int) -> bool {
    &&& 0 <= k < names.len()
    &&& forall|i: int| 0 <= i < names.len() && i != k ==> #[trigger] names[i] != names[k]
}

/// Of a merge of the streams of several pods, the entries of one pod are
/// the stream of that pod, in its order, whatever the other pods sent and
/// wherever their entries came to stand.
pub proof fn lemma_merge_keeps_order(
    merged: Seq<LogEntry>,
    sent: Seq<Seq<LogEntry>>,
    names: Seq<Seq<char>>,
    k: int,
)
    requires
        is_merge(merged, sent),
        are_named(sent, names),
        is_only(names, k),
    ensures
        entries_of(merged, names[k]) == sent[k],
    decreases merged.len(),
{
    reveal(Seq::filter);
    if merged.len() == 0 {
        assert(sent[k].len() == 0);
        assert(sent[k] =~= Seq::<LogEntry>::empty());
    } else {
        let i = choose|i: int|
            0 <= i < sent.len() && (#[trigger] sent[i]).len() > 0 && sent[i].last()
                == merged.last() && is_merge(
                merged.drop_last(),
                sent.update(i, sent[i].drop_last()),
            );
        let rest = sent.update(i, sent[i].drop_last());
        assert forall|a: int, b: int| 0 <= a < rest.len() && 0 <= b < rest[a].len() implies (
        #[trigger] rest[a][b]).pod_name@ == names[a] by {
            if a == i {
                assert(rest[a][b] == sent[i][b]);
            } else {
                assert(rest[a][b] == sent[a][b]);
            }
        }
        lemma_merge_keeps_order(merged.drop_last(), rest, names, k);
        assert(sent[i][sent[i].len() - 1].pod_name@ == names[i]);
        if i == k {
            assert(sent[k] == sent[k].drop_last().push(sent[k].last()));
        } else {
            assert(rest[k] == sent[k]);
        }
    }
}

/// The one that reads the merged stream sees the lines of a pod in the
/// order in which the pod wrote them: where each reader sends one entry
/// for each of its lines, in order, the entries of a pod in any merge of
/// what the readers send are the entries of its lines, in the order of
/// the lines, whatever the other pods write at the same time.
pub proof fn lemma_source_order(
    merged: Seq<LogEntry>,
    sent: Seq<Seq<LogEntry>>,
    names: Seq<Seq<char>>,
    lines: Seq<Seq<Vec<u8>>>,
    k: int,
)
    requires
        is_merge(merged, sent),
        names.len() == sent.len(),
        lines.len() == sent.len(),
        forall|i: int| 0 <= i < sent.len() ==> is_sent_for(#[trigger] sent[i], names[i], lines[i]),
        is_only(names, k),
    ensures
        is_sent_for(entries_of(merged, names[k]), names[k], lines[k]),
{
    assert forall|i: int, j: int| 0 <= i < sent.len() && 0 <= j < sent[i].len() implies (
    #[trigger] sent[i][j]).pod_name@ == names[i] by {
        assert(is_sent_for(sent[i], names[i], lines[i]));
        assert(is_step_of(Step::Forward(sent[i][j]), names[i], Read::Line(lines[i][j])));
    }
    lemma_merge_keeps_order(merged, sent, names, k);
    assert(is_sent_for(sent[k], names[k], lines[k]));
}

} // verus!
