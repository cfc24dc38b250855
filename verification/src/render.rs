//! What is shown of the merged stream of entries: every entry that the
//! filter lets through as it arrives, or, once the stream has ended, the
//! last entries of each pod.

use crate::kubernetes::log::LogEntry;
use crate::kubernetes::pod::PodInfo;
use crate::log_processor::filter::{node_accepts, AnyFilter, Filter};
use crate::utils::text::str_eq;
use vstd::prelude::*;
use vstd::string::StringExecFns;

verus! {

/// How the stream is shown.
#[derive(Debug, Clone, Copy, PartialEq, Eq, Structural)]
pub enum Mode {
    /// Each entry is shown as it arrives.
    Stream,
    /// The entries are kept until the stream ends; then the last ones of
    /// each pod are shown, no more than the number given.
    Tail(usize),
}

/// The mode for the options of a run: the last entries of each pod are
/// shown where a number of them is asked for and the logs are not
/// followed; else each entry is shown as it arrives.
pub fn select_mode(follow: bool, tail: Option<usize>) -> (mode: Mode)
    ensures
        mode == match tail {
            Some(n) => if follow {
                Mode::Stream
            } else {
                Mode::Tail(n)
            },
            None => Mode::Stream,
        },
{
    match tail {
        Some(n) => if follow {
            Mode::Stream
        } else {
            Mode::Tail(n)
        },
        None => Mode::Stream,
    }
}

/// Whether an entry is let through: it is where there is no filter.
pub open spec fn is_shown(filter: &Option<AnyFilter>, entry: &LogEntry) -> bool {
    match filter {
        Some(f) => node_accepts(f, entry.raw_line@),
        None => true,
    }
}

/// Whether an entry is let through.
pub fn passes(filter: &Option<AnyFilter>, entry: &LogEntry) -> (b: bool)
    ensures
        b == is_shown(filter, entry),
{
    match filter {
        Some(f) => f.apply(entry),
        None => true,
    }
}

/// What is done with one item of the stream.
pub enum Shown {
    /// The entry is shown.
    Print(LogEntry),
    /// The entry is passed over.
    Skip,
    /// The error is reported, and the stream goes on.
    Report(String),
}

/// What is done with an item of the stream that is shown as it arrives:
/// an entry is shown if the filter lets it through, an error is reported.
pub fn stream_step(filter: &Option<AnyFilter>, item: Result<LogEntry, String>) -> (shown: Shown)
    ensures
        shown == match item {
            Ok(entry) => if is_shown(filter, &entry) {
                Shown::Print(entry)
            } else {
                Shown::Skip
            },
            Err(e) => Shown::Report(e),
        },
{
    match item {
        Ok(entry) => if passes(filter, &entry) {
            Shown::Print(entry)
        } else {
            Shown::Skip
        },
        Err(e) => Shown::Report(e),
    }
}

/// The names in `names`, each once, in the order in which they first
/// occur.
pub open spec fn distinct(names: Seq<Seq<char>>) -> Seq<Seq<char>>
    decreases names.len(),
{
    if names.len() == 0 {
        names
    } else if distinct(names.drop_last()).contains(names.last()) {
        distinct(names.drop_last())
    } else {
        distinct(names.drop_last()).push(names.last())
    }
}

/// The names of the pods.
pub open spec fn names_of(pods: Seq<PodInfo>) -> Seq<Seq<char>> {
    pods.map_values(|p: PodInfo| p.name@)
}

/// The entries of `entries` that come from the pod `name`, in order.
pub open spec fn entries_of(entries: Seq<LogEntry>, name: Seq<char>) -> Seq<LogEntry> {
    entries.filter(|e: LogEntry| e.pod_name@ == name)
}

/// The entries of the stream that the filter lets through, in order.
pub open spec fn shown_entries(
    filter: &Option<AnyFilter>,
    items: Seq<Result<LogEntry, String>>,
) -> Seq<LogEntry>
    decreases items.len(),
{
    if items.len() == 0 {
        Seq::empty()
    } else {
        match items.last() {
            Ok(entry) => if is_shown(filter, &entry) {
                shown_entries(filter, items.drop_last()).push(entry)
            } else {
                shown_entries(filter, items.drop_last())
            },
            Err(_) => shown_entries(filter, items.drop_last()),
        }
    }
}

/// The last `limit` of `entries`, or all of them where there are fewer.
pub open spec fn last_of(entries: Seq<LogEntry>, limit: usize) -> Seq<LogEntry> {
    if entries.len() > limit {
        entries.subrange(entries.len() - limit, entries.len() as int)
    } else {
        entries
    }
}

/// The entries kept for each pod until the stream ends.
pub struct TailBuffers {
    limit: usize,
    names: Vec<String>,
    buffers: Vec<Vec<LogEntry>>,
}

impl TailBuffers {
    /// How many entries of each pod are shown at the most.
    pub closed spec fn limit(&self) -> usize {
        self.limit
    }

    /// The names of the pods whose entries are kept.
    pub closed spec fn names(&self) -> Seq<Seq<char>> {
        self.names@.map_values(|n: String| n@)
    }

    /// The entries kept of each pod, in the order of the names.
    pub closed spec fn all_kept(&self) -> Seq<Seq<LogEntry>> {
        self.buffers@.map_values(|b: Vec<LogEntry>| b@)
    }

    /// The entries kept of the pod at place `i`, in the order in which
    /// they arrived.
    pub open spec fn kept(&self, i: int) -> Seq<LogEntry> {
        self.all_kept()[i]
    }

    /// The invariant of the buffers: each pod has one buffer, and no name
    /// stands twice.
    pub closed spec fn wf(&self) -> bool {
        &&& self.names@.len() == self.buffers@.len()
        &&& forall|i: int, j: int|
            0 <= i < j < self.names@.len() ==> (#[trigger] self.names@[i])@
                != (#[trigger] self.names@[j])@
    }

    /// The place of the pod `name`.
    fn find(&self, name: &str) -> (r: Option<usize>)
        ensures
            match r {
                Some(i) => i < self.names@.len() && self.names@[i as int]@ == name@,
                None => forall|i: int|
                    0 <= i < self.names@.len() ==> (#[trigger] self.names@[i])@ != name@,
            },
    {
        let mut i: usize = 0;
        while i < self.names.len()
            invariant
                i <= self.names@.len(),
                forall|j: int| 0 <= j < i ==> (#[trigger] self.names@[j])@ != name@,
            decreases self.names@.len() - i,
        {
            if str_eq(self.names[i].as_str(), name) {
                return Some(i);
            }
            i += 1;
        }
        None
    }

    /// One empty buffer for each pod, by name; a name that stands twice
    /// gets one buffer.
    pub fn new(pods: &Vec<PodInfo>, limit: usize) -> (b: Self)
        ensures
            b.wf(),
            b.limit() == limit,
            b.names() == distinct(names_of(pods@)),
            b.all_kept().len() == b.names().len(),
            forall|i: int| 0 <= i < b.names().len() ==> (#[trigger] b.kept(i)).len() == 0,
    {
        let mut b = TailBuffers { limit, names: Vec::new(), buffers: Vec::new() };
        let mut k: usize = 0;
        while k < pods.len()
            invariant
                k <= pods@.len(),
                b.wf(),
                b.limit == limit,
                b.names() == distinct(names_of(pods@).take(k as int)),
                forall|i: int| 0 <= i < b.buffers@.len() ==> (#[trigger] b.buffers@[i])@.len() == 0,
            decreases pods@.len() - k,
        {
            let ghost before = b.names();
            let ghost seen = names_of(pods@).take(k + 1);
            proof {
                assert(seen.drop_last() == names_of(pods@).take(k as int));
            }
            match b.find(pods[k].name.as_str()) {
                Some(i) => {
                    proof {
                        assert(before[i as int] == pods@[k as int].name@);
                    }
                },
                None => {
                    let name = pods[k].name.clone();
                    b.names.push(name);
                    b.buffers.push(Vec::new());
                },
            }
            k += 1;
        }
        assert(names_of(pods@).take(pods@.len() as int) == names_of(pods@));
        b
    }

    /// Keeps an entry with the entries of its pod, after those that came
    /// before it. An entry of a pod that is not known is dropped.
    pub fn push(&mut self, entry: LogEntry)
        requires
            old(self).wf(),
        ensures
            final(self).wf(),
            final(self).limit() == old(self).limit(),
            final(self).names() == old(self).names(),
            final(self).all_kept().len() == old(self).all_kept().len(),
            forall|i: int|
                0 <= i < old(self).names().len() ==> #[trigger] final(self).kept(i) == kept_with(
                    old(self).kept(i),
                    old(self).names()[i],
                    entry,
                ),
    {
        if let Some(at) = self.find(entry.pod_name.as_str()) {
            self.buffers[at].push(entry);
        }
    }

    /// Takes one item of the stream: an entry that the filter lets through
    /// is kept, an error is handed back to be reported, and the stream
    /// goes on either way.
    pub fn offer(&mut self, filter: &Option<AnyFilter>, item: Result<LogEntry, String>) -> (report:
        Option<String>)
        requires
            old(self).wf(),
        ensures
            final(self).wf(),
            final(self).limit() == old(self).limit(),
            final(self).names() == old(self).names(),
            final(self).all_kept().len() == old(self).all_kept().len(),
            report == match item {
                Ok(_) => None,
                Err(e) => Some(e),
            },
            forall|i: int|
                0 <= i < old(self).names().len() ==> #[trigger] final(self).kept(i) == kept_after(
                    old(self).kept(i),
                    old(self).names()[i],
                    filter,
                    item,
                ),
    {
        match item {
            Ok(entry) => {
                if passes(filter, &entry) {
                    self.push(entry);
                }
                None
            },
            Err(e) => Some(e),
        }
    }

    /// What is shown once the stream has ended: for each pod of which an
    /// entry was kept, its name and the last entries kept of it, in the
    /// order in which they arrived.
    pub fn tails(self) -> (shown: Vec<PodTail>)
        requires
            self.wf(),
        ensures
            tail_views(shown@) == tails_of(self.names(), self.all_kept(), self.limit()),
    {
        let mut this = self;
        let mut shown: Vec<PodTail> = Vec::new();
        let ghost names = this.names();
        let ghost kept = this.all_kept();
        let limit = this.limit;
        let n = this.names.len();
        let mut i: usize = 0;
        while i < n
            invariant
                i <= n,
                n == this.names@.len(),
                n == this.buffers@.len(),
                names == this.names(),
                names.len() == n,
                kept.len() == n,
                limit == self.limit(),
                forall|j: int| i <= j < n ==> (#[trigger] this.buffers@[j])@ == kept[j],
                tail_views(shown@) == tails_of(names.take(i as int), kept.take(i as int), limit),
            decreases n - i,
        {
            let mut buffer: Vec<LogEntry> = Vec::new();
            std::mem::swap(&mut buffer, &mut this.buffers[i]);
            proof {
                assert(names.take(i + 1).drop_last() == names.take(i as int));
                assert(kept.take(i + 1).drop_last() == kept.take(i as int));
            }
            if buffer.len() > 0 {
                let entries = if buffer.len() > limit {
                    buffer.split_off(buffer.len() - limit)
                } else {
                    buffer
                };
                let tail = PodTail { name: this.names[i].clone(), entries };
                proof {
                    assert(tail_views(shown@.push(tail)) == tail_views(shown@).push(
                        (tail.name@, tail.entries@),
                    ));
                }
                shown.push(tail);
            }
            i += 1;
        }
        proof {
            assert(names.take(n as int) == names);
            assert(kept.take(n as int) == kept);
        }
        shown
    }
}

/// The last entries of one pod.
pub struct PodTail {
    /// The name of the pod.
    pub name: String,
    /// The entries, in the order in which they arrived.
    pub entries: Vec<LogEntry>,
}

impl PodTail {
    /// The line that stands above the entries of the pod.
    pub open spec fn header_text(&self) -> Seq<char> {
        "Logs for pod "@ + self.name@ + ":"@
    }

    /// The line that stands above the entries of the pod.
    pub fn header(&self) -> (line: String)
        ensures
            line@ == self.header_text(),
    {
        "Logs for pod ".to_owned().concat(self.name.as_str()).concat(":")
    }
}

/// The names and the entries of `tails`.
pub open spec fn tail_views(tails: Seq<PodTail>) -> Seq<(Seq<char>, Seq<LogEntry>)> {
    tails.map_values(|t: PodTail| (t.name@, t.entries@))
}

/// The entries kept of the pod `name` once `entry` is kept: one more where
/// the entry is of that pod.
pub open spec fn kept_with(kept: Seq<LogEntry>, name: Seq<char>, entry: LogEntry) -> Seq<
    LogEntry,
> {
    if entry.pod_name@ == name {
        kept.push(entry)
    } else {
        kept
    }
}

/// The entries kept of the pod `name` after one more item of the stream:
/// one more where the item is an entry of that pod that the filter lets
/// through.
pub open spec fn kept_after(
    kept: Seq<LogEntry>,
    name: Seq<char>,
    filter: &Option<AnyFilter>,
    item: Result<LogEntry, String>,
) -> Seq<LogEntry> {
    match item {
        Ok(entry) => if is_shown(filter, &entry) {
            kept_with(kept, name, entry)
        } else {
            kept
        },
        Err(_) => kept,
    }
}

/// What is shown of the pods `names`, of which `kept` are the entries
/// kept: for each pod of which there is an entry, its name and the last
/// `limit` of its entries.
pub open spec fn tails_of(names: Seq<Seq<char>>, kept: Seq<Seq<LogEntry>>, limit: usize) -> Seq<
    (Seq<char>, Seq<LogEntry>),
>
    decreases names.len(),
{
    if names.len() == 0 || kept.len() != names.len() {
        Seq::empty()
    } else if kept.last().len() > 0 {
        tails_of(names.drop_last(), kept.drop_last(), limit).push(
            (names.last(), last_of(kept.last(), limit)),
        )
    } else {
        tails_of(names.drop_last(), kept.drop_last(), limit)
    }
}

/// The errors of the stream, in order.
pub open spec fn errors_of(items: Seq<Result<LogEntry, String>>) -> Seq<String>
    decreases items.len(),
{
    if items.len() == 0 {
        Seq::empty()
    } else {
        match items.last() {
            Ok(_) => errors_of(items.drop_last()),
            Err(e) => errors_of(items.drop_last()).push(e),
        }
    }
}

/// What is kept of each of the pods `names` of a stream: the entries of
/// the pod that the filter lets through, in the order of the stream,
/// whatever stands between them.
pub open spec fn kept_of(
    names: Seq<Seq<char>>,
    filter: &Option<AnyFilter>,
    items: Seq<Result<LogEntry, String>>,
) -> Seq<Seq<LogEntry>> {
    names.map_values(|name: Seq<char>| entries_of(shown_entries(filter, items), name))
}

/// One more item at the end of a stream adds to what is kept of a pod
/// what `kept_after` says.
pub proof fn lemma_kept_step(
    name: Seq<char>,
    filter: &Option<AnyFilter>,
    items: Seq<Result<LogEntry, String>>,
    item: Result<LogEntry, String>,
)
    ensures
        entries_of(shown_entries(filter, items.push(item)), name) == kept_after(
            entries_of(shown_entries(filter, items), name),
            name,
            filter,
            item,
        ),
{
    reveal(Seq::filter);
    assert(items.push(item).drop_last() == items);
    match item {
        Ok(entry) => {
            if is_shown(filter, &entry) {
                let shown = shown_entries(filter, items);
                assert(shown.push(entry).drop_last() == shown);
            }
        },
        Err(_) => {},
    }
}

/// What is kept of a pod does not change when an entry of another pod
/// arrives: the entries of a pod stand in the order in which the pod sent
/// them, whatever the other pods send in between.
pub proof fn lemma_other_pods_do_not_disturb(
    name: Seq<char>,
    entries: Seq<LogEntry>,
    other: LogEntry,
)
    requires
        other.pod_name@ != name,
    ensures
        entries_of(entries.push(other), name) == entries_of(entries, name),
{
    reveal(Seq::filter);
    assert(entries.push(other).drop_last() == entries);
}

/// An entry of a pod is kept after all the entries of that pod that came
/// before it.
pub proof fn lemma_own_entries_in_order(name: Seq<char>, entries: Seq<LogEntry>, next: LogEntry)
    requires
        next.pod_name@ == name,
    ensures
        entries_of(entries.push(next), name) == entries_of(entries, name).push(next),
{
    reveal(Seq::filter);
    assert(entries.push(next).drop_last() == entries);
}

/// Reads a whole stream that has ended: what is shown of it, and the
/// errors that are reported. Of each pod of which the filter lets an entry
/// through, the last `limit` of these entries are shown, in the order in
/// which they arrived.
pub fn tail_snapshot(
    pods: &Vec<PodInfo>,
    filter: &Option<AnyFilter>,
    limit: usize,
    items: Vec<Result<LogEntry, String>>,
) -> (r: (Vec<PodTail>, Vec<String>))
    ensures
        tail_views(r.0@) == tails_of(
            distinct(names_of(pods@)),
            kept_of(distinct(names_of(pods@)), filter, items@),
            limit,
        ),
        r.1@ == errors_of(items@),
{
    let mut buffers = TailBuffers::new(pods, limit);
    let mut errors: Vec<String> = Vec::new();
    let ghost names = buffers.names();
    let ghost all = items@;
    proof {
        reveal(Seq::filter);
    }
    for item in it: items
        invariant
            it.seq() == all,
            buffers.wf(),
            buffers.limit() == limit,
            buffers.names() == names,
            buffers.all_kept().len() == names.len(),
            errors@ == errors_of(all.take(it.index() as int)),
            forall|i: int|
                0 <= i < names.len() ==> #[trigger] buffers.kept(i) == entries_of(
                    shown_entries(filter, all.take(it.index() as int)),
                    names[i],
                ),
    {
        let ghost k = it.index() as int;
        proof {
            assert(all.take(k + 1) == all.take(k).push(item));
            assert(all.take(k + 1).drop_last() == all.take(k));
            assert forall|i: int| 0 <= i < names.len() implies entries_of(
                shown_entries(filter, all.take(k + 1)),
                #[trigger] names[i],
            ) == kept_after(
                entries_of(shown_entries(filter, all.take(k)), names[i]),
                names[i],
                filter,
                item,
            ) by {
                lemma_kept_step(names[i], filter, all.take(k), item);
            }
        }
        match buffers.offer(filter, item) {
            Some(e) => {
                errors.push(e);
            },
            None => {},
        }
    }
    proof {
        assert(all.take(all.len() as int) == all);
        assert(buffers.all_kept() == kept_of(names, filter, all)) by {
            assert forall|i: int| 0 <= i < names.len() implies buffers.all_kept()[i] == kept_of(
                names,
                filter,
                all,
            )[i] by {
                assert(buffers.kept(i) == entries_of(shown_entries(filter, all), names[i]));
            }
        }
    }
    (buffers.tails(), errors)
}

} // verus!
