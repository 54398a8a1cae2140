//! The topic history store: for every observed topic, its events in arrival order.
use vstd::prelude::*;
use crate::payload::{kept_of, Payload};
use crate::time::{time_le, time_le_exec, LocalDateTime, Time};
use crate::topic::{is_below, is_below_exec};
use crate::text::str_eq;

verus! {

broadcast use vstd::seq_lib::group_seq_properties;

/// What an observed event did to its topic.
#[derive(Clone, Copy, Debug, PartialEq, Eq, Structural)]
pub enum EventKind {
    Write,
    Delete,
}

pub open spec fn kind_label(kind: EventKind) -> Seq<char> {
    match kind {
        EventKind::Write => seq!['P', 'u', 't'],
        EventKind::Delete => seq!['D', 'e', 'l', 'e', 't', 'e'],
    }
}

/// The label shown for an event kind.
pub fn kind(event_kind: EventKind) -> (r: &'static str)
    ensures
        r@ == kind_label(event_kind),
{
    proof {
        reveal_strlit("Put");
        reveal_strlit("Delete");
    }
    match event_kind {
        EventKind::Write => "Put",
        EventKind::Delete => "Delete",
    }
}

/// One observed event.
pub struct HistoryEntry {
    pub kind: EventKind,
    pub time: Time,
    /// The size of the payload on the wire.
    pub payload_size: usize,
    pub payload: Payload,
}

impl HistoryEntry {
    pub open spec fn wf(&self) -> bool {
        &&& self.payload.wf()
        &&& self.payload_size == self.payload.original_size
        &&& self.time matches Time::Local(t) ==> t.wf()
    }
}

/// The entry recorded for an event: deletions get an unknown time, other
/// events the local time now; the payload is kept up to `limit` bytes.
pub fn history_entry(kind: EventKind, payload: Vec<u8>, limit: usize) -> (r: HistoryEntry)
    ensures
        r.wf(),
        r.kind == kind,
        kind == EventKind::Delete ==> r.time == Time::Unknown,
        kind != EventKind::Delete ==> r.time matches Time::Local(_),
        r.payload_size == payload.len(),
        r.payload.bytes@ == kept_of(payload@, limit as nat),
{
    let time = if kind == EventKind::Delete {
        Time::Unknown
    } else {
        Time::new_now()
    };
    let payload_size = payload.len();
    HistoryEntry { kind, time, payload_size, payload: Payload::truncated(payload, limit) }
}

pub struct TopicHistory {
    pub topic: String,
    pub entries: Vec<HistoryEntry>,
}

/// The receipt time of the latest entry that has one.
pub open spec fn last_local(s: Seq<HistoryEntry>) -> Option<LocalDateTime>
    decreases s.len(),
{
    if s.len() == 0 {
        None
    } else {
        match s.last().time {
            Time::Local(t) => Some(t),
            Time::Unknown => last_local(s.drop_last()),
        }
    }
}

/// Appending an entry with a receipt time makes that time the latest one;
/// appending a deletion, which has none, leaves the latest one as it was.
/// With `ingest`, which never stores a time before the topic's latest one,
/// this keeps the receipt times of one topic non-decreasing.
pub proof fn lemma_last_local_push(s: Seq<HistoryEntry>, e: HistoryEntry)
    ensures
        e.time matches Time::Local(t) ==> last_local(s.push(e)) == Some(t),
        e.time == Time::Unknown ==> last_local(s.push(e)) == last_local(s),
{
    assert(s.push(e).drop_last() =~= s);
}

/// Receipt times of one topic never go back: when an entry with time `t1` is
/// appended to a topic's history, and later, after any deletions (`between`),
/// an entry with time `t2` that `ingest` stored, then `t1` is not later than `t2`.
pub proof fn lemma_receipt_times_non_decreasing(
    before: Seq<HistoryEntry>,
    e1: HistoryEntry,
    between: Seq<HistoryEntry>,
    t1: LocalDateTime,
    t2: LocalDateTime,
)
    requires
        e1.time == Time::Local(t1),
        forall|i: int| 0 <= i < between.len() ==> #[trigger] between[i].time == Time::Unknown,
        last_local(before.push(e1) + between) matches Some(p) ==> time_le(p, t2),
    ensures
        time_le(t1, t2),
    decreases between.len(),
{
    lemma_last_local_push(before, e1);
    lemma_last_local_skips_unknown(before.push(e1), between);
}

proof fn lemma_last_local_skips_unknown(s: Seq<HistoryEntry>, between: Seq<HistoryEntry>)
    requires
        forall|i: int| 0 <= i < between.len() ==> #[trigger] between[i].time == Time::Unknown,
    ensures
        last_local(s + between) == last_local(s),
    decreases between.len(),
{
    if between.len() > 0 {
        let rest = between.drop_last();
        assert((s + between).drop_last() =~= s + rest);
        assert((s + between).last() == between.last());
        assert(between.last() == between[between.len() - 1]);
        assert forall|i: int| 0 <= i < rest.len() implies #[trigger] rest[i].time == Time::Unknown by {
            assert(rest[i] == between[i]);
        }
        lemma_last_local_skips_unknown(s, rest);
    } else {
        assert(s + between =~= s);
    }
}

/// A topic's entry count and its latest entry's kind and time.
pub struct TopicSummary {
    pub entries: usize,
    pub last_kind: EventKind,
    pub last_time: Time,
}

/// The cache: a map from topic to its entries, with topics in order of first
/// arrival. The topics stand in a vector searched linearly, with uniqueness
/// as an invariant: a map keyed by strings would give no provable lookups, and
/// the number of topics a session observes stays small.
pub struct ZenohHistory {
    topics: Vec<TopicHistory>,
    contents: Ghost<Map<Seq<char>, Seq<HistoryEntry>>>,
}

impl View for ZenohHistory {
    type V = Map<Seq<char>, Seq<HistoryEntry>>;

    closed spec fn view(&self) -> Map<Seq<char>, Seq<HistoryEntry>> {
        self.contents@
    }
}

/// The history of `topic` after appending `entry`.
pub open spec fn appended(
    m: Map<Seq<char>, Seq<HistoryEntry>>,
    topic: Seq<char>,
    entry: HistoryEntry,
) -> Seq<HistoryEntry> {
    if m.contains_key(topic) {
        m[topic].push(entry)
    } else {
        seq![entry]
    }
}

impl ZenohHistory {
    /// The known topics in order of first arrival.
    pub closed spec fn order(&self) -> Seq<Seq<char>> {
        self.topics@.map_values(|t: TopicHistory| t.topic@)
    }

    pub closed spec fn wf(&self) -> bool {
        &&& self.order().no_duplicates()
        &&& self.contents@.dom() == self.order().to_set()
        &&& forall|i: int|
            0 <= i < self.topics@.len() ==> #[trigger] self.contents@[self.topics@[i].topic@]
                == self.topics@[i].entries@
        &&& forall|i: int, j: int|
            0 <= i < self.topics@.len() && 0 <= j < self.topics@[i].entries@.len()
                ==> #[trigger] self.topics@[i].entries@[j].wf()
    }

    /// The topics equal to or below `prefix`, in order of first arrival.
    pub open spec fn topics_below(&self, prefix: Seq<char>) -> Seq<Seq<char>> {
        self.order().filter(|k: Seq<char>| is_below(k, prefix))
    }

    /// Every stored entry is well formed.
    pub proof fn lemma_wf_entries(&self, k: Seq<char>, j: int)
        requires
            self.wf(),
            self@.contains_key(k),
            0 <= j < self@[k].len(),
        ensures
            self@[k][j].wf(),
    {
        assert(self.order().to_set().contains(k));
        let i = self.order().index_of(k);
        assert(self.topics@[i].topic@ == k);
    }

    /// Every stored receipt time is well formed, the latest one too.
    pub proof fn lemma_last_local_wf(&self, k: Seq<char>, n: int)
        requires
            self.wf(),
            self@.contains_key(k),
            0 <= n <= self@[k].len(),
        ensures
            last_local(self@[k].subrange(0, n)) matches Some(t) ==> t.wf(),
        decreases n,
    {
        let s = self@[k].subrange(0, n);
        if n > 0 {
            self.lemma_wf_entries(k, n - 1);
            assert(s.last() == self@[k][n - 1]);
            assert(s.drop_last() =~= self@[k].subrange(0, n - 1));
            self.lemma_last_local_wf(k, n - 1);
        }
    }

    /// An empty cache.
    pub fn new() -> (r: ZenohHistory)
        ensures
            r.wf(),
            r@ == Map::<Seq<char>, Seq<HistoryEntry>>::empty(),
            r.order() == Seq::<Seq<char>>::empty(),
    {
        let r = ZenohHistory { topics: Vec::new(), contents: Ghost(Map::empty()) };
        assert(r.order() =~= Seq::<Seq<char>>::empty());
        assert(r.contents@.dom() =~= r.order().to_set());
        r
    }

    /// The position of `topic` among the known topics.
    fn position(&self, topic: &str) -> (r: Option<usize>)
        requires
            self.wf(),
        ensures
            r is None ==> !self@.contains_key(topic@),
            r matches Some(i) ==> i < self.topics@.len() && self.topics@[i as int].topic@ == topic@,
    {
        let mut i: usize = 0;
        while i < self.topics.len()
            invariant
                self.wf(),
                i <= self.topics@.len(),
                forall|j: int| 0 <= j < i ==> self.topics@[j].topic@ != topic@,
            decreases self.topics@.len() - i,
        {
            if str_eq(self.topics[i].topic.as_str(), topic) {
                return Some(i);
            }
            i = i + 1;
        }
        proof {
            if self@.contains_key(topic@) {
                assert(self.order().to_set().contains(topic@));
                let j = self.order().index_of(topic@);
                assert(self.topics@[j].topic@ == topic@);
            }
        }
        None
    }

    /// Appends `entry` to the history of `topic`, creating it if absent.
    pub fn add(&mut self, topic: String, entry: HistoryEntry)
        requires
            old(self).wf(),
            entry.wf(),
        ensures
            final(self).wf(),
            final(self)@ == old(self)@.insert(topic@, appended(old(self)@, topic@, entry)),
            final(self).order() == if old(self)@.contains_key(topic@) {
                old(self).order()
            } else {
                old(self).order().push(topic@)
            },
    {
        let ghost m = self.contents@;
        match self.position(topic.as_str()) {
            Some(i) => {
                assert(self.order()[i as int] == topic@);
                assert(self.order().to_set().contains(topic@));
                let mut th = self.topics.remove(i);
                th.entries.push(entry);
                self.topics.insert(i, th);
                self.contents = Ghost(m.insert(topic@, m[topic@].push(entry)));
                assert(self.order() =~= old(self).order());
                assert(self.contents@.dom() =~= self.order().to_set());
                assert forall|a: int, b: int|
                    0 <= a < self.topics@.len() && 0 <= b < self.topics@[a].entries@.len()
                        implies #[trigger] self.topics@[a].entries@[b].wf() by {
                    if a == i {
                        if b < old(self).topics@[a].entries@.len() {
                            assert(old(self).topics@[a].entries@[b].wf());
                        }
                    } else {
                        assert(old(self).topics@[a].entries@[b].wf());
                    }
                }
                assert forall|a: int| 0 <= a < self.topics@.len() implies
                    #[trigger] self.contents@[self.topics@[a].topic@] == self.topics@[a].entries@ by {
                    if a != i {
                        assert(old(self).order()[a] == self.topics@[a].topic@);
                        assert(old(self).order()[i as int] == topic@);
                    }
                }
            },
            None => {
                let ghost t = topic@;
                let mut entries: Vec<HistoryEntry> = Vec::new();
                entries.push(entry);
                self.topics.push(TopicHistory { topic, entries });
                self.contents = Ghost(m.insert(t, seq![entry]));
                assert(self.order() =~= old(self).order().push(t));
                assert(self.contents@.dom() =~= self.order().to_set());
                assert(!old(self).order().contains(t));
                assert forall|a: int, b: int|
                    0 <= a < self.topics@.len() && 0 <= b < self.topics@[a].entries@.len()
                        implies #[trigger] self.topics@[a].entries@[b].wf() by {
                    if a < old(self).topics@.len() {
                        assert(old(self).topics@[a].entries@[b].wf());
                    }
                }
                assert forall|a: int| 0 <= a < self.topics@.len() implies
                    #[trigger] self.contents@[self.topics@[a].topic@] == self.topics@[a].entries@ by {
                    if a < old(self).topics@.len() {
                        assert(old(self).order()[a] == self.topics@[a].topic@);
                    }
                }
            },
        }
    }

    /// The latest receipt time among the entries of `topic`.
    fn last_local_time(&self, topic: &str) -> (r: Option<LocalDateTime>)
        requires
            self.wf(),
        ensures
            r == (if self@.contains_key(topic@) { last_local(self@[topic@]) } else { None }),
    {
        match self.get(topic) {
            None => None,
            Some(entries) => {
                let mut j: usize = entries.len();
                assert(entries@.subrange(0, j as int) =~= entries@);
                while j > 0
                    invariant
                        self@.contains_key(topic@),
                        entries@ == self@[topic@],
                        j <= entries@.len(),
                        last_local(entries@) == last_local(entries@.subrange(0, j as int)),
                    decreases j,
                {
                    assert(entries@.subrange(0, j as int).drop_last() =~= entries@.subrange(0, j - 1 as int));
                    if let Time::Local(t) = entries[j - 1].time {
                        assert(entries@.subrange(0, j as int).last() == entries@[j - 1]);
                        return Some(t);
                    }
                    j = j - 1;
                }
                assert(entries@.subrange(0, 0) =~= Seq::<HistoryEntry>::empty());
                None
            },
        }
    }

    /// Records an observed event on `topic`: exactly one entry is appended,
    /// made as `history_entry` makes it, except that a receipt time is never
    /// earlier than the topic's latest one (the wall clock may step back).
    pub fn ingest(&mut self, topic: String, kind: EventKind, payload: Vec<u8>, limit: usize)
        requires
            old(self).wf(),
        ensures
            final(self).wf(),
            final(self).order() == if old(self)@.contains_key(topic@) {
                old(self).order()
            } else {
                old(self).order().push(topic@)
            },
            final(self)@.dom() == old(self)@.dom().insert(topic@),
            forall|k: Seq<char>| k != topic@ && #[trigger] old(self)@.contains_key(k)
                ==> final(self)@[k] == old(self)@[k],
            ({
                let before = if old(self)@.contains_key(topic@) { old(self)@[topic@] } else { Seq::empty() };
                let after = final(self)@[topic@];
                let e = after.last();
                &&& after == before.push(e)
                &&& e.wf()
                &&& e.kind == kind
                &&& kind == EventKind::Delete ==> e.time == Time::Unknown
                &&& kind != EventKind::Delete ==> (e.time matches Time::Local(t) && (last_local(before) matches Some(p) ==> time_le(p, t)))
                &&& e.payload_size == payload.len()
                &&& e.payload.original_size == payload.len()
                &&& e.payload.bytes@ == kept_of(payload@, limit as nat)
                &&& e.payload.spec_is_truncated() == (payload.len() > limit)
            }),
    {
        let mut entry = history_entry(kind, payload, limit);
        let latest = self.last_local_time(topic.as_str());
        if let Time::Local(now) = entry.time {
            if let Some(prev) = latest {
                if !time_le_exec(&prev, &now) {
                    entry.time = Time::Local(prev);
                }
            }
        }
        proof {
            if let Some(prev) = latest {
                let before = if old(self)@.contains_key(topic@) { old(self)@[topic@] } else { Seq::<HistoryEntry>::empty() };
                assert(old(self)@.contains_key(topic@));
                assert(before.len() > 0) by {
                    if before.len() == 0 {
                        assert(last_local(before) is None);
                    }
                }
                self.lemma_last_local_wf(topic@, before.len() as int);
                assert(before.subrange(0, before.len() as int) =~= before);
            }
        }
        self.add(topic, entry);
        proof {
            let before = if old(self)@.contains_key(topic@) { old(self)@[topic@] } else { Seq::empty() };
            assert(self@[topic@] == before.push(entry));
            assert(self@[topic@].last() == entry);
        }
    }

    /// The known topics, in order of first arrival.
    pub fn topics(&self) -> (r: Vec<String>)
        requires
            self.wf(),
        ensures
            r@.map_values(|s: String| s@) == self.order(),
    {
        let mut r: Vec<String> = Vec::new();
        let mut i: usize = 0;
        while i < self.topics.len()
            invariant
                i <= self.topics@.len(),
                r@.map_values(|s: String| s@) == self.order().subrange(0, i as int),
            decreases self.topics@.len() - i,
        {
            let ghost before = r@;
            assert(self.order().subrange(0, i + 1 as int) =~= self.order().subrange(0, i as int).push(
                self.order()[i as int],
            ));
            r.push(self.topics[i].topic.clone());
            i = i + 1;
            assert(r@ == before.push(r@.last()));
            assert(r@.map_values(|s: String| s@) =~= self.order().subrange(0, i as int));
        }
        assert(self.order().subrange(0, i as int) =~= self.order());
        r
    }

    /// The entries of `topic`, if it is known.
    pub fn get(&self, topic: &str) -> (r: Option<&Vec<HistoryEntry>>)
        requires
            self.wf(),
        ensures
            r is None <==> !self@.contains_key(topic@),
            r matches Some(v) ==> v@ == self@[topic@],
    {
        match self.position(topic) {
            Some(i) => {
                assert(self.order()[i as int] == topic@);
                assert(self.order().to_set().contains(topic@));
                Some(&self.topics[i].entries)
            },
            None => None,
        }
    }

    /// The summary shown beside a topic's node: none for an unknown topic or
    /// an empty history.
    pub fn summary(&self, topic: &str) -> (r: Option<TopicSummary>)
        requires
            self.wf(),
        ensures
            r is None <==> !self@.contains_key(topic@) || self@[topic@].len() == 0,
            r matches Some(s) ==> s.entries == self@[topic@].len() && s.last_kind == self@[topic@].last().kind
                && s.last_time == self@[topic@].last().time,
    {
        match self.get(topic) {
            None => None,
            Some(entries) => {
                let n = entries.len();
                if n == 0 {
                    None
                } else {
                    let last = &entries[n - 1];
                    Some(TopicSummary { entries: n, last_kind: last.kind, last_time: last.time })
                }
            },
        }
    }

    /// Every known topic equal to `prefix` or nested below it, segment-wise.
    pub fn get_topics_below(&self, prefix: &str) -> (r: Vec<String>)
        requires
            self.wf(),
        ensures
            r@.map_values(|s: String| s@) == self.topics_below(prefix@),
    {
        let mut r: Vec<String> = Vec::new();
        let mut i: usize = 0;
        while i < self.topics.len()
            invariant
                i <= self.topics@.len(),
                r@.map_values(|s: String| s@) == self.order().subrange(0, i as int).filter(
                    |k: Seq<char>| is_below(k, prefix@),
                ),
            decreases self.topics@.len() - i,
        {
            let ghost pre = self.order().subrange(0, i as int);
            assert(self.order().subrange(0, i + 1 as int) =~= pre.push(self.order()[i as int]));
            proof {
                pre.lemma_filter_push(self.order()[i as int], |k: Seq<char>| is_below(k, prefix@));
            }
            if is_below_exec(self.topics[i].topic.as_str(), prefix) {
                r.push(self.topics[i].topic.clone());
            }
            i = i + 1;
            assert(r@.map_values(|s: String| s@) =~= self.order().subrange(0, i as int).filter(
                |k: Seq<char>| is_below(k, prefix@),
            ));
        }
        assert(self.order().subrange(0, i as int) =~= self.order());
        r
    }

    /// Removes the entry at `index` of `topic` from the local cache only.
    pub fn uncache_topic_entry(&mut self, topic: &str, index: usize) -> (r: Option<HistoryEntry>)
        requires
            old(self).wf(),
        ensures
            final(self).wf(),
            final(self).order() == old(self).order(),
            r is Some <==> (old(self)@.contains_key(topic@) && index < old(self)@[topic@].len()),
            r is None ==> final(self)@ == old(self)@,
            r matches Some(e) ==> e == old(self)@[topic@][index as int] && final(self)@ == old(
                self,
            )@.insert(topic@, old(self)@[topic@].remove(index as int)),
    {
        let ghost m = self.contents@;
        match self.position(topic) {
            None => None,
            Some(i) => {
                if index >= self.topics[i].entries.len() {
                    return None;
                }
                let mut th = self.topics.remove(i);
                let e = th.entries.remove(index);
                self.topics.insert(i, th);
                self.contents = Ghost(m.insert(topic@, m[topic@].remove(index as int)));
                assert(self.order() =~= old(self).order());
                assert(old(self).order()[i as int] == topic@);
                assert(self.contents@.dom() =~= self.order().to_set());
                assert forall|a: int, b: int|
                    0 <= a < self.topics@.len() && 0 <= b < self.topics@[a].entries@.len()
                        implies #[trigger] self.topics@[a].entries@[b].wf() by {
                    if a == i {
                        if b < index {
                            assert(old(self).topics@[a].entries@[b].wf());
                        } else {
                            assert(old(self).topics@[a].entries@[b + 1].wf());
                        }
                    } else {
                        assert(old(self).topics@[a].entries@[b].wf());
                    }
                }
                assert forall|a: int| 0 <= a < self.topics@.len() implies
                    #[trigger] self.contents@[self.topics@[a].topic@] == self.topics@[a].entries@ by {
                    if a != i {
                        assert(old(self).order()[a] == self.topics@[a].topic@);
                    }
                }
                Some(e)
            },
        }
    }
}

/// Whatever events were added, the topics that `get_topics_below` resolves
/// are exactly the known topics equal to or segment-wise nested under the
/// prefix, each once; a topic that merely extends the prefix's last segment
/// (`a/bb` for `a/b`) is never among them.
pub proof fn lemma_topics_below_exact(h: ZenohHistory, prefix: Seq<char>)
    requires
        h.wf(),
    ensures
        h.topics_below(prefix).no_duplicates(),
        forall|k: Seq<char>| #[trigger] h.topics_below(prefix).contains(k) <==> (h@.contains_key(k)
            && is_below(k, prefix)),
        forall|k: Seq<char>| #[trigger] h.topics_below(prefix).contains(k) && k != prefix
            ==> k.len() > prefix.len() && k[prefix.len() as int] == '/',
{
    let f = |k: Seq<char>| is_below(k, prefix);
    broadcast use vstd::seq_lib::group_filter_ensures;

    assert forall|k: Seq<char>| #[trigger] h.topics_below(prefix).contains(k) <==> (h@.contains_key(k)
        && is_below(k, prefix)) by {
        if h.topics_below(prefix).contains(k) {
            h.order().lemma_filter_contains_rev(f, k);
            let j = h.topics_below(prefix).index_of(k);
            assert(f(h.order().filter(f)[j]));
            assert(h.order().to_set().contains(k));
        }
        if h@.contains_key(k) && is_below(k, prefix) {
            assert(h.order().to_set().contains(k));
            let j = h.order().index_of(k);
            assert(h.order().filter(f).contains(h.order()[j]));
        }
    }
    lemma_filter_no_dup(h.order(), f);
}

proof fn lemma_filter_no_dup(s: Seq<Seq<char>>, f: spec_fn(Seq<char>) -> bool)
    requires
        s.no_duplicates(),
    ensures
        s.filter(f).no_duplicates(),
    decreases s.len(),
{
    reveal(Seq::filter);
    if s.len() > 0 {
        let t = s.drop_last();
        assert(t.no_duplicates());
        lemma_filter_no_dup(t, f);
        assert(!t.contains(s.last()));
        if t.filter(f).contains(s.last()) {
            t.lemma_filter_contains_rev(f, s.last());
        }
        assert(s.filter(f) == if f(s.last()) { t.filter(f).push(s.last()) } else { t.filter(f) });
    }
}

} // verus!
