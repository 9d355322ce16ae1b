//! The log of commands that ran: a bounded store that numbers each entry
//! and keeps only the most recent ones.

use std::collections::VecDeque;
use vstd::prelude::*;

verus! {

broadcast use vstd::std_specs::vecdeque::group_vec_dequeue_axioms;

/// The most entries that the store keeps; older ones are dropped.
pub const MAX_ENTRIES: usize = 200;

/// One command that ran, with what it printed and how it ended.
pub struct LogEntry {
    pub id: u64,
    pub time: String,
    pub command: String,
    pub stdout: String,
    pub stderr: String,
    pub exit_code: i32,
    pub duration_ms: u64,
}

/// The mathematical value of a [`LogEntry`].
pub struct LogRecord {
    pub id: u64,
    pub time: Seq<char>,
    pub command: Seq<char>,
    pub stdout: Seq<char>,
    pub stderr: Seq<char>,
    pub exit_code: i32,
    pub duration_ms: u64,
}

impl View for LogEntry {
    type V = LogRecord;

    open spec fn view(&self) -> LogRecord {
        LogRecord {
            id: self.id,
            time: self.time@,
            command: self.command@,
            stdout: self.stdout@,
            stderr: self.stderr@,
            exit_code: self.exit_code,
            duration_ms: self.duration_ms,
        }
    }
}

impl Clone for LogEntry {
    fn clone(&self) -> (res: Self)
        ensures
            res == *self,
    {
        LogEntry {
            id: self.id,
            time: self.time.clone(),
            command: self.command.clone(),
            stdout: self.stdout.clone(),
            stderr: self.stderr.clone(),
            exit_code: self.exit_code,
            duration_ms: self.duration_ms,
        }
    }
}

/// The views of a sequence of entries.
pub open spec fn records_of(entries: Seq<LogEntry>) -> Seq<LogRecord> {
    entries.map_values(|e: LogEntry| e@)
}

/// The mathematical state of a [`LogStore`]: the entries it holds, oldest
/// first, and the id that the next entry will get.
pub struct StoreState {
    pub records: Seq<LogRecord>,
    pub next_id: u64,
}

/// `id + 1`, wrapping around to 0 past `u64::MAX`.
pub open spec fn next_after(id: u64) -> u64 {
    if id == u64::MAX {
        0
    } else {
        (id + 1) as u64
    }
}

/// The record with its id replaced by `id`.
pub open spec fn with_id(r: LogRecord, id: u64) -> LogRecord {
    LogRecord { id, ..r }
}

/// The last `MAX_ENTRIES` elements of `s` (all of them when there are fewer).
pub open spec fn most_recent(s: Seq<LogRecord>) -> Seq<LogRecord> {
    if s.len() > MAX_ENTRIES {
        s.skip(s.len() - MAX_ENTRIES)
    } else {
        s
    }
}

impl StoreState {
    /// The state after `entry` is added: it gets the next id, is appended
    /// last, the oldest entries beyond `MAX_ENTRIES` are dropped, and the
    /// next id moves on by one.
    pub open spec fn pushed(self, entry: LogRecord) -> StoreState {
        StoreState {
            records: most_recent(self.records.push(with_id(entry, self.next_id))),
            next_id: next_after(self.next_id),
        }
    }

    /// The entries whose id is greater than `id`, in the order held.
    pub open spec fn newer_than(self, id: u64) -> Seq<LogRecord> {
        self.records.filter(|r: LogRecord| r.id > id)
    }

    /// The ids held increase strictly from oldest to newest, and all lie
    /// below the next id.
    pub open spec fn ids_ascending(self) -> bool {
        &&& forall|i: int, j: int|
            0 <= i < j < self.records.len() ==> #[trigger] self.records[i].id
                < #[trigger] self.records[j].id
        &&& forall|i: int| 0 <= i < self.records.len() ==> #[trigger] self.records[i].id < self.next_id
    }
}

/// A bounded log of the commands that ran, oldest first.
pub struct LogStore {
    entries: VecDeque<LogEntry>,
    next_id: u64,
}

impl View for LogStore {
    type V = StoreState;

    closed spec fn view(&self) -> StoreState {
        StoreState { records: records_of(self.entries@), next_id: self.next_id }
    }
}

impl LogStore {
    #[verifier::type_invariant]
    spec fn bounded(&self) -> bool {
        self.entries@.len() <= MAX_ENTRIES
    }

    /// An empty store whose first entry will get id 1.
    pub fn new() -> (s: Self)
        ensures
            s@.records == Seq::<LogRecord>::empty(),
            s@.next_id == 1,
    {
        let s = LogStore { entries: VecDeque::new(), next_id: 1 };
        proof {
            assert(records_of(s.entries@) =~= Seq::<LogRecord>::empty());
        }
        s
    }

    /// Adds `entry` under the next id (its own id is ignored), dropping the
    /// oldest entries beyond `MAX_ENTRIES`.
    pub fn push(&mut self, entry: LogEntry)
        ensures
            final(self)@ == old(self)@.pushed(entry@),
            final(self)@.records.len() <= MAX_ENTRIES,
    {
        proof {
            use_type_invariant(&*self);
        }
        let id = self.next_id;
        let mut entry = entry;
        entry.id = id;
        let ghost stamped = entry;
        let mut entries: VecDeque<LogEntry> = VecDeque::new();
        std::mem::swap(&mut entries, &mut self.entries);
        let ghost held = entries@;
        entries.push_back(entry);
        let ghost appended = held.push(stamped);
        while entries.len() > MAX_ENTRIES
            invariant
                appended.len() <= MAX_ENTRIES + 1,
                entries@.len() <= appended.len(),
                entries@.len() < appended.len() ==> entries@.len() >= MAX_ENTRIES,
                entries@ == appended.skip(appended.len() - entries@.len()),
            decreases entries@.len(),
        {
            entries.pop_front();
        }
        let ghost k = appended.len() - entries@.len();
        self.entries = entries;
        self.next_id = if id == u64::MAX {
            0
        } else {
            id + 1
        };
        proof {
            assert(records_of(appended) =~= records_of(held).push(stamped@));
            assert(records_of(appended.skip(k)) =~= records_of(appended).skip(k));
        }
    }

    /// The entries whose id is greater than `id`, oldest first.
    pub fn since(&self, id: u64) -> (res: Vec<LogEntry>)
        ensures
            records_of(res@) == self@.newer_than(id),
    {
        let mut res: Vec<LogEntry> = Vec::new();
        let n = self.entries.len();
        let ghost pred = |r: LogRecord| r.id > id;
        let ghost all = records_of(self.entries@);
        let mut i: usize = 0;
        while i < n
            invariant
                n == self.entries@.len(),
                i <= n,
                all == records_of(self.entries@),
                pred == (|r: LogRecord| r.id > id),
                records_of(res@) == all.take(i as int).filter(pred),
            decreases n - i,
        {
            let e = &self.entries[i];
            proof {
                assert(all[i as int] == e@);
                assert(all.take(i + 1) =~= all.take(i as int).push(all[i as int]));
                all.take(i as int).lemma_filter_push(all[i as int], pred);
            }
            let ghost prev = res@;
            if e.id > id {
                res.push(e.clone());
                proof {
                    assert(records_of(res@) =~= records_of(prev).push(all[i as int]));
                }
            }
            i = i + 1;
        }
        proof {
            assert(all.take(n as int) =~= all);
        }
        res
    }

    /// All the entries held, oldest first.
    pub fn all(&self) -> (res: Vec<LogEntry>)
        ensures
            records_of(res@) == self@.records,
    {
        let mut res: Vec<LogEntry> = Vec::new();
        let n = self.entries.len();
        let mut i: usize = 0;
        while i < n
            invariant
                n == self.entries@.len(),
                i <= n,
                res@ == self.entries@.take(i as int),
            decreases n - i,
        {
            res.push(self.entries[i].clone());
            proof {
                assert(self.entries@.take(i + 1) =~= self.entries@.take(i as int).push(
                    self.entries@[i as int],
                ));
            }
            i = i + 1;
        }
        proof {
            assert(self.entries@.take(n as int) =~= self.entries@);
        }
        res
    }
}

/// Filtering keeps nothing when no element passes.
proof fn lemma_filter_none(s: Seq<LogRecord>, pred: spec_fn(LogRecord) -> bool)
    requires
        forall|i: int| 0 <= i < s.len() ==> !pred(#[trigger] s[i]),
    ensures
        s.filter(pred) == Seq::<LogRecord>::empty(),
    decreases s.len(),
{
    reveal(Seq::filter);
    if s.len() > 0 {
        lemma_filter_none(s.drop_last(), pred);
    }
    assert(s.filter(pred) =~= Seq::<LogRecord>::empty());
}

/// Filtering keeps everything when every element passes.
proof fn lemma_filter_every(s: Seq<LogRecord>, pred: spec_fn(LogRecord) -> bool)
    requires
        forall|i: int| 0 <= i < s.len() ==> pred(#[trigger] s[i]),
    ensures
        s.filter(pred) == s,
    decreases s.len(),
{
    reveal(Seq::filter);
    if s.len() > 0 {
        lemma_filter_every(s.drop_last(), pred);
        assert(s.drop_last().push(s.last()) =~= s);
    }
}

/// A store never holds more than `MAX_ENTRIES` entries after a push.
pub proof fn lemma_push_bounded(s: StoreState, entry: LogRecord)
    ensures
        s.pushed(entry).records.len() <= MAX_ENTRIES,
{
}

/// The newest entry after a push is the pushed one, under the id that was
/// next, and the next id moves on by one (wrapping past `u64::MAX`).
pub proof fn lemma_push_newest(s: StoreState, entry: LogRecord)
    ensures
        s.pushed(entry).records.len() > 0,
        s.pushed(entry).records.last() == with_id(entry, s.next_id),
        s.pushed(entry).next_id == next_after(s.next_id),
{
}

/// A push keeps the entries held, oldest first, and drops only the oldest
/// one, and only when the store was full.
pub proof fn lemma_push_drops_oldest(s: StoreState, entry: LogRecord)
    requires
        s.records.len() <= MAX_ENTRIES,
    ensures
        s.records.len() < MAX_ENTRIES ==> s.pushed(entry).records == s.records.push(
            with_id(entry, s.next_id),
        ),
        s.records.len() == MAX_ENTRIES ==> s.pushed(entry).records == s.records.skip(1).push(
            with_id(entry, s.next_id),
        ),
{
    let appended = s.records.push(with_id(entry, s.next_id));
    if s.records.len() == MAX_ENTRIES {
        assert(appended.skip(1) =~= s.records.skip(1).push(with_id(entry, s.next_id)));
    }
}

/// The id carried by the entry handed to a push does not matter.
pub proof fn lemma_push_ignores_given_id(s: StoreState, entry: LogRecord, id: u64)
    ensures
        s.pushed(with_id(entry, id)) == s.pushed(entry),
{
    assert(with_id(with_id(entry, id), s.next_id) == with_id(entry, s.next_id));
}

/// An empty store, as `LogStore::new` makes it, has ascending ids.
pub proof fn lemma_new_ids_ascending()
    ensures
        (StoreState { records: Seq::<LogRecord>::empty(), next_id: 1 }).ids_ascending(),
{
}

/// A push keeps the ids ascending, unless the next id has reached
/// `u64::MAX` and wraps around.
pub proof fn lemma_push_keeps_ids_ascending(s: StoreState, entry: LogRecord)
    requires
        s.ids_ascending(),
        s.next_id < u64::MAX,
    ensures
        s.pushed(entry).ids_ascending(),
{
    let appended = s.records.push(with_id(entry, s.next_id));
    let t = s.pushed(entry);
    assert forall|i: int, j: int| 0 <= i < j < t.records.len() implies #[trigger] t.records[i].id
        < #[trigger] t.records[j].id by {
        let k = appended.len() - t.records.len();
        assert(t.records[i] == appended[i + k]);
        assert(t.records[j] == appended[j + k]);
    }
    assert forall|i: int| 0 <= i < t.records.len() implies #[trigger] t.records[i].id
        < t.next_id by {
        let k = appended.len() - t.records.len();
        assert(t.records[i] == appended[i + k]);
    }
}

/// Polling: a reader that has seen every id below the next one, and asks
/// for the entries newer than the last of them, gets exactly the entry
/// pushed since, under the id it was given.
pub proof fn lemma_since_after_push(s: StoreState, entry: LogRecord)
    requires
        s.ids_ascending(),
        s.next_id > 0,
    ensures
        s.pushed(entry).newer_than((s.next_id - 1) as u64) == seq![with_id(entry, s.next_id)],
{
    let last_seen = (s.next_id - 1) as u64;
    let pred = |r: LogRecord| r.id > last_seen;
    let stamped = with_id(entry, s.next_id);
    let appended = s.records.push(stamped);
    let t = s.pushed(entry);
    let k = appended.len() - t.records.len();
    let front = t.records.drop_last();
    assert forall|i: int| 0 <= i < front.len() implies !pred(#[trigger] front[i]) by {
        assert(front[i] == s.records[i + k]);
    }
    lemma_filter_none(front, pred);
    assert(front.push(t.records.last()) =~= t.records);
    front.lemma_filter_push(t.records.last(), pred);
    assert(t.records.last() == stamped);
    assert(Seq::<LogRecord>::empty().push(stamped) =~= seq![stamped]);
}

/// A reader that asks for the entries newer than id 0 gets every entry,
/// as long as no entry carries id 0 (ids start at 1 and reach 0 only by
/// wrapping around).
pub proof fn lemma_since_zero_is_all(s: StoreState)
    requires
        forall|i: int| 0 <= i < s.records.len() ==> #[trigger] s.records[i].id > 0,
    ensures
        s.newer_than(0) == s.records,
{
    lemma_filter_every(s.records, |r: LogRecord| r.id > 0);
}

/// A poll since `id` answers with held entries only, each newer than `id`,
/// and leaves out no held entry newer than `id`, however many there are.
pub proof fn lemma_newer_than_exactly_the_newer(s: StoreState, id: u64)
    ensures
        forall|j: int|
            0 <= j < s.newer_than(id).len() ==> #[trigger] s.newer_than(id)[j].id > id
                && s.records.contains(s.newer_than(id)[j]),
        forall|i: int|
            0 <= i < s.records.len() && #[trigger] s.records[i].id > id ==> s.newer_than(
                id,
            ).contains(s.records[i]),
        s.newer_than(id).len() <= s.records.len(),
{
    let pred = |r: LogRecord| r.id > id;
    assert forall|j: int| 0 <= j < s.newer_than(id).len() implies #[trigger] s.newer_than(
        id,
    )[j].id > id && s.records.contains(s.newer_than(id)[j]) by {
        s.records.lemma_filter_pred(pred, j);
        let x = s.records.filter(pred)[j];
        assert(s.records.filter(pred).contains(x));
        s.records.lemma_filter_contains_rev(pred, x);
    }
    assert forall|i: int| 0 <= i < s.records.len() && #[trigger] s.records[i].id > id implies s.newer_than(
        id,
    ).contains(s.records[i]) by {
        s.records.lemma_filter_contains(pred, i);
    }
    s.records.lemma_filter_len(pred);
}

/// When the entries held are split at `k` into those with ids up to `id`
/// and those with larger ids (as ascending ids always are), a poll since
/// `id` answers with every entry from `k` on, in order.
pub proof fn lemma_newer_than_is_suffix(s: StoreState, id: u64, k: int)
    requires
        0 <= k <= s.records.len(),
        forall|i: int| 0 <= i < k ==> #[trigger] s.records[i].id <= id,
        forall|i: int| k <= i < s.records.len() ==> #[trigger] s.records[i].id > id,
    ensures
        s.newer_than(id) == s.records.skip(k),
{
    let pred = |r: LogRecord| r.id > id;
    let front = s.records.take(k);
    let back = s.records.skip(k);
    assert(s.records =~= front + back);
    Seq::filter_distributes_over_add(front, back, pred);
    assert forall|i: int| 0 <= i < front.len() implies !pred(#[trigger] front[i]) by {
        assert(front[i] == s.records[i]);
    }
    lemma_filter_none(front, pred);
    assert forall|i: int| 0 <= i < back.len() implies pred(#[trigger] back[i]) by {
        assert(back[i] == s.records[i + k]);
    }
    lemma_filter_every(back, pred);
    assert(Seq::<LogRecord>::empty() + back =~= back);
}

/// The store holds up to 200 entries: below that a push keeps every entry
/// and adds one; at 200 it drops the oldest one and stays at 200.
pub proof fn lemma_store_holds_two_hundred(s: StoreState, entry: LogRecord)
    ensures
        s.records.len() < 200 ==> s.pushed(entry).records.len() == s.records.len() + 1
            && s.pushed(entry).records.take(s.records.len() as int) == s.records,
        s.records.len() >= 200 ==> s.pushed(entry).records.len() == 200,
        s.records.len() == 200 ==> s.pushed(entry).records.take(199) == s.records.skip(1),
{
    let appended = s.records.push(with_id(entry, s.next_id));
    if s.records.len() < 200 {
        assert(appended.take(s.records.len() as int) =~= s.records);
    }
    if s.records.len() == 200 {
        assert(appended.skip(1).take(199) =~= s.records.skip(1));
    }
}

} // verus!
