use vstd::prelude::*;

verus! {

#[derive(Debug)]
pub struct WalEntry {
    pub term: u64,
    pub index: u64,
    pub data: Vec<u8>,
}

/// The in-memory side of the write-ahead log: the entries and the index the
/// next append gets. The file at `path` holds one line per entry; the caller
/// reads and writes it.
pub struct WriteAheadLog {
    path: String,
    entries: Vec<WalEntry>,
    next_index: u64,
}

/// The entries after replay keep every record that could be read.
pub open spec fn replayed(records: Seq<Option<WalEntry>>) -> Seq<WalEntry>
    decreases records.len(),
{
    if records.len() == 0 {
        Seq::empty()
    } else {
        let rest = replayed(records.drop_last());
        match records.last() {
            Some(e) => rest.push(e),
            None => rest,
        }
    }
}

/// The next index after replay: one past the highest index read, at least 1.
pub open spec fn replayed_next(records: Seq<Option<WalEntry>>) -> u64
    decreases records.len(),
{
    if records.len() == 0 {
        1
    } else {
        let rest = replayed_next(records.drop_last());
        match records.last() {
            Some(e) => if e.index >= rest {
                (e.index + 1) as u64
            } else {
                rest
            },
            None => rest,
        }
    }
}

/// Entry indices start at 1, go strictly up, and stay below `next`.
pub open spec fn indices_ordered(s: Seq<WalEntry>, next: u64) -> bool {
    &&& forall|i: int| 0 <= i < s.len() ==> 1 <= #[trigger] s[i].index < next
    &&& forall|i: int, j: int| 0 <= i < j < s.len() ==> #[trigger] s[i].index < #[trigger] s[j].index
}

pub open spec fn index_above(before: u64) -> spec_fn(WalEntry) -> bool {
    |e: WalEntry| e.index > before
}

impl WriteAheadLog {
    /// The entries the log holds, in order.
    pub closed spec fn log(&self) -> Seq<WalEntry> {
        self.entries@
    }

    /// The index the next append gets.
    pub closed spec fn next(&self) -> u64 {
        self.next_index
    }

    /// The file the log's lines go to.
    pub closed spec fn file(&self) -> Seq<char> {
        self.path@
    }

    /// The index the next append gets.
    pub fn next_index(&self) -> (r: u64)
        ensures
            r == self.next(),
    {
        self.next_index
    }

    /// The file the log's lines go to.
    pub fn path(&self) -> (r: &String)
        ensures
            r@ == self.file(),
    {
        &self.path
    }

    /// The log's indices are in order: from 1, strictly increasing, below the
    /// next index. A new log is so, and appends and truncations keep it so.
    pub open spec fn ordered(&self) -> bool {
        indices_ordered(self.log(), self.next())
    }

    /// An empty log for `path`, whose first append gets index 1.
    pub fn new(path: String) -> (w: Self)
        ensures
            w.file() == path@,
            w.log() == Seq::<WalEntry>::empty(),
            w.next() == 1,
            w.ordered(),
    {
        WriteAheadLog { path, entries: Vec::new(), next_index: 1 }
    }

    /// Rebuild the log from the records read back from its file, in file
    /// order; `None` stands for a line that holds no entry (blank or corrupt),
    /// which is skipped.
    pub fn replay(&mut self, records: Vec<Option<WalEntry>>)
        requires
            forall|i: int|
                0 <= i < records@.len() ==> (#[trigger] records@[i] matches Some(e) ==> e.index
                    < u64::MAX),
        ensures
            final(self).log() == replayed(records@),
            final(self).next() == replayed_next(records@),
            final(self).file() == old(self).file(),
    {
        self.entries = Vec::new();
        self.next_index = 1;
        let ghost all = records@;
        let mut records = records;
        let mut rev: Vec<Option<WalEntry>> = Vec::new();
        while records.len() > 0
            invariant
                rev@.len() + records@.len() == all.len(),
                forall|i: int| 0 <= i < records@.len() ==> records@[i] == all[i],
                forall|i: int|
                    0 <= i < rev@.len() ==> #[trigger] rev@[i] == all[all.len() - 1 - i],
            decreases records@.len(),
        {
            let r = records.pop().unwrap();
            rev.push(r);
        }
        let n = rev.len();
        let mut i: usize = 0;
        while i < n
            invariant
                n == all.len(),
                i <= n,
                forall|j: int| 0 <= j < rev@.len() ==> #[trigger] rev@[j] == all[n - 1 - j],
                forall|j: int|
                    0 <= j < n ==> (#[trigger] all[j] matches Some(e) ==> e.index < u64::MAX),
                rev@.len() + i == n,
                self.entries@ == replayed(all.take(i as int)),
                self.next_index == replayed_next(all.take(i as int)),
                self.path == old(self).path,
            decreases n - i,
        {
            let ghost t = all.take(i + 1);
            assert(t.drop_last() =~= all.take(i as int));
            let r = rev.pop().unwrap();
            assert(r == all[i as int]);
            assert(t.last() == all[i as int]);
            match r {
                Some(entry) => {
                    if entry.index >= self.next_index {
                        self.next_index = entry.index + 1;
                    }
                    self.entries.push(entry);
                },
                None => {},
            }
            i += 1;
        }
        assert(all.take(n as int) =~= all);
    }

    /// Record an entry with the next index and the given term in memory (the
    /// caller has written its line to the file); returns its index.
    pub fn append(&mut self, term: u64, data: Vec<u8>) -> (index: u64)
        requires
            old(self).next() < u64::MAX,
        ensures
            index == old(self).next(),
            final(self).next() == old(self).next() + 1,
            final(self).log() == old(self).log().push(WalEntry { term, index, data }),
            final(self).file() == old(self).file(),
            old(self).ordered() && old(self).next() >= 1 ==> final(self).ordered(),
    {
        let index = self.next_index;
        self.entries.push(WalEntry { term, index, data });
        self.next_index = self.next_index + 1;
        index
    }

    /// Drop every entry with an index up to and including `before_index`;
    /// the rest keep their order (the caller then rewrites the file).
    pub fn truncate_before(&mut self, before_index: u64)
        ensures
            final(self).log() == old(self).log().filter(index_above(before_index)),
            final(self).next() == old(self).next(),
            final(self).file() == old(self).file(),
            old(self).ordered() ==> final(self).ordered(),
    {
        let ghost all = self.entries@;
        let mut kept: Vec<WalEntry> = Vec::new();
        let mut rev: Vec<WalEntry> = Vec::new();
        while self.entries.len() > 0
            invariant
                rev@.len() + self.entries@.len() == all.len(),
                forall|i: int| 0 <= i < self.entries@.len() ==> self.entries@[i] == all[i],
                forall|i: int|
                    0 <= i < rev@.len() ==> #[trigger] rev@[i] == all[all.len() - 1 - i],
                self.next_index == old(self).next_index,
                self.path == old(self).path,
            decreases self.entries@.len(),
        {
            let e = self.entries.pop().unwrap();
            rev.push(e);
        }
        let n = rev.len();
        let mut i: usize = 0;
        while i < n
            invariant
                n == all.len(),
                rev@.len() + i == n,
                i <= n,
                forall|j: int| 0 <= j < rev@.len() ==> #[trigger] rev@[j] == all[n - 1 - j],
                kept@ == all.take(i as int).filter(index_above(before_index)),
                self.next_index == old(self).next_index,
                self.path == old(self).path,
            decreases n - i,
        {
            let ghost t = all.take(i + 1);
            assert(t.drop_last() =~= all.take(i as int));
            let e = rev.pop().unwrap();
            assert(e == all[i as int]);
            reveal_with_fuel(Seq::<_>::filter, 1);
            if e.index > before_index {
                kept.push(e);
            }
            i += 1;
        }
        assert(all.take(n as int) =~= all);
        self.entries = kept;
        proof {
            if indices_ordered(all, self.next_index) {
                law_filter_keeps_order(all, index_above(before_index), self.next_index);
            }
        }
    }

    /// Get the last appended index (0 when empty).
    pub fn last_index(&self) -> (r: u64)
        ensures
            r == if self.log().len() == 0 {
                0
            } else {
                self.log().last().index
            },
    {
        let n = self.entries.len();
        if n == 0 {
            0
        } else {
            self.entries[n - 1].index
        }
    }

    /// Get the last appended term (0 when empty).
    pub fn last_term(&self) -> (r: u64)
        ensures
            r == if self.log().len() == 0 {
                0
            } else {
                self.log().last().term
            },
    {
        let n = self.entries.len();
        if n == 0 {
            0
        } else {
            self.entries[n - 1].term
        }
    }

    /// Get all entries (for state reconstruction).
    pub fn entries(&self) -> (r: &[WalEntry])
        ensures
            r@ == self.log(),
    {
        self.entries.as_slice()
    }

    /// Total number of entries in the log.
    pub fn len(&self) -> (n: usize)
        ensures
            n == self.log().len(),
    {
        self.entries.len()
    }

    /// Check if the log is empty.
    pub fn is_empty(&self) -> (b: bool)
        ensures
            b == (self.log().len() == 0),
    {
        self.entries.len() == 0
    }
}

/// What an append writes is what the log then reads back as its last entry.
pub proof fn law_append_then_read(
    before: Seq<WalEntry>,
    after: Seq<WalEntry>,
    term: u64,
    index: u64,
    data: Vec<u8>,
)
    requires
        after == before.push(WalEntry { term, index, data }),
    ensures
        after.len() == before.len() + 1,
        after.last().index == index,
        after.last().term == term,
        after.last().data == data,
        forall|i: int| 0 <= i < before.len() ==> after[i] == before[i],
{
}

/// Truncation keeps exactly the entries above the cut, in order, and
/// truncating twice at the same point changes nothing more.
pub proof fn law_truncate(entries: Seq<WalEntry>, before: u64)
    ensures
        forall|i: int|
            0 <= i < entries.filter(index_above(before)).len() ==> #[trigger] entries.filter(
                index_above(before),
            )[i].index > before,
        forall|i: int|
            0 <= i < entries.len() && entries[i].index > before ==> entries.filter(
                index_above(before),
            ).contains(#[trigger] entries[i]),
        entries.filter(index_above(before)).filter(index_above(before)) == entries.filter(
            index_above(before),
        ),
    decreases entries.len(),
{
    broadcast use vstd::seq_lib::group_filter_ensures;

    let f = entries.filter(index_above(before));
    assert forall|i: int|
        0 <= i < entries.len() && entries[i].index > before implies f.contains(
            #[trigger] entries[i],
        ) by {
        entries.lemma_filter_contains(index_above(before), i);
    }
    law_filter_idempotent(entries, index_above(before));
}

/// Keeping some of the entries keeps their indices in order.
pub proof fn law_filter_keeps_order(s: Seq<WalEntry>, p: spec_fn(WalEntry) -> bool, next: u64)
    requires
        indices_ordered(s, next),
    ensures
        indices_ordered(s.filter(p), next),
    decreases s.len(),
{
    reveal_with_fuel(Seq::<_>::filter, 1);
    if s.len() > 0 {
        let d = s.drop_last();
        assert(indices_ordered(d, next)) by {
            assert forall|i: int, j: int| 0 <= i < j < d.len() implies #[trigger] d[i].index < #[trigger] d[j].index by {
                assert(s[i].index < s[j].index);
            }
            assert forall|i: int| 0 <= i < d.len() implies 1 <= #[trigger] d[i].index < next by {
                assert(1 <= s[i].index < next);
            }
        }
        law_filter_keeps_order(d, p, next);
        let r = d.filter(p);
        if p(s.last()) {
            let t = r.push(s.last());
            assert(s.filter(p) == t);
            assert forall|i: int| 0 <= i < r.len() implies #[trigger] r[i].index < s.last().index by {
                assert(r.contains(r[i]));
                d.lemma_filter_contains_rev(p, r[i]);
                assert(d.contains(r[i]));
                let k = choose|k: int| 0 <= k < d.len() && d[k] == r[i];
                assert(s[k].index < s[s.len() - 1].index);
            }
            assert forall|i: int, j: int| 0 <= i < j < t.len() implies #[trigger] t[i].index < #[trigger] t[j].index by {
                if j == r.len() {
                    assert(t[i] == r[i]);
                } else {
                    assert(t[i] == r[i] && t[j] == r[j]);
                }
            }
            assert forall|i: int| 0 <= i < t.len() implies 1 <= #[trigger] t[i].index < next by {
                if i < r.len() {
                    assert(t[i] == r[i]);
                } else {
                    assert(1 <= s[s.len() - 1].index < next);
                }
            }
        }
    }
}

pub proof fn law_filter_idempotent(s: Seq<WalEntry>, p: spec_fn(WalEntry) -> bool)
    ensures
        s.filter(p).filter(p) == s.filter(p),
    decreases s.len(),
{
    reveal_with_fuel(Seq::<_>::filter, 1);
    if s.len() > 0 {
        law_filter_idempotent(s.drop_last(), p);
        let r = s.drop_last().filter(p);
        if p(s.last()) {
            assert(r.push(s.last()).drop_last() =~= r);
        }
    }
}

/// One change to a log: an append of a term and data, or a truncation
/// before an index.
pub enum WalCall {
    Append(u64, Vec<u8>),
    Truncate(u64),
}

/// `b` is `a` after the call, as `append` and `truncate_before` state it.
pub open spec fn wal_step(a: WriteAheadLog, c: WalCall, b: WriteAheadLog) -> bool {
    match c {
        WalCall::Append(term, data) => {
            &&& b.log() == a.log().push(WalEntry { term, index: a.next(), data })
            &&& b.next() == a.next() + 1
        },
        WalCall::Truncate(before) => {
            &&& b.log() == a.log().filter(index_above(before))
            &&& b.next() == a.next()
        },
    }
}

/// The entries and next index after the calls, from an empty log.
pub open spec fn wal_after(calls: Seq<WalCall>) -> (Seq<WalEntry>, int)
    decreases calls.len(),
{
    if calls.len() == 0 {
        (Seq::empty(), 1)
    } else {
        let (es, next) = wal_after(calls.drop_last());
        match calls.last() {
            WalCall::Append(term, data) => (es.push(WalEntry { term, index: next as u64, data }), next + 1),
            WalCall::Truncate(before) => (es.filter(index_above(before)), next),
        }
    }
}

/// A log made by `new` and changed only by appends and truncations holds, in
/// call order, the entry of each append (numbered from 1) minus those a
/// later truncation dropped; its indices are in order.
pub proof fn law_log_contents(logs: Seq<WriteAheadLog>, calls: Seq<WalCall>)
    requires
        logs.len() == calls.len() + 1,
        logs[0].log() == Seq::<WalEntry>::empty(),
        logs[0].next() == 1,
        forall|i: int| 0 <= i < calls.len() ==> #[trigger] wal_step(logs[i], calls[i], logs[i + 1]),
    ensures
        logs[calls.len() as int].log() == wal_after(calls).0,
        logs[calls.len() as int].next() == wal_after(calls).1,
        logs[calls.len() as int].ordered(),
        logs[calls.len() as int].next() >= 1,
    decreases calls.len(),
{
    if calls.len() == 0 {
        assert(indices_ordered(Seq::<WalEntry>::empty(), 1));
    } else {
        let k = calls.len() - 1;
        let l2 = logs.take(k + 1);
        let c2 = calls.drop_last();
        assert forall|i: int| 0 <= i < c2.len() implies #[trigger] wal_step(l2[i], c2[i], l2[i + 1]) by {
            assert(wal_step(logs[i], calls[i], logs[i + 1]));
        }
        law_log_contents(l2, c2);
        assert(l2[k] == logs[k]);
        assert(wal_step(logs[k], calls[k], logs[k + 1]));
        let a = logs[k];
        let b = logs[k + 1];
        match calls[k] {
            WalCall::Append(term, data) => {
                assert(b.ordered()) by {
                    let t = b.log();
                    assert forall|i: int| 0 <= i < t.len() implies 1 <= #[trigger] t[i].index < b.next() by {
                        if i < a.log().len() {
                            assert(t[i] == a.log()[i]);
                        }
                    }
                    assert forall|i: int, j: int| 0 <= i < j < t.len() implies #[trigger] t[i].index < #[trigger] t[j].index by {
                        assert(t[i] == a.log()[i]);
                        if j < a.log().len() {
                            assert(t[j] == a.log()[j]);
                        }
                    }
                }
            },
            WalCall::Truncate(before) => {
                law_filter_keeps_order(a.log(), index_above(before), a.next());
            },
        }
    }
}

} // verus!
