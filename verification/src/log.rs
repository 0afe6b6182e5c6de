//! The Log Store: an append-only sequence of terminated entries with
//! 1-based, contiguous indices, supporting the positional append with
//! conflict truncation that `AppendEntries` handling needs.

use vstd::prelude::*;

use crate::types::{EntryV, LogEntry, LogIndex, Term};

verus! {

/// The term of the entry at 1-based position `i`, or 0 when there is no
/// such entry (in particular at the imaginary position 0 in front of the
/// log).
pub open spec fn term_at(log: Seq<EntryV>, i: int) -> Term {
    if 1 <= i <= log.len() {
        log[i - 1].term
    } else {
        0
    }
}

/// The consistency check of `AppendEntries`: the log has an entry of term
/// `term` at position `index`; position 0 always matches.
pub open spec fn matches_at(log: Seq<EntryV>, index: int, term: Term) -> bool {
    index == 0 || (1 <= index <= log.len() && log[index - 1].term == term)
}

/// The result of appending `entries` positionally right after position `p`
/// (0-based offset) into `log`: entries whose term already matches are left
/// untouched; at the first conflict the old suffix is truncated and the
/// rest of `entries` is appended; if nothing conflicts and nothing is new,
/// the log is unchanged.
pub open spec fn merged(log: Seq<EntryV>, p: int, entries: Seq<EntryV>) -> Seq<EntryV>
    decreases entries.len(),
{
    if entries.len() == 0 {
        log
    } else if p < log.len() && log[p].term == entries[0].term {
        merged(log, p + 1, entries.drop_first())
    } else {
        log.take(p) + entries
    }
}

/// The offset of the first entry of `entries` that does not already sit,
/// with the same term, at its position right after position `p` of `log`:
/// the point where [`merged`] stops skipping and starts truncating or
/// appending (`entries.len()` when every entry already matches).
pub open spec fn conflict_offset(log: Seq<EntryV>, p: int, entries: Seq<EntryV>) -> int
    decreases entries.len(),
{
    if entries.len() == 0 {
        0
    } else if p < log.len() && log[p].term == entries[0].term {
        1 + conflict_offset(log, p + 1, entries.drop_first())
    } else {
        0
    }
}

/// How [`merged`] decomposes at the conflict offset: if every entry already
/// matched, the log is left unchanged; otherwise everything from the
/// conflict point on is replaced by the remaining entries.
pub proof fn lemma_merged_at_conflict(log: Seq<EntryV>, p: int, entries: Seq<EntryV>)
    requires
        0 <= p <= log.len(),
    ensures
        0 <= conflict_offset(log, p, entries) <= entries.len(),
        p + conflict_offset(log, p, entries) <= log.len(),
        forall|j: int|
            0 <= j < conflict_offset(log, p, entries) ==> (#[trigger] log[p + j]).term
                == entries[j].term,
        conflict_offset(log, p, entries) == entries.len() ==> merged(log, p, entries) == log,
        conflict_offset(log, p, entries) < entries.len() ==> merged(log, p, entries) == log.take(
            p + conflict_offset(log, p, entries),
        ) + entries.skip(conflict_offset(log, p, entries)),
    decreases entries.len(),
{
    if entries.len() == 0 {
    } else if p < log.len() && log[p].term == entries[0].term {
        lemma_merged_at_conflict(log, p + 1, entries.drop_first());
        let k = conflict_offset(log, p, entries);
        assert forall|j: int| 0 <= j < k implies (#[trigger] log[p + j]).term == entries[j].term by {
            if j > 0 {
                assert(entries.drop_first()[j - 1] == entries[j]);
                assert(log[(p + 1) + (j - 1)].term == entries.drop_first()[j - 1].term);
            }
        }
        if k < entries.len() {
            assert(entries.drop_first().skip(k - 1) =~= entries.skip(k));
        }
    } else {
        assert(entries.skip(0) =~= entries);
    }
}

/// Shape facts about `merged` that hold for every well-placed append.
pub proof fn lemma_merged_basic(log: Seq<EntryV>, p: int, entries: Seq<EntryV>)
    requires
        0 <= p <= log.len(),
    ensures
        p + entries.len() <= merged(log, p, entries).len(),
        merged(log, p, entries).len() == log.len() || merged(log, p, entries).len() == p
            + entries.len(),
        forall|i: int| 0 <= i < p ==> merged(log, p, entries)[i] == log[i],
        forall|j: int|
            0 <= j < entries.len() ==> merged(log, p, entries)[p + j].term == entries[j].term,
    decreases entries.len(),
{
    if entries.len() == 0 {
    } else if p < log.len() && log[p].term == entries[0].term {
        lemma_merged_basic(log, p + 1, entries.drop_first());
        assert forall|j: int|
            0 <= j < entries.len() implies merged(log, p, entries)[p + j].term == entries[j].term by {
            if j > 0 {
                assert(entries.drop_first()[j - 1] == entries[j]);
            }
        }
    } else {
        assert forall|j: int|
            0 <= j < entries.len() implies merged(log, p, entries)[p + j].term == entries[j].term by {
            assert((log.take(p) + entries)[p + j] == entries[j]);
        }
    }
}

/// The Log Store. Indices are 1-based and contiguous from 1; the entry at
/// index `i` sits at position `i - 1` of the vector.
pub struct Log {
    pub entries: Vec<LogEntry>,
}

impl View for Log {
    type V = Seq<EntryV>;

    open spec fn view(&self) -> Seq<EntryV> {
        self.entries.deep_view()
    }
}

impl Log {
    /// The empty log.
    pub fn new() -> (r: Log)
        ensures
            r@.len() == 0,
    {
        Log { entries: Vec::new() }
    }

    /// The index of the last entry, 0 when the log is empty.
    pub fn last_index(&self) -> (r: LogIndex)
        ensures
            r == self@.len(),
    {
        self.entries.len() as u64
    }

    /// The term of the entry at `index`, 0 when there is none.
    pub fn term_of(&self, index: LogIndex) -> (t: Term)
        ensures
            t == term_at(self@, index as int),
    {
        if 1 <= index && index <= self.entries.len() as u64 {
            self.entries[(index - 1) as usize].term
        } else {
            0
        }
    }

    /// Index and term of the last entry; `(0, 0)` when the log is empty.
    pub fn last_index_and_term(&self) -> (r: (LogIndex, Term))
        ensures
            r.0 == self@.len(),
            r.1 == term_at(self@, self@.len() as int),
    {
        let last = self.last_index();
        (last, self.term_of(last))
    }

    /// The entry at 1-based `index`, or `None` when the log has no such
    /// position.
    pub fn get(&self, index: LogIndex) -> (r: Option<&LogEntry>)
        ensures
            (1 <= index <= self@.len()) ==> (r matches Some(e) && e@ == self@[index - 1]),
            !(1 <= index <= self@.len()) ==> r is None,
    {
        if 1 <= index && index <= self.entries.len() as u64 {
            Some(&self.entries[(index - 1) as usize])
        } else {
            None
        }
    }

    /// Whether the log passes the `AppendEntries` consistency check at
    /// `index` with `term`.
    pub fn matches_at(&self, index: LogIndex, term: Term) -> (r: bool)
        ensures
            r == matches_at(self@, index as int, term),
    {
        index == 0 || (index <= self.entries.len() as u64 && self.term_of(index) == term)
    }

    /// Appends `entry` at the end of the log.
    pub fn push(&mut self, entry: LogEntry)
        ensures
            final(self)@ == old(self)@.push(entry@),
    {
        let ghost pre = self@;
        self.entries.push(entry);
        proof {
            assert(self@ =~= pre.push(entry@));
        }
    }

    /// The offset of the first entry of `entries` that conflicts with this
    /// log when placed right after position `at - 1`: entries before the
    /// offset already sit in the log with the same term; at the offset the
    /// log either ends or disagrees on the term (offset `entries.len()`
    /// means nothing conflicts and nothing is missing).
    pub fn find_conflict(&self, at: LogIndex, entries: &Vec<LogEntry>) -> (k: usize)
        requires
            1 <= at <= self@.len() + 1,
        ensures
            k == conflict_offset(self@, at - 1, entries.deep_view()),
            k <= entries@.len(),
            at - 1 + k <= self@.len(),
            forall|j: int|
                0 <= j < k ==> self@[at - 1 + j].term == entries.deep_view()[j].term,
            k < entries@.len() ==> (at - 1 + k == self@.len() || self@[at - 1 + k].term
                != entries.deep_view()[k as int].term),
    {
        proof {
            assert(self.entries.len() == self@.len());
        }
        let ghost ev = entries.deep_view();
        let p: usize = (at - 1) as usize;
        let mut k: usize = 0;
        proof {
            assert(ev.skip(0) =~= ev);
        }
        while k < entries.len() && p + k < self.entries.len() && self.entries[p + k].term
            == entries[k].term
            invariant
                ev == entries.deep_view(),
                p == at - 1,
                p + k <= self.entries.len(),
                k <= entries@.len(),
                forall|j: int|
                    0 <= j < k ==> self@[p + j].term == entries.deep_view()[j].term,
                conflict_offset(self@, p as int, ev) == k + conflict_offset(
                    self@,
                    p + k,
                    ev.skip(k as int),
                ),
            decreases entries@.len() - k,
        {
            proof {
                assert(ev.len() == entries@.len());
                assert(ev.skip(k as int)[0] == ev[k as int]);
                assert(self@[p + k].term == ev[k as int].term);
                assert(ev.skip(k as int).drop_first() =~= ev.skip(k + 1));
            }
            k += 1;
        }
        proof {
            if k < entries.len() {
                assert(ev.skip(k as int)[0] == ev[k as int]);
                assert(conflict_offset(self@, p + k, ev.skip(k as int)) == 0);
            } else {
                assert(ev.skip(k as int) =~= Seq::<EntryV>::empty());
                assert(conflict_offset(self@, p + k, ev.skip(k as int)) == 0);
            }
        }
        k
    }

    /// Appends `entries` positionally right after position `at - 1`,
    /// truncating a conflicting suffix first; the result is exactly
    /// [`merged`].
    pub fn append_from(&mut self, at: LogIndex, entries: &Vec<LogEntry>)
        requires
            1 <= at <= old(self)@.len() + 1,
        ensures
            final(self)@ == merged(old(self)@, at - 1, entries.deep_view()),
    {
        let ghost pre = self@;
        let ghost ev = entries.deep_view();
        proof {
            assert(self.entries.len() == self@.len());
        }
        let p: usize = (at - 1) as usize;
        let mut k: usize = 0;
        proof {
            assert(ev.skip(0) =~= ev);
        }
        while k < entries.len() && p + k < self.entries.len() && self.entries[p + k].term
            == entries[k].term
            invariant
                self == old(self),
                pre == self@,
                ev == entries.deep_view(),
                p == at - 1,
                p + k <= self.entries.len(),
                k <= entries@.len(),
                merged(pre, p as int, ev) == merged(pre, p + k, ev.skip(k as int)),
            decreases entries@.len() - k,
        {
            proof {
                assert(ev.len() == entries@.len());
                assert(ev.skip(k as int)[0] == ev[k as int]);
                assert(pre[p + k].term == ev[k as int].term);
                assert(ev.skip(k as int).drop_first() =~= ev.skip(k + 1));
                assert(merged(pre, p + k, ev.skip(k as int)) == merged(
                    pre,
                    p + k + 1,
                    ev.skip(k + 1),
                ));
            }
            k += 1;
        }
        if k == entries.len() {
            proof {
                assert(ev.skip(k as int) =~= Seq::<EntryV>::empty());
                assert(merged(pre, p + k, ev.skip(k as int)) == pre);
            }
        } else {
            proof {
                assert(merged(pre, p + k, ev.skip(k as int)) == pre.take(p + k) + ev.skip(
                    k as int,
                ));
            }
            self.entries.truncate(p + k);
            proof {
                assert(self@ =~= pre.take(p + k));
            }
            let mut j: usize = k;
            while j < entries.len()
                invariant
                    k <= j <= entries@.len(),
                    p + k <= pre.len(),
                    ev == entries.deep_view(),
                    self@ =~= pre.take(p + k) + ev.subrange(k as int, j as int),
                decreases entries@.len() - j,
            {
                let ghost before = self@;
                self.entries.push(entries[j].duplicate());
                proof {
                    assert(self@ =~= before.push(ev[j as int]));
                    assert(self@ =~= pre.take(p + k) + ev.subrange(k as int, j + 1));
                }
                j += 1;
            }
            proof {
                assert(ev.subrange(k as int, ev.len() as int) =~= ev.skip(k as int));
                assert(self@ =~= pre.take(p + k) + ev.skip(k as int));
            }
        }
    }

    /// Copies of the entries at the 0-based positions `from..to`, in order:
    /// what gets delivered when the commit index advances from `from` to
    /// `to`.
    pub fn range(&self, from: LogIndex, to: LogIndex) -> (v: Vec<LogEntry>)
        requires
            0 <= from <= to <= self@.len(),
        ensures
            v.deep_view() == self@.subrange(from as int, to as int),
    {
        proof {
            assert(self.entries.len() == self@.len());
        }
        let mut v: Vec<LogEntry> = Vec::new();
        let mut i: usize = from as usize;
        let end: usize = to as usize;
        proof {
            assert(v.deep_view() =~= self@.subrange(from as int, i as int));
        }
        while i < end
            invariant
                from <= i <= end,
                end == to,
                end <= self.entries.len(),
                self.entries.len() == self@.len(),
                v.deep_view() == self@.subrange(from as int, i as int),
            decreases end - i,
        {
            let ghost before = v.deep_view();
            v.push(self.entries[i].duplicate());
            proof {
                assert(v.deep_view() =~= before.push(self@[i as int]));
                assert(forall|j: int|
                    0 <= j < i - from ==> #[trigger] self@.subrange(from as int, i as int)[j]
                        == self@[from + j]);
                assert(before.push(self@[i as int]) =~= self@.subrange(from as int, i + 1));
            }
            i += 1;
        }
        v
    }

    /// Copies of the entries from 1-based index `from` through the end of
    /// the log, in order; the payload of an `AppendEntries` starting there.
    pub fn suffix(&self, from: LogIndex) -> (v: Vec<LogEntry>)
        requires
            1 <= from <= self@.len() + 1,
        ensures
            v.deep_view() == self@.skip(from - 1),
    {
        proof {
            assert(self.entries.len() == self@.len());
        }
        let mut v: Vec<LogEntry> = Vec::new();
        let mut i: usize = (from - 1) as usize;
        proof {
            assert(v.deep_view() =~= self@.subrange(from - 1, i as int));
        }
        while i < self.entries.len()
            invariant
                1 <= from,
                from - 1 <= i <= self.entries.len(),
                self.entries.len() == self@.len(),
                v.deep_view() == self@.subrange(from - 1, i as int),
            decreases self@.len() - i,
        {
            let ghost before = v.deep_view();
            v.push(self.entries[i].duplicate());
            proof {
                assert(v.deep_view() =~= before.push(self@[i as int]));
                assert(forall|j: int|
                    0 <= j < i - (from - 1) ==> #[trigger] self@.subrange(from - 1, i as int)[j]
                        == self@[from - 1 + j]);
                assert(before.push(self@[i as int]) =~= self@.subrange(from - 1, i + 1));
            }
            i += 1;
        }
        proof {
            assert(self@.subrange(from - 1, self@.len() as int) =~= self@.skip(from - 1));
        }
        v
    }

    /// The 1-based index of the first entry whose term is `term`; used as
    /// the back-off hint of a failed `AppendEntries`.
    pub fn first_index_of_term(&self, term: Term) -> (r: LogIndex)
        requires
            exists|j: int| 0 <= j < self@.len() && self@[j].term == term,
        ensures
            1 <= r <= self@.len(),
            self@[r - 1].term == term,
            forall|j: int| 0 <= j < r - 1 ==> self@[j].term != term,
    {
        proof {
            assert(self.entries.len() == self@.len());
        }
        let mut i: usize = 0;
        while self.entries[i].term != term
            invariant
                self.entries.len() == self@.len(),
                0 <= i < self@.len(),
                exists|j: int| i <= j < self@.len() && self@[j].term == term,
                forall|j: int| 0 <= j < i ==> self@[j].term != term,
            decreases self@.len() - i,
        {
            i += 1;
        }
        (i + 1) as u64
    }
}

} // verus!
