//! Grouping insert statements into batches of bounded size, and recording
//! how each batch's commit went.
use vstd::prelude::*;
use crate::BATCH_LIMIT;
use crate::text::{decimal, push_decimal};

verus! {

broadcast use vstd::string::group_string_axioms;

/// The text a batch starts with.
pub open spec fn batch_open() -> Seq<char> {
    "BEGIN BATCH\n"@
}

/// The text a batch ends with.
pub open spec fn batch_close() -> Seq<char> {
    "APPLY BATCH;\n"@
}

/// The rows written one after the other.
pub open spec fn joined(rows: Seq<Seq<char>>) -> Seq<char>
    decreases rows.len(),
{
    if rows.len() == 0 {
        Seq::empty()
    } else {
        joined(rows.drop_last()) + rows.last()
    }
}

/// Length of a batch buffer holding rows `start..end`, without its closing text.
pub open spec fn buffer_len(rows: Seq<Seq<char>>, start: int, end: int) -> int {
    (batch_open().len() + joined(rows.subrange(start, end)).len()) as int
}

/// Text of the batch that commits rows `start..end`.
pub open spec fn batch_text(rows: Seq<Seq<char>>, start: int, end: int) -> Seq<char> {
    batch_open() + joined(rows.subrange(start, end)) + batch_close()
}

/// The number of rows in the batches before batch `b`.
pub open spec fn counts_before(counts: Seq<nat>, b: int) -> int
    decreases b,
{
    if b <= 0 {
        0
    } else {
        counts_before(counts, b - 1) + counts[b - 1]
    }
}

/// Batch `b` holds at least one row, and its buffer was within the limit
/// before its last row was added (else it would have been flushed earlier).
pub open spec fn batch_within(rows: Seq<Seq<char>>, counts: Seq<nat>, b: int) -> bool {
    let s = counts_before(counts, b);
    &&& counts[b] > 0
    &&& buffer_len(rows, s, s + counts[b] - 1) <= BATCH_LIMIT
}

/// Batch `b` passed the limit with its last row, which is what flushes a
/// batch before the rows run out.
pub open spec fn batch_full(rows: Seq<Seq<char>>, counts: Seq<nat>, b: int) -> bool {
    let s = counts_before(counts, b);
    buffer_len(rows, s, s + counts[b]) > BATCH_LIMIT
}

/// `counts` cuts `rows`, in order, into the batches that flushing on passing
/// the limit produces: every row in exactly one batch, every batch but the
/// last flushed as soon as it passed the limit, and the last one within the
/// limit up to its final row.
pub open spec fn is_split(rows: Seq<Seq<char>>, counts: Seq<nat>) -> bool {
    &&& counts_before(counts, counts.len() as int) == rows.len()
    &&& forall|b: int| 0 <= b < counts.len() ==> #[trigger] batch_within(rows, counts, b)
    &&& forall|b: int| 0 <= b < counts.len() - 1 ==> #[trigger] batch_full(rows, counts, b)
}

/// One flushed batch: its statement, and how many rows it writes.
pub struct Batch {
    pub statement: String,
    pub count: usize,
}

/// The row counts of a list of batches.
pub open spec fn batch_counts(batches: Seq<Batch>) -> Seq<nat> {
    batches.map_values(|b: Batch| b.count as nat)
}

/// The characters of each string.
pub open spec fn texts(v: Seq<String>) -> Seq<Seq<char>> {
    v.map_values(|s: String| s@)
}

proof fn lemma_joined_step(rows: Seq<Seq<char>>, start: int, end: int)
    requires
        0 <= start <= end < rows.len(),
    ensures
        joined(rows.subrange(start, end + 1)) == joined(rows.subrange(start, end)) + rows[end],
{
    assert(rows.subrange(start, end + 1).drop_last() =~= rows.subrange(start, end));
}

proof fn lemma_counts_before_push(counts: Seq<nat>, c: nat, b: int)
    requires
        0 <= b <= counts.len(),
    ensures
        counts_before(counts.push(c), b) == counts_before(counts, b),
    decreases b,
{
    if b > 0 {
        lemma_counts_before_push(counts, c, b - 1);
    }
}

/// A list of rows whose buffer passes the limit before its last row is
/// committed in more than one batch.
pub proof fn lemma_split_flushes_more_than_once(rows: Seq<Seq<char>>, counts: Seq<nat>)
    requires
        is_split(rows, counts),
        rows.len() >= 1,
        buffer_len(rows, 0, rows.len() - 1) > BATCH_LIMIT,
    ensures
        counts.len() >= 2,
{
    if counts.len() == 0 {
        assert(counts_before(counts, 0) == 0);
    } else if counts.len() == 1 {
        assert(counts_before(counts, 0) == 0);
        assert(counts_before(counts, 1) == counts[0]);
        assert(batch_within(rows, counts, 0));
    }
}

/// Cuts `rows` into batches, flushing a batch as soon as its buffer passes
/// [`BATCH_LIMIT`] characters and flushing what remains after the last row.
pub fn split_batches(rows: &Vec<String>) -> (r: Vec<Batch>)
    ensures
        is_split(texts(rows@), batch_counts(r@)),
        forall|b: int|
            0 <= b < r@.len() ==> #[trigger] r@[b].statement@ == batch_text(
                texts(rows@),
                counts_before(batch_counts(r@), b),
                counts_before(batch_counts(r@), b) + r@[b].count,
            ),
{
    let ghost rv = texts(rows@);
    let mut out: Vec<Batch> = Vec::new();
    let mut buf = String::from_str("BEGIN BATCH\n");
    proof {
        reveal_strlit("BEGIN BATCH\n");
    }
    let mut buf_len: usize = 12;
    let mut cur: usize = 0;
    let mut j: usize = 0;
    assert(rv.subrange(0, 0) =~= Seq::<Seq<char>>::empty());
    assert(buf@ =~= batch_open() + joined(rv.subrange(0, 0)));
    while j < rows.len()
        invariant
            rv == texts(rows@),
            rv.len() == rows@.len(),
            batch_open().len() == 12,
            cur <= j <= rows@.len(),
            buf@ == batch_open() + joined(rv.subrange(cur as int, j as int)),
            buf_len == buf@.len(),
            buf_len <= BATCH_LIMIT,
            counts_before(batch_counts(out@), out@.len() as int) == cur,
            forall|b: int| 0 <= b < out@.len() ==> #[trigger] batch_within(rv, batch_counts(out@), b),
            forall|b: int| 0 <= b < out@.len() ==> #[trigger] batch_full(rv, batch_counts(out@), b),
            forall|b: int|
                0 <= b < out@.len() ==> #[trigger] out@[b].statement@ == batch_text(
                    rv,
                    counts_before(batch_counts(out@), b),
                    counts_before(batch_counts(out@), b) + out@[b].count,
                ),
        decreases rows.len() - j,
    {
        let row_len = rows[j].as_str().unicode_len();
        proof {
            lemma_joined_step(rv, cur as int, j as int);
        }
        buf.append(rows[j].as_str());
        if row_len > BATCH_LIMIT - buf_len {
            buf.append("APPLY BATCH;\n");
            let ghost old_out = out@;
            let ghost c = (j + 1 - cur) as nat;
            let batch = Batch { statement: buf, count: j + 1 - cur };
            out.push(batch);
            proof {
                assert(batch_counts(out@) =~= batch_counts(old_out).push(c));
                assert forall|b: int| 0 <= b <= old_out.len() implies counts_before(
                    batch_counts(out@),
                    b,
                ) == counts_before(batch_counts(old_out), b) by {
                    lemma_counts_before_push(batch_counts(old_out), c, b);
                }
                assert(counts_before(batch_counts(out@), out@.len() as int) == j + 1);
                assert forall|b: int| 0 <= b < out@.len() implies #[trigger] batch_within(
                    rv,
                    batch_counts(out@),
                    b,
                ) by {
                    if b < old_out.len() {
                        assert(batch_within(rv, batch_counts(old_out), b));
                    } else {
                        assert(counts_before(batch_counts(out@), b) == cur);
                    }
                }
                assert forall|b: int| 0 <= b < out@.len() implies #[trigger] batch_full(
                    rv,
                    batch_counts(out@),
                    b,
                ) by {
                    if b < old_out.len() {
                        assert(batch_full(rv, batch_counts(old_out), b));
                    } else {
                        assert(counts_before(batch_counts(out@), b) == cur);
                    }
                }
                assert forall|b: int| 0 <= b < out@.len() implies #[trigger] out@[b].statement@
                    == batch_text(
                    rv,
                    counts_before(batch_counts(out@), b),
                    counts_before(batch_counts(out@), b) + out@[b].count,
                ) by {
                    if b < old_out.len() {
                        assert(out@[b] == old_out[b]);
                    } else {
                        assert(counts_before(batch_counts(out@), b) == cur);
                    }
                }
            }
            buf = String::from_str("BEGIN BATCH\n");
            buf_len = 12;
            cur = j + 1;
            assert(rv.subrange(cur as int, cur as int) =~= Seq::<Seq<char>>::empty());
            assert(buf@ =~= batch_open() + joined(rv.subrange(cur as int, cur as int)));
        } else {
            buf_len = buf_len + row_len;
        }
        j = j + 1;
    }
    if cur < rows.len() {
        proof {
            lemma_joined_step(rv, cur as int, rows@.len() - 1);
        }
        buf.append("APPLY BATCH;\n");
        let ghost old_out = out@;
        let ghost c = (rows.len() - cur) as nat;
        let batch = Batch { statement: buf, count: rows.len() - cur };
        out.push(batch);
        proof {
            assert(batch_counts(out@) =~= batch_counts(old_out).push(c));
            assert forall|b: int| 0 <= b <= old_out.len() implies counts_before(
                batch_counts(out@),
                b,
            ) == counts_before(batch_counts(old_out), b) by {
                lemma_counts_before_push(batch_counts(old_out), c, b);
            }
            assert forall|b: int| 0 <= b < out@.len() implies #[trigger] batch_within(
                rv,
                batch_counts(out@),
                b,
            ) by {
                if b < old_out.len() {
                    assert(batch_within(rv, batch_counts(old_out), b));
                } else {
                    assert(counts_before(batch_counts(out@), b) == cur);
                }
            }
            assert forall|b: int| 0 <= b < out@.len() - 1 implies #[trigger] batch_full(
                rv,
                batch_counts(out@),
                b,
            ) by {
                assert(batch_full(rv, batch_counts(old_out), b));
            }
            assert forall|b: int| 0 <= b < out@.len() implies #[trigger] out@[b].statement@
                == batch_text(
                rv,
                counts_before(batch_counts(out@), b),
                counts_before(batch_counts(out@), b) + out@[b].count,
            ) by {
                if b < old_out.len() {
                    assert(out@[b] == old_out[b]);
                } else {
                    assert(counts_before(batch_counts(out@), b) == cur);
                }
            }
        }
    }
    out
}

/// The error recorded for a batch whose commit failed.
pub open spec fn failure_text(count: nat, keyspace: Seq<char>, err: Seq<char>) -> Seq<char> {
    "failed to add "@ + decimal(count) + " combos into "@ + keyspace + ": "@ + err
}

/// The commit of a list of batches, one batch at a time: which batch goes
/// next, and the errors of those that failed so far.
pub struct BatchCommit {
    keyspace: String,
    batches: Vec<Batch>,
    next: usize,
    errors: Vec<String>,
}

impl BatchCommit {
    pub closed spec fn keyspace(&self) -> Seq<char> {
        self.keyspace@
    }

    pub closed spec fn batches(&self) -> Seq<Batch> {
        self.batches@
    }

    /// The index of the batch to commit next.
    pub closed spec fn next_index(&self) -> nat {
        self.next as nat
    }

    pub closed spec fn errors(&self) -> Seq<Seq<char>> {
        texts(self.errors@)
    }

    pub open spec fn wf(&self) -> bool {
        self.next_index() <= self.batches().len()
    }

    /// Starts committing `batches` into `keyspace`.
    pub fn new(keyspace: &str, batches: Vec<Batch>) -> (r: BatchCommit)
        ensures
            r.wf(),
            r.keyspace() == keyspace@,
            r.batches() == batches@,
            r.next_index() == 0,
            r.errors() == Seq::<Seq<char>>::empty(),
    {
        let r = BatchCommit {
            keyspace: String::from_str(keyspace),
            batches,
            next: 0,
            errors: Vec::new(),
        };
        assert(r.errors() =~= Seq::<Seq<char>>::empty());
        r
    }

    /// The statement of the batch to commit next, or `None` once every batch
    /// has been tried.
    pub fn next_statement(&self) -> (r: Option<String>)
        requires
            self.wf(),
        ensures
            self.next_index() < self.batches().len() ==> r == Some(
                self.batches()[self.next_index() as int].statement,
            ),
            self.next_index() == self.batches().len() ==> r is None,
    {
        if self.next < self.batches.len() {
            Some(self.batches[self.next].statement.clone())
        } else {
            None
        }
    }

    /// Records how the current batch's commit went and moves on to the next
    /// batch whatever the outcome: a failed batch never stops the ones after
    /// it from being tried.
    pub fn record(&mut self, failure: Option<String>)
        requires
            old(self).wf(),
            old(self).next_index() < old(self).batches().len(),
        ensures
            final(self).wf(),
            final(self).keyspace() == old(self).keyspace(),
            final(self).batches() == old(self).batches(),
            final(self).next_index() == old(self).next_index() + 1,
            final(self).errors() == match failure {
                Some(err) => old(self).errors().push(
                    failure_text(
                        old(self).batches()[old(self).next_index() as int].count as nat,
                        old(self).keyspace(),
                        err@,
                    ),
                ),
                None => old(self).errors(),
            },
    {
        let ghost before = self.errors@;
        assert(self.next < self.batches.len());
        match failure {
            Some(err) => {
                let mut msg = String::from_str("failed to add ");
                push_decimal(&mut msg, self.batches[self.next].count);
                msg.append(" combos into ");
                msg.append(self.keyspace.as_str());
                msg.append(": ");
                msg.append(err.as_str());
                self.errors.push(msg);
                assert(texts(self.errors@) =~= texts(before).push(
                    failure_text(
                        self.batches@[self.next as int].count as nat,
                        self.keyspace@,
                        err@,
                    ),
                ));
            },
            None => {},
        }
        self.next = self.next + 1;
    }

    /// The errors of the failed batches, in order; `None` where every batch
    /// was committed.
    pub fn finish(self) -> (r: Option<Vec<String>>)
        ensures
            self.errors().len() == 0 ==> r is None,
            self.errors().len() > 0 ==> r is Some && texts(r->0@) == self.errors(),
    {
        if self.errors.len() == 0 {
            None
        } else {
            Some(self.errors)
        }
    }
}

} // verus!
