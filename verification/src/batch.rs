//! The batch loader core: an accumulator that groups already-rendered row
//! tuples into insert batches whose serialized text stays inside the packet
//! budget, flushing exactly when the next tuple would not fit.

use vstd::prelude::*;
use vstd::string::*;
use crate::RESERVED_BYTES;
use crate::strings::{
    byte_len, join_seqs, join_strings, lemma_byte_len_ascii_char, lemma_byte_len_concat,
    lemma_byte_len_empty, push_char,
};

verus! {

/// One row rendered as a parenthesized value tuple, as it stands in the
/// insert statement.
pub open spec fn value_set_text(values: Seq<Seq<char>>) -> Seq<char> {
    "("@ + join_seqs(values, ", "@) + ") "@
}

/// Renders one row's literal values as `(v1, v2, …) `.
pub fn render_value_set(values: &Vec<String>) -> (r: String)
    ensures
        r@ == value_set_text(values@.map_values(|v: String| v@)),
{
    let joined = join_strings(values, ", ");
    let mut s = String::new();
    s.append("(");
    s.append(joined.as_str());
    s.append(") ");
    proof {
        assert(s@ =~= value_set_text(values@.map_values(|v: String| v@)));
    }
    s
}

/// Accumulates row tuples for one table into insert batches. The running
/// byte counter always holds the serialized size of the text that the next
/// flush would execute.
pub struct BatchAccumulator {
    insert_statement: String,
    buffer: String,
    total_bytes: usize,
    row_count: usize,
    max_packet_bytes: usize,
}

impl BatchAccumulator {
    /// The insert preamble every batch starts with.
    pub closed spec fn statement(&self) -> Seq<char> {
        self.insert_statement@
    }

    /// The batch text accumulated so far.
    pub closed spec fn buffered(&self) -> Seq<char> {
        self.buffer@
    }

    /// How many row tuples the current batch holds.
    pub closed spec fn pending_rows(&self) -> nat {
        self.row_count as nat
    }

    /// The running byte counter.
    pub closed spec fn counted_bytes(&self) -> nat {
        self.total_bytes as nat
    }

    /// The packet budget batches must stay inside.
    pub closed spec fn budget(&self) -> nat {
        self.max_packet_bytes as nat
    }

    /// The accumulator's internal consistency: the buffer is empty exactly
    /// between batches, and the byte counter measures the buffer (or, for an
    /// empty buffer, the preamble that would start the next batch).
    pub open spec fn inv(&self) -> bool {
        &&& (self.pending_rows() == 0 ==> self.buffered().len() == 0)
        &&& self.counted_bytes() == byte_len(
            if self.pending_rows() == 0 {
                self.statement()
            } else {
                self.buffered()
            },
        )
        &&& byte_len(self.statement()) <= self.counted_bytes()
    }

    /// The separator a tuple needs before it: one comma byte once the batch
    /// already holds a row, nothing for the batch's first tuple.
    pub open spec fn separator_len(&self) -> nat {
        if self.pending_rows() == 0 {
            0
        } else {
            1
        }
    }

    /// Whether appending a tuple of `vb` bytes would leave the budget,
    /// counting the reserved safety margin and the separator the tuple
    /// needs.
    pub open spec fn overflows(&self, vb: nat) -> bool {
        RESERVED_BYTES + self.counted_bytes() + self.separator_len() + vb > self.budget()
    }

    /// Whether a tuple of `vb` bytes fits a fresh batch at all.
    pub open spec fn row_fits(&self, vb: nat) -> bool {
        RESERVED_BYTES + byte_len(self.statement()) + vb <= self.budget()
    }

    /// The byte counter, together with the reserved safety margin, stays
    /// inside the budget, so a flushed batch leaves the margin untouched.
    pub open spec fn within_budget(&self) -> bool {
        self.counted_bytes() + RESERVED_BYTES <= self.budget()
    }

    /// A fresh accumulator for one table's load.
    pub fn new(insert_statement: String, max_packet_bytes: usize) -> (r: Self)
        requires
            byte_len(insert_statement@) <= usize::MAX,
        ensures
            r.inv(),
            r.statement() == insert_statement@,
            r.budget() == max_packet_bytes,
            r.pending_rows() == 0,
            r.buffered().len() == 0,
            r.counted_bytes() == byte_len(insert_statement@),
    {
        let total_bytes = insert_statement.as_str().len();
        BatchAccumulator {
            insert_statement,
            buffer: String::new(),
            total_bytes,
            row_count: 0,
            max_packet_bytes,
        }
    }

    /// Appends one rendered row tuple. When the tuple, its joining
    /// separator, and the reserved margin together would push the batch
    /// over the budget, the accumulated batch is handed back for execution
    /// first and a new batch starts with this tuple.
    pub fn push_row(&mut self, value_set: &str) -> (flushed: Option<String>)
        requires
            old(self).inv(),
            old(self).counted_bytes() + byte_len(value_set@) + RESERVED_BYTES + 1 <= usize::MAX,
            old(self).pending_rows() < usize::MAX,
        ensures
            final(self).inv(),
            final(self).statement() == old(self).statement(),
            final(self).budget() == old(self).budget(),
            if old(self).overflows(byte_len(value_set@)) {
                &&& match flushed {
                    Option::Some(b) => {
                        &&& old(self).pending_rows() > 0
                        &&& b@ == old(self).buffered()
                        &&& byte_len(b@) == old(self).counted_bytes()
                    },
                    Option::None => old(self).pending_rows() == 0,
                }
                &&& final(self).buffered() == old(self).statement() + value_set@
                &&& final(self).pending_rows() == 1
            } else {
                &&& flushed is None
                &&& final(self).buffered() == (if old(self).pending_rows() == 0 {
                    old(self).statement() + value_set@
                } else {
                    old(self).buffered() + seq![','] + value_set@
                })
                &&& final(self).pending_rows() == old(self).pending_rows() + 1
            },
            (!old(self).overflows(byte_len(value_set@)) || old(self).row_fits(
                byte_len(value_set@),
            )) ==> final(self).within_budget(),
    {
        let vb = value_set.len();
        let separator: usize = if self.row_count > 0 {
            1
        } else {
            0
        };
        let mut flushed: Option<String> = None;
        if RESERVED_BYTES + self.total_bytes + separator + vb > self.max_packet_bytes {
            if self.row_count > 0 {
                let mut batch = String::new();
                core::mem::swap(&mut batch, &mut self.buffer);
                flushed = Some(batch);
            }
            self.total_bytes = self.insert_statement.as_str().len();
            self.row_count = 0;
            proof {
                assert(self.buffered().len() == 0);
            }
        }
        if self.row_count > 0 {
            let ghost before = self.buffer@;
            push_char(&mut self.buffer, ',');
            self.total_bytes = self.total_bytes + 1;
            proof {
                assert(before.push(',') =~= before + seq![',']);
                lemma_byte_len_concat(before, seq![',']);
                lemma_byte_len_ascii_char(',');
            }
        }
        if self.row_count == 0 {
            let ghost before = self.buffer@;
            let stmt = self.insert_statement.clone();
            self.buffer.append(stmt.as_str());
            proof {
                assert(before + self.insert_statement@ =~= self.insert_statement@);
            }
        }
        let ghost before_tuple = self.buffer@;
        self.buffer.append(value_set);
        self.total_bytes = self.total_bytes + vb;
        self.row_count = self.row_count + 1;
        proof {
            lemma_byte_len_concat(before_tuple, value_set@);
            if old(self).overflows(byte_len(value_set@)) {
                assert(self.buffered() =~= old(self).statement() + value_set@);
            } else if old(self).pending_rows() == 0 {
                assert(self.buffered() =~= old(self).statement() + value_set@);
            } else {
                lemma_byte_len_concat(old(self).buffered(), seq![',']);
                assert(self.buffered() =~= old(self).buffered() + seq![','] + value_set@);
            }
            lemma_byte_len_concat(old(self).statement(), value_set@);
        }
        flushed
    }

    /// Hands back the final, partially filled batch, if any rows remain.
    pub fn finish(self) -> (r: Option<String>)
        requires
            self.inv(),
        ensures
            match r {
                Option::Some(b) => {
                    &&& self.pending_rows() > 0
                    &&& b@ == self.buffered()
                    &&& byte_len(b@) == self.counted_bytes()
                },
                Option::None => self.pending_rows() == 0,
            },
    {
        if self.row_count > 0 {
            Some(self.buffer)
        } else {
            None
        }
    }
}

/// No batch the accumulator hands out exceeds the packet budget: whenever
/// the byte counter respects the budget (which `push_row` maintains for
/// every tuple that fits a fresh batch), the accumulated text, which is what
/// a flush executes, leaves the whole reserved margin free and so stays
/// under `max_packet_bytes`.
pub proof fn lemma_batch_within_budget(acc: BatchAccumulator)
    requires
        acc.inv(),
        acc.within_budget(),
    ensures
        byte_len(acc.buffered()) + RESERVED_BYTES <= acc.budget(),
        byte_len(acc.buffered()) <= acc.budget(),
{
    if acc.pending_rows() == 0 {
        assert(acc.buffered() =~= Seq::<char>::empty());
        lemma_byte_len_empty();
    }
}

} // verus!
