//! The chunker: accumulates stream reads into size-bounded parts.
//!
//! The executable [`Chunker`] appends each read to a growing part
//! accumulator and emits the accumulated bytes as one part whenever they
//! reach the configured threshold. The spec function [`split_parts`] is the
//! mathematical model of that process over a whole sequence of reads.

use vstd::prelude::*;

verus! {

/// Total number of bytes across a sequence of reads.
pub open spec fn total_len(reads: Seq<Seq<u8>>) -> int
    decreases reads.len(),
{
    if reads.len() == 0 {
        0
    } else {
        reads[0].len() + total_len(reads.drop_first())
    }
}

/// The parts and the trailing remainder that accumulating `reads` against
/// `threshold` produces, starting from accumulator `acc`: each read is
/// appended to the accumulator, and whenever the accumulator holds at least
/// `threshold` bytes it is emitted as one part and reset to empty.
pub open spec fn split_parts(reads: Seq<Seq<u8>>, threshold: int, acc: Seq<u8>) -> (Seq<Seq<u8>>, Seq<u8>)
    decreases reads.len(),
{
    if reads.len() == 0 {
        (Seq::empty(), acc)
    } else {
        let grown = acc + reads[0];
        if grown.len() >= threshold {
            let rest = split_parts(reads.drop_first(), threshold, Seq::empty());
            (seq![grown] + rest.0, rest.1)
        } else {
            split_parts(reads.drop_first(), threshold, grown)
        }
    }
}

/// Appending one more read to the stream extends the split by one step:
/// the remainder grows by the read, and becomes a new part exactly when it
/// reaches the threshold.
pub proof fn lemma_split_parts_snoc(reads: Seq<Seq<u8>>, threshold: int, acc: Seq<u8>, r: Seq<u8>)
    ensures
        ({
            let before = split_parts(reads, threshold, acc);
            let after = split_parts(reads.push(r), threshold, acc);
            let grown = before.1 + r;
            if grown.len() >= threshold {
                after.0 =~~= before.0.push(grown) && after.1 =~= Seq::<u8>::empty()
            } else {
                after.0 =~~= before.0 && after.1 =~= grown
            }
        }),
    decreases reads.len(),
{
    let p = reads.push(r);
    if reads.len() == 0 {
        assert(p[0] == r);
        assert(p.drop_first() =~= Seq::<Seq<u8>>::empty());
        assert(split_parts(Seq::<Seq<u8>>::empty(), threshold, Seq::<u8>::empty())
            == (Seq::<Seq<u8>>::empty(), Seq::<u8>::empty()));
        assert(split_parts(Seq::<Seq<u8>>::empty(), threshold, acc + r)
            == (Seq::<Seq<u8>>::empty(), acc + r));
        assert(split_parts(p, threshold, acc).0 == if (acc + r).len() >= threshold {
            seq![acc + r] + split_parts(p.drop_first(), threshold, Seq::<u8>::empty()).0
        } else {
            split_parts(p.drop_first(), threshold, acc + r).0
        });
    } else {
        assert(p[0] == reads[0]);
        assert(p.drop_first() =~= reads.drop_first().push(r));
        let grown0 = acc + reads[0];
        if grown0.len() >= threshold {
            lemma_split_parts_snoc(reads.drop_first(), threshold, Seq::empty(), r);
        } else {
            lemma_split_parts_snoc(reads.drop_first(), threshold, grown0, r);
        }
    }
}

/// Byte and length conservation: the emitted parts followed by the
/// remainder are exactly the starting accumulator followed by every read,
/// so no byte is lost, duplicated, or reordered by chunking.
pub proof fn lemma_split_parts_conserves(reads: Seq<Seq<u8>>, threshold: int, acc: Seq<u8>)
    ensures
        ({
            let split = split_parts(reads, threshold, acc);
            &&& split.0.flatten() + split.1 =~= acc + reads.flatten()
            &&& total_len(split.0) + split.1.len() == acc.len() + total_len(reads)
        }),
    decreases reads.len(),
{
    let split = split_parts(reads, threshold, acc);
    if reads.len() == 0 {
        assert(split.0.flatten() =~= Seq::<u8>::empty());
        assert(reads.flatten() =~= Seq::<u8>::empty());
    } else {
        let grown = acc + reads[0];
        assert(reads.flatten() == reads[0] + reads.drop_first().flatten());
        if grown.len() >= threshold {
            let rest = split_parts(reads.drop_first(), threshold, Seq::empty());
            lemma_split_parts_conserves(reads.drop_first(), threshold, Seq::empty());
            assert(split.0 == seq![grown] + rest.0);
            assert(split.0.drop_first() =~= rest.0);
            assert(split.0.flatten() == grown + rest.0.flatten());
            assert(split.0[0] == grown);
            assert(total_len(split.0) == grown.len() + total_len(rest.0));
        } else {
            lemma_split_parts_conserves(reads.drop_first(), threshold, grown);
        }
    }
}

/// When the accumulator starts below the threshold, every emitted part
/// holds at least `threshold` bytes and the remainder stays below it.
pub proof fn lemma_split_parts_sizes(reads: Seq<Seq<u8>>, threshold: int, acc: Seq<u8>)
    requires
        acc.len() < threshold,
    ensures
        ({
            let split = split_parts(reads, threshold, acc);
            &&& forall|i: int| 0 <= i < split.0.len() ==> #[trigger] split.0[i].len() >= threshold
            &&& split.1.len() < threshold
        }),
    decreases reads.len(),
{
    let split = split_parts(reads, threshold, acc);
    if reads.len() == 0 {
    } else {
        let grown = acc + reads[0];
        if grown.len() >= threshold {
            let rest = split_parts(reads.drop_first(), threshold, Seq::empty());
            lemma_split_parts_sizes(reads.drop_first(), threshold, Seq::empty());
            assert(split.0[0] == grown);
            assert(forall|i: int|
                1 <= i < split.0.len() ==> #[trigger] split.0[i] == rest.0[i - 1]);
        } else {
            lemma_split_parts_sizes(reads.drop_first(), threshold, grown);
        }
    }
}

/// No part is ever emitted exactly when the whole stream (on top of the
/// starting accumulator) stays below the threshold.
pub proof fn lemma_split_parts_empty_iff_small(reads: Seq<Seq<u8>>, threshold: int, acc: Seq<u8>)
    requires
        acc.len() < threshold,
    ensures
        split_parts(reads, threshold, acc).0.len() == 0
            <==> acc.len() + total_len(reads) < threshold,
    decreases reads.len(),
{
    if reads.len() == 0 {
    } else {
        let grown = acc + reads[0];
        assert(total_len(reads) == reads[0].len() + total_len(reads.drop_first()));
        if grown.len() >= threshold {
            lemma_total_len_nonneg(reads.drop_first());
            assert(split_parts(reads, threshold, acc).0.len() > 0);
        } else {
            lemma_split_parts_empty_iff_small(reads.drop_first(), threshold, grown);
        }
    }
}

/// When every element of `parts` holds exactly `l` bytes, the total is
/// `parts.len() * l`.
pub proof fn lemma_uniform_total_len(parts: Seq<Seq<u8>>, l: int)
    requires
        forall|i: int| 0 <= i < parts.len() ==> #[trigger] parts[i].len() == l,
    ensures
        total_len(parts) == parts.len() * l,
    decreases parts.len(),
{
    if parts.len() == 0 {
    } else {
        assert(forall|i: int|
            0 <= i < parts.drop_first().len() ==> #[trigger] parts.drop_first()[i].len() == l);
        lemma_uniform_total_len(parts.drop_first(), l);
        assert(total_len(parts) == parts[0].len() + total_len(parts.drop_first()));
        assert((parts.len() - 1) * l + l == parts.len() * l) by (nonlinear_arith);
    }
}

/// The ceiling law for the part count: when every emitted part holds
/// exactly `threshold` bytes and the stream leaves a nonzero remainder,
/// the emitted parts together with the final remainder part are exactly
/// `ceil(total / threshold)` many. (With a zero remainder the engine still
/// dispatches one empty final part, and an emitted part can exceed the
/// threshold when a read straddles it, so both hypotheses are needed.)
pub proof fn lemma_part_count_is_ceil(reads: Seq<Seq<u8>>, threshold: int)
    requires
        threshold >= 1,
        forall|i: int|
            0 <= i < split_parts(reads, threshold, Seq::<u8>::empty()).0.len()
                ==> #[trigger] split_parts(reads, threshold, Seq::<u8>::empty()).0[i].len()
                    == threshold,
        split_parts(reads, threshold, Seq::<u8>::empty()).1.len() > 0,
    ensures
        split_parts(reads, threshold, Seq::<u8>::empty()).0.len() + 1
            == (total_len(reads) + threshold - 1) / threshold,
{
    let split = split_parts(reads, threshold, Seq::<u8>::empty());
    let n = split.0.len() as int;
    let r = split.1.len() as int;
    let total = total_len(reads);
    lemma_split_parts_conserves(reads, threshold, Seq::<u8>::empty());
    lemma_uniform_total_len(split.0, threshold);
    lemma_split_parts_sizes(reads, threshold, Seq::<u8>::empty());
    assert(total == n * threshold + r);
    assert(total + threshold - 1 == (n + 1) * threshold + (r - 1)) by (nonlinear_arith)
        requires
            total == n * threshold + r,
    ;
    vstd::arithmetic::div_mod::lemma_fundamental_div_mod_converse(
        total + threshold - 1,
        threshold,
        n + 1,
        r - 1,
    );
}

/// Total lengths are never negative.
pub proof fn lemma_total_len_nonneg(reads: Seq<Seq<u8>>)
    ensures
        total_len(reads) >= 0,
    decreases reads.len(),
{
    if reads.len() > 0 {
        lemma_total_len_nonneg(reads.drop_first());
    }
}

/// Reads a byte stream incrementally: grows a part accumulator and counts
/// the total bytes seen, emitting the accumulated bytes as one part each
/// time they reach `threshold`.
pub struct Chunker {
    pub threshold: usize,
    pub accumulator: Vec<u8>,
    pub total_bytes: usize,
}

impl Chunker {
    /// The accumulator always stays strictly below the threshold between
    /// pushes, and never holds more bytes than were read in total.
    pub open spec fn wf(self) -> bool {
        &&& self.threshold >= 1
        &&& self.accumulator@.len() < self.threshold
        &&& self.accumulator@.len() <= self.total_bytes
    }

    pub fn new(threshold: usize) -> (c: Chunker)
        requires
            threshold >= 1,
        ensures
            c.threshold == threshold,
            c.accumulator@ == Seq::<u8>::empty(),
            c.total_bytes == 0,
            c.wf(),
    {
        Chunker { threshold, accumulator: Vec::new(), total_bytes: 0 }
    }

    /// Appends one read to the part accumulator and counts its bytes.
    /// Returns the full accumulated part exactly when the accumulator has
    /// reached the threshold; the accumulator is then reset to empty.
    pub fn push(&mut self, chunk: &[u8]) -> (part: Option<Vec<u8>>)
        requires
            old(self).wf(),
            old(self).total_bytes + chunk@.len() <= usize::MAX,
        ensures
            final(self).wf(),
            final(self).threshold == old(self).threshold,
            final(self).total_bytes == old(self).total_bytes + chunk@.len(),
            ({
                let grown = old(self).accumulator@ + chunk@;
                if grown.len() >= old(self).threshold {
                    &&& part matches Some(p) && p@ == grown
                    &&& final(self).accumulator@ == Seq::<u8>::empty()
                } else {
                    &&& part is None
                    &&& final(self).accumulator@ == grown
                }
            }),
    {
        self.accumulator.extend_from_slice(chunk);
        self.total_bytes = self.total_bytes + chunk.len();
        if self.accumulator.len() >= self.threshold {
            let mut part: Vec<u8> = Vec::new();
            core::mem::swap(&mut self.accumulator, &mut part);
            Some(part)
        } else {
            None
        }
    }

    /// Hands out whatever the accumulator still holds at end of stream,
    /// resetting it to empty.
    pub fn take_remainder(&mut self) -> (rest: Vec<u8>)
        ensures
            rest@ == old(self).accumulator@,
            final(self).accumulator@ == Seq::<u8>::empty(),
            final(self).threshold == old(self).threshold,
            final(self).total_bytes == old(self).total_bytes,
            old(self).wf() ==> final(self).wf(),
    {
        let mut rest: Vec<u8> = Vec::new();
        core::mem::swap(&mut self.accumulator, &mut rest);
        rest
    }
}

} // verus!
