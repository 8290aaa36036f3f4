//! The secure-shred schedule.
//!
//! Shredding overwrites a file's full length three times — random,
//! zeros, random — flushing and durably syncing after each pass, and
//! unlinks the file only after the last pass. The schedule is
//! computed here as an explicit operation list the embedding
//! application executes in order; the pseudo-random fill bytes are a
//! pure function of the seed the application draws.

use vstd::prelude::*;

verus! {

/// Bytes written per I/O chunk while overwriting.
pub const SHRED_CHUNK: u64 = 65536;

/// Overwrite passes per file.
pub const SHRED_PASSES: u64 = 3;

/// What one overwrite pass fills the file with.
#[derive(PartialEq, Eq, Structural, Clone, Copy, Debug)]
pub enum ShredPattern {
    Random,
    Zero,
}

/// One step of the shred schedule, executed in order.
#[derive(PartialEq, Eq, Structural, Clone, Copy, Debug)]
pub enum ShredOp {
    /// Seek back to the start of the file.
    SeekStart,
    /// Overwrite `len` bytes at `offset` with the pattern.
    Write { pattern: ShredPattern, offset: u64, len: u64 },
    /// Flush buffered writes.
    Flush,
    /// Durably sync the file to disk.
    Sync,
    /// Remove the file. Always the final step.
    Unlink,
}

/// The writes of one pass: chunks covering `offset` up to `size`.
pub open spec fn spec_pass_writes(pattern: ShredPattern, offset: u64, size: u64) -> Seq<ShredOp>
    decreases size - offset,
{
    if offset >= size {
        Seq::empty()
    } else {
        let len = if size - offset < SHRED_CHUNK {
            (size - offset) as u64
        } else {
            SHRED_CHUNK
        };
        seq![ShredOp::Write { pattern, offset, len }] + spec_pass_writes(
            pattern,
            (offset + len) as u64,
            size,
        )
    }
}

/// One full pass: seek to the start, overwrite the whole length,
/// flush, then durably sync before the next pass may begin.
pub open spec fn spec_pass_ops(pattern: ShredPattern, size: u64) -> Seq<ShredOp> {
    seq![ShredOp::SeekStart] + spec_pass_writes(pattern, 0, size) + seq![
        ShredOp::Flush,
        ShredOp::Sync,
    ]
}

/// The whole schedule: three full passes — random, zeros, random —
/// then the unlink; an empty file is simply unlinked.
pub open spec fn spec_shred_plan(size: u64) -> Seq<ShredOp> {
    if size == 0 {
        seq![ShredOp::Unlink]
    } else {
        spec_pass_ops(ShredPattern::Random, size) + spec_pass_ops(ShredPattern::Zero, size)
            + spec_pass_ops(ShredPattern::Random, size) + seq![ShredOp::Unlink]
    }
}

/// Build the writes of one pass.
fn pass_writes(pattern: ShredPattern, size: u64) -> (ops: Vec<ShredOp>)
    ensures
        ops@ == spec_pass_writes(pattern, 0, size),
{
    let mut ops: Vec<ShredOp> = Vec::new();
    let mut offset: u64 = 0;
    proof {
        assert(spec_pass_writes(pattern, 0, size) =~= ops@ + spec_pass_writes(pattern, 0, size));
    }
    while offset < size
        invariant
            0 <= offset <= size || (size == 0 && offset == 0),
            spec_pass_writes(pattern, 0, size) == ops@ + spec_pass_writes(pattern, offset, size),
        decreases size - offset,
    {
        let len = if size - offset < SHRED_CHUNK {
            size - offset
        } else {
            SHRED_CHUNK
        };
        let ghost pre = ops@;
        ops.push(ShredOp::Write { pattern, offset, len });
        proof {
            assert(spec_pass_writes(pattern, offset, size) == seq![
                ShredOp::Write { pattern, offset, len },
            ] + spec_pass_writes(pattern, (offset + len) as u64, size));
            assert(pre + spec_pass_writes(pattern, offset, size) =~= ops@ + spec_pass_writes(
                pattern,
                (offset + len) as u64,
                size,
            ));
        }
        offset = offset + len;
    }
    proof {
        assert(spec_pass_writes(pattern, offset, size) =~= Seq::<ShredOp>::empty());
        assert(ops@ + Seq::<ShredOp>::empty() =~= ops@);
    }
    ops
}

/// Build one full pass.
fn pass_ops(pattern: ShredPattern, size: u64) -> (ops: Vec<ShredOp>)
    ensures
        ops@ == spec_pass_ops(pattern, size),
{
    let mut ops: Vec<ShredOp> = Vec::new();
    ops.push(ShredOp::SeekStart);
    let mut writes = pass_writes(pattern, size);
    ops.append(&mut writes);
    ops.push(ShredOp::Flush);
    ops.push(ShredOp::Sync);
    proof {
        assert(ops@ =~= spec_pass_ops(pattern, size));
    }
    ops
}

/// The exact schedule for shredding a file of the given size.
pub fn shred_plan(size: u64) -> (plan: Vec<ShredOp>)
    ensures
        plan@ == spec_shred_plan(size),
{
    let mut plan: Vec<ShredOp> = Vec::new();
    if size == 0 {
        plan.push(ShredOp::Unlink);
        proof {
            assert(plan@ =~= spec_shred_plan(size));
        }
        return plan;
    }
    let mut p1 = pass_ops(ShredPattern::Random, size);
    let mut p2 = pass_ops(ShredPattern::Zero, size);
    let mut p3 = pass_ops(ShredPattern::Random, size);
    plan.append(&mut p1);
    plan.append(&mut p2);
    plan.append(&mut p3);
    plan.push(ShredOp::Unlink);
    proof {
        assert(plan@ =~= spec_shred_plan(size));
    }
    plan
}

/// Total bytes the writes of a schedule fragment cover.
pub open spec fn sum_write_lens(ops: Seq<ShredOp>) -> int
    decreases ops.len(),
{
    if ops.len() == 0 {
        0
    } else {
        (match ops[0] {
            ShredOp::Write { len, .. } => len as int,
            _ => 0,
        }) + sum_write_lens(ops.drop_first())
    }
}

proof fn lemma_sum_write_lens_concat(a: Seq<ShredOp>, b: Seq<ShredOp>)
    ensures
        sum_write_lens(a + b) == sum_write_lens(a) + sum_write_lens(b),
    decreases a.len(),
{
    if a.len() == 0 {
        assert(a + b =~= b);
    } else {
        lemma_sum_write_lens_concat(a.drop_first(), b);
        assert((a + b).drop_first() =~= a.drop_first() + b);
        assert((a + b)[0] == a[0]);
    }
}

/// Each pass writes exactly the bytes from `offset` to the end, in
/// the pass's own pattern.
pub proof fn lemma_pass_covers(pattern: ShredPattern, offset: u64, size: u64)
    requires
        offset <= size,
    ensures
        sum_write_lens(spec_pass_writes(pattern, offset, size)) == size - offset,
        forall|i: int|
            0 <= i < spec_pass_writes(pattern, offset, size).len() ==> (#[trigger] spec_pass_writes(
                pattern,
                offset,
                size,
            )[i] matches ShredOp::Write { pattern: p, .. } && p == pattern),
    decreases size - offset,
{
    if offset >= size {
    } else {
        let len = if size - offset < SHRED_CHUNK {
            (size - offset) as u64
        } else {
            SHRED_CHUNK
        };
        lemma_pass_covers(pattern, (offset + len) as u64, size);
        let w = ShredOp::Write { pattern, offset, len };
        let rest = spec_pass_writes(pattern, (offset + len) as u64, size);
        assert((seq![w] + rest).drop_first() =~= rest);
        assert((seq![w] + rest)[0] == w);
    }
}

/// Shred durability ordering: for a non-empty file the schedule holds
/// exactly three full-length overwrite passes — random, zeros, random
/// in that order — each sealed by a flush and a durable sync, and the
/// unlink is the one final operation, after everything else.
pub proof fn lemma_shred_durability(size: u64)
    requires
        size > 0,
    ensures
        spec_shred_plan(size) == spec_pass_ops(ShredPattern::Random, size) + spec_pass_ops(
            ShredPattern::Zero,
            size,
        ) + spec_pass_ops(ShredPattern::Random, size) + seq![ShredOp::Unlink],
        spec_shred_plan(size).last() == ShredOp::Unlink,
        forall|i: int|
            0 <= i < spec_shred_plan(size).len() - 1 ==> spec_shred_plan(size)[i]
                != ShredOp::Unlink,
        sum_write_lens(spec_pass_ops(ShredPattern::Random, size)) == size,
        sum_write_lens(spec_pass_ops(ShredPattern::Zero, size)) == size,
        spec_pass_ops(ShredPattern::Random, size).last() == ShredOp::Sync,
        spec_pass_ops(ShredPattern::Zero, size).last() == ShredOp::Sync,
{
    let p_rand = spec_pass_ops(ShredPattern::Random, size);
    let p_zero = spec_pass_ops(ShredPattern::Zero, size);
    let plan = spec_shred_plan(size);
    lemma_pass_covers(ShredPattern::Random, 0, size);
    lemma_pass_covers(ShredPattern::Zero, 0, size);
    lemma_sum_write_lens_concat(seq![ShredOp::SeekStart], spec_pass_writes(
        ShredPattern::Random,
        0,
        size,
    ));
    lemma_sum_write_lens_concat(
        seq![ShredOp::SeekStart] + spec_pass_writes(ShredPattern::Random, 0, size),
        seq![ShredOp::Flush, ShredOp::Sync],
    );
    lemma_sum_write_lens_concat(seq![ShredOp::SeekStart], spec_pass_writes(
        ShredPattern::Zero,
        0,
        size,
    ));
    lemma_sum_write_lens_concat(
        seq![ShredOp::SeekStart] + spec_pass_writes(ShredPattern::Zero, 0, size),
        seq![ShredOp::Flush, ShredOp::Sync],
    );
    assert(sum_write_lens(seq![ShredOp::Flush, ShredOp::Sync]) == 0) by {
        let fs = seq![ShredOp::Flush, ShredOp::Sync];
        assert(fs.drop_first() =~= seq![ShredOp::Sync]);
        assert(seq![ShredOp::Sync].drop_first() =~= Seq::<ShredOp>::empty());
        assert(fs[0] == ShredOp::Flush);
        assert(seq![ShredOp::Sync][0] == ShredOp::Sync);
        assert(sum_write_lens(fs) == 0 + sum_write_lens(fs.drop_first()));
        assert(sum_write_lens(seq![ShredOp::Sync]) == 0 + sum_write_lens(
            Seq::<ShredOp>::empty(),
        ));
    }
    assert(sum_write_lens(seq![ShredOp::SeekStart]) == 0) by {
        let ss = seq![ShredOp::SeekStart];
        assert(ss.drop_first() =~= Seq::<ShredOp>::empty());
        assert(ss[0] == ShredOp::SeekStart);
        assert(sum_write_lens(ss) == 0 + sum_write_lens(Seq::<ShredOp>::empty()));
    }
    // no unlink before the end: every earlier position sits inside a
    // pass, whose operations are seeks, writes, flushes, and syncs
    assert forall|i: int| 0 <= i < plan.len() - 1 implies plan[i] != ShredOp::Unlink by {
        lemma_pass_has_no_unlink(ShredPattern::Random, size);
        lemma_pass_has_no_unlink(ShredPattern::Zero, size);
        if i < p_rand.len() {
            assert(plan[i] == p_rand[i]);
        } else if i < p_rand.len() + p_zero.len() {
            assert(plan[i] == p_zero[i - p_rand.len()]);
        } else {
            assert(plan[i] == p_rand[i - p_rand.len() - p_zero.len()]);
        }
    }
}

proof fn lemma_pass_writes_no_unlink(pattern: ShredPattern, offset: u64, size: u64)
    ensures
        forall|i: int|
            0 <= i < spec_pass_writes(pattern, offset, size).len() ==> spec_pass_writes(
                pattern,
                offset,
                size,
            )[i] != ShredOp::Unlink,
    decreases size - offset,
{
    if offset < size {
        let len = if size - offset < SHRED_CHUNK {
            (size - offset) as u64
        } else {
            SHRED_CHUNK
        };
        lemma_pass_writes_no_unlink(pattern, (offset + len) as u64, size);
        let w = ShredOp::Write { pattern, offset, len };
        let rest = spec_pass_writes(pattern, (offset + len) as u64, size);
        assert(forall|i: int|
            0 <= i < (seq![w] + rest).len() ==> (seq![w] + rest)[i] == (if i == 0 {
                w
            } else {
                rest[i - 1]
            }));
    }
}

proof fn lemma_pass_has_no_unlink(pattern: ShredPattern, size: u64)
    ensures
        forall|i: int|
            0 <= i < spec_pass_ops(pattern, size).len() ==> spec_pass_ops(pattern, size)[i]
                != ShredOp::Unlink,
{
    lemma_pass_writes_no_unlink(pattern, 0, size);
    let ops = spec_pass_ops(pattern, size);
    let writes = spec_pass_writes(pattern, 0, size);
    assert forall|i: int| 0 <= i < ops.len() implies ops[i] != ShredOp::Unlink by {
        if i == 0 {
            assert(ops[0] == ShredOp::SeekStart);
        } else if i < 1 + writes.len() {
            assert(ops[i] == writes[i - 1]);
        } else if i == 1 + writes.len() {
            assert(ops[i] == ShredOp::Flush);
        } else {
            assert(ops[i] == ShredOp::Sync);
        }
    }
}

/// The linear-congruential step behind the pseudo-random fill.
pub open spec fn spec_lcg_next(s: u64) -> u64 {
    vstd::wrapping::u64_specs::wrapping_add(
        vstd::wrapping::u64_specs::wrapping_mul(s, 6364136223846793005),
        1442695040888963407,
    )
}

/// The fill bytes produced from a generator state: each step advances
/// the state and emits its high byte below the top 31 bits.
pub open spec fn spec_lcg_bytes(state: u64, n: int) -> Seq<u8>
    decreases n,
{
    if n <= 0 {
        Seq::empty()
    } else {
        let next = spec_lcg_next(state);
        seq![(next >> 33) as u8] + spec_lcg_bytes(next, n - 1)
    }
}

/// Fill a buffer with pseudo-random bytes from the given seed: a pure
/// function of the seed, fast and deliberately not cryptographic —
/// shredding needs bulk unpredictable-looking data, not secrecy.
pub fn fill_random(seed: u64, count: usize) -> (buf: Vec<u8>)
    ensures
        buf@ == spec_lcg_bytes(seed, count as int),
        buf@.len() == count,
{
    let mut buf: Vec<u8> = Vec::new();
    let mut state: u64 = seed;
    let mut i: usize = 0;
    proof {
        assert(spec_lcg_bytes(seed, count as int) =~= buf@ + spec_lcg_bytes(
            state,
            count - i as int,
        ));
    }
    while i < count
        invariant
            0 <= i <= count,
            buf@.len() == i,
            spec_lcg_bytes(seed, count as int) == buf@ + spec_lcg_bytes(state, count - i as int),
        decreases count - i,
    {
        let ghost pre = buf@;
        let ghost prev_state = state;
        state = state.wrapping_mul(6364136223846793005).wrapping_add(1442695040888963407);
        buf.push((state >> 33) as u8);
        proof {
            assert(state == spec_lcg_next(prev_state));
            assert(spec_lcg_bytes(prev_state, count - i as int) == seq![(state >> 33) as u8]
                + spec_lcg_bytes(state, count - i as int - 1));
            assert(pre + spec_lcg_bytes(prev_state, count - i as int) =~= buf@ + spec_lcg_bytes(
                state,
                count - (i + 1) as int,
            ));
        }
        i = i + 1;
    }
    proof {
        assert(spec_lcg_bytes(state, count - i as int) =~= Seq::<u8>::empty());
        assert(buf@ + Seq::<u8>::empty() =~= buf@);
    }
    buf
}

} // verus!
